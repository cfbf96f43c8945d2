//! The decisions of the emote fetch worker: which requests lead to a
//! fetch, and what a fetched response does to the cache. Whoever runs the
//! worker receives the requests, performs the fetches and hands back what
//! they brought.

use vstd::prelude::*;
use crate::cache::{cache_key, fetch_url, key_of, url_of, EmoteCache};
use crate::emote::{views, EmoteSource, SourceView};
use crate::bitmap::Bitmap;
use crate::raster::decode;

verus! {

/// A fetch that the worker asks for: the source, the address to fetch
/// from, and the cache key under which the result belongs.
pub struct FetchRequest {
    pub source: EmoteSource,
    pub url: String,
    pub key: String,
}

/// The set of the sources in a list.
pub open spec fn source_set(list: Seq<EmoteSource>) -> Set<SourceView> {
    Set::new(|s: SourceView| exists|i: int| 0 <= i < list.len() && (#[trigger] list[i])@ == s)
}

/// The sources that lead to a fetch when `requests` arrive in order at a
/// worker that has seen `seen`: each source that was not seen, at its first
/// arrival.
pub open spec fn fetch_plan(seen: Set<SourceView>, requests: Seq<SourceView>) -> Seq<SourceView>
    decreases requests.len(),
{
    if requests.len() == 0 {
        Seq::empty()
    } else {
        let earlier = requests.drop_last();
        let source = requests.last();
        if seen.contains(source) || earlier.contains(source) {
            fetch_plan(seen, earlier)
        } else {
            fetch_plan(seen, earlier).push(source)
        }
    }
}

/// The sources of a list of fetch requests.
pub open spec fn requested(list: Seq<FetchRequest>) -> Seq<SourceView> {
    list.map_values(|r: FetchRequest| r.source@)
}

/// A fetch request is the one that belongs to its source.
pub open spec fn well_addressed(r: FetchRequest) -> bool {
    r.url@ == url_of(r.source@) && r.key@ == key_of(r.source@)
}

/// The state of the fetch worker: the sources it has been asked for.
pub struct FetchWorker {
    seen: Vec<EmoteSource>,
}

impl FetchWorker {
    /// The sources that were requested at least once.
    pub closed spec fn seen(&self) -> Set<SourceView> {
        source_set(self.seen@)
    }

    /// A worker that has seen nothing.
    pub fn new() -> (worker: FetchWorker)
        ensures
            worker.seen() == Set::<SourceView>::empty(),
    {
        let worker = FetchWorker { seen: Vec::new() };
        proof {
            assert(worker.seen() =~= Set::<SourceView>::empty());
        }
        worker
    }

    /// Whether a source was requested before.
    pub fn has_seen(&self, source: &EmoteSource) -> (yes: bool)
        ensures
            yes == self.seen().contains(source@),
    {
        let mut i: usize = 0;
        while i < self.seen.len()
            invariant
                i <= self.seen@.len(),
                forall|k: int| 0 <= k < i ==> (#[trigger] self.seen@[k])@ != source@,
            decreases self.seen@.len() - i,
        {
            if self.seen[i].same(source) {
                return true;
            }
            i = i + 1;
        }
        false
    }

    /// Takes a request: a source that was requested before is skipped, any
    /// other is remembered and leads to one fetch.
    pub fn request(&mut self, source: EmoteSource) -> (fetch: Option<FetchRequest>)
        ensures
            final(self).seen() == old(self).seen().insert(source@),
            fetch is Some <==> !old(self).seen().contains(source@),
            fetch matches Some(r) ==> r.source@ == source@ && well_addressed(r),
    {
        if self.has_seen(&source) {
            proof {
                assert(self.seen().insert(source@) =~= self.seen());
            }
            return None;
        }
        let url = fetch_url(&source);
        let key = cache_key(&source);
        let ghost before = self.seen@;
        self.seen.push(source.duplicate());
        proof {
            let after = self.seen@;
            assert forall|s: SourceView| source_set(after).contains(s) == source_set(
                before,
            ).insert(source@).contains(s) by {
                if source_set(after).contains(s) {
                    let i = choose|i: int| 0 <= i < after.len() && (#[trigger] after[i])@ == s;
                    if i < before.len() {
                        assert(before[i]@ == s);
                    }
                }
                if source_set(before).contains(s) {
                    let i = choose|i: int| 0 <= i < before.len() && (#[trigger] before[i])@ == s;
                    assert(after[i]@ == s);
                }
                if s == source@ {
                    assert(after[before.len() as int]@ == s);
                }
            }
            assert(source_set(after) =~= source_set(before).insert(source@));
        }
        Some(FetchRequest { source, url, key })
    }
}

/// Hands a batch of sources to the worker and gives back the fetches to
/// perform, in order: one for each source that the worker had not seen, at
/// its first place in the batch.
pub fn prefetch_emotes(worker: &mut FetchWorker, emotes: Vec<EmoteSource>) -> (fetches: Vec<
    FetchRequest,
>)
    ensures
        requested(fetches@) == fetch_plan(old(worker).seen(), views(emotes@)),
        forall|i: int| 0 <= i < fetches@.len() ==> well_addressed(#[trigger] fetches@[i]),
        final(worker).seen() == old(worker).seen().union(views(emotes@).to_set()),
{
    let ghost start = worker.seen();
    let ghost all = views(emotes@);
    let mut fetches: Vec<FetchRequest> = Vec::new();
    let mut i: usize = 0;
    proof {
        assert(all.take(0) =~= Seq::<SourceView>::empty());
        assert(requested(fetches@) =~= Seq::<SourceView>::empty());
        assert(start.union(all.take(0).to_set()) =~= start);
    }
    while i < emotes.len()
        invariant
            i <= emotes@.len(),
            all == views(emotes@),
            requested(fetches@) == fetch_plan(start, all.take(i as int)),
            forall|k: int| 0 <= k < fetches@.len() ==> well_addressed(#[trigger] fetches@[k]),
            worker.seen() == start.union(all.take(i as int).to_set()),
        decreases emotes@.len() - i,
    {
        let source = emotes[i].duplicate();
        let ghost before = fetches@;
        proof {
            let head = all.take(i + 1);
            assert(head.drop_last() =~= all.take(i as int));
            assert(head.last() == source@);
            assert(start.union(head.to_set()) =~= start.union(all.take(i as int).to_set()).insert(
                source@,
            )) by {
                assert forall|s: SourceView|
                    start.union(head.to_set()).contains(s) == start.union(
                        all.take(i as int).to_set(),
                    ).insert(source@).contains(s) by {
                    if head.contains(s) {
                        let k = choose|k: int| 0 <= k < head.len() && head[k] == s;
                        if k < i {
                            assert(all.take(i as int)[k] == s);
                        }
                    }
                    if all.take(i as int).contains(s) {
                        let k = choose|k: int| 0 <= k < i && all.take(i as int)[k] == s;
                        assert(head[k] == s);
                    }
                    if s == source@ {
                        assert(head[i as int] == s);
                    }
                }
            }
            assert(start.union(all.take(i as int).to_set()).contains(source@) == (start.contains(
                source@,
            ) || all.take(i as int).contains(source@)));
        }
        match worker.request(source) {
            Some(fetch) => {
                fetches.push(fetch);
                proof {
                    assert(requested(fetches@) =~= requested(before).push(source@));
                }
            },
            None => {},
        }
        i = i + 1;
    }
    proof {
        assert(all.take(i as int) =~= all);
    }
    fetches
}

/// Takes what decoding a fetched response gave: an image is cached under
/// `key`, in place of any that was there, and every other key keeps what
/// it had; without an image the cache stays as it is. Says whether an
/// image was cached.
pub fn store_decoded(cache: &mut EmoteCache, key: String, image: Option<Bitmap>) -> (stored: bool)
    requires
        old(cache).wf(),
        image matches Some(bitmap) ==> bitmap.wf(),
    ensures
        final(cache).wf(),
        stored == image is Some,
        forall|k: Seq<char>|
            #[trigger] final(cache).lookup(k) == if image is Some && k == key@ {
                image
            } else {
                old(cache).lookup(k)
            },
{
    match image {
        Some(bitmap) => {
            cache.insert(key, bitmap);
            true
        },
        None => false,
    }
}

/// Takes the body of a fetched response: it is decoded, and what that
/// gives goes to [`store_decoded`]. Whatever the decoder makes of the
/// body, only `key` can change: it holds a well-formed image where one was
/// cached, and the cache is as it was where none was.
pub fn store_fetched(cache: &mut EmoteCache, key: String, body: &[u8]) -> (stored: bool)
    requires
        old(cache).wf(),
    ensures
        final(cache).wf(),
        forall|k: Seq<char>|
            k != key@ || !stored ==> #[trigger] final(cache).lookup(k) == old(cache).lookup(k),
        stored ==> (final(cache).lookup(key@) matches Some(image) && image.wf()),
{
    let image = decode(body);
    store_decoded(cache, key, image)
}

/// Deduplication: whatever requests arrive, no source is fetched twice,
/// and none that the worker had seen before is fetched at all.
pub proof fn lemma_fetch_at_most_once(seen: Set<SourceView>, requests: Seq<SourceView>)
    ensures
        fetch_plan(seen, requests).no_duplicates(),
        forall|i: int|
            0 <= i < fetch_plan(seen, requests).len() ==> !seen.contains(
                #[trigger] fetch_plan(seen, requests)[i],
            ) && requests.contains(fetch_plan(seen, requests)[i]),
    decreases requests.len(),
{
    if requests.len() > 0 {
        let earlier = requests.drop_last();
        let source = requests.last();
        lemma_fetch_at_most_once(seen, earlier);
        let plan = fetch_plan(seen, earlier);
        assert forall|i: int| 0 <= i < plan.len() implies requests.contains(#[trigger] plan[i]) by {
            let k = choose|k: int| 0 <= k < earlier.len() && earlier[k] == plan[i];
            assert(requests[k] == plan[i]);
        }
        if !(seen.contains(source) || earlier.contains(source)) {
            assert(requests[requests.len() - 1] == source);
            assert forall|i: int, j: int|
                0 <= i < plan.push(source).len() && 0 <= j < plan.push(source).len() && i
                    != j implies plan.push(source)[i] != plan.push(source)[j] by {
                if i < plan.len() {
                    assert(earlier.contains(plan[i]));
                }
                if j < plan.len() {
                    assert(earlier.contains(plan[j]));
                }
            }
        }
    }
}

/// A source that is requested twice in a row is fetched for the first
/// request at most and never for the second.
pub proof fn lemma_second_request_skipped(seen: Set<SourceView>, source: SourceView)
    ensures
        fetch_plan(seen, seq![source, source]) == fetch_plan(seen, seq![source]),
        fetch_plan(seen, seq![source, source]).len() <= 1,
{
    let twice = seq![source, source];
    let once = seq![source];
    assert(twice.drop_last() =~= once);
    assert(once[0] == source);
    assert(once.contains(source));
    assert(once.drop_last() =~= Seq::<SourceView>::empty());
    assert(fetch_plan(seen, Seq::<SourceView>::empty()).len() == 0);
    assert(fetch_plan(seen, once).len() <= 1);
}

} // verus!
