//! The emote cache: decoded bitmaps by key, and how a source names its
//! key and the place its bitmap is fetched from.

use vstd::prelude::*;
use crate::bitmap::{Bitmap, Pixels};
use crate::emote::{EmoteSource, SourceView};
use crate::numeral::{lemma_numeral_injective, numeral, push_numeral};

verus! {

/// What the keys of Unicode sources begin with.
pub const UNICODE_KEY_PREFIX: &'static str = "twemoji_";

/// The key under which the bitmap of a source is cached: the id of a
/// platform emote, and for a code point the prefix `twemoji_` followed by
/// its number in decimal.
pub open spec fn key_of(source: SourceView) -> Seq<char> {
    match source {
        SourceView::Discord(id) => id,
        SourceView::Unicode(point) => UNICODE_KEY_PREFIX@ + numeral(point as nat, 10),
    }
}

/// The address from which the bitmap of a source is fetched: the
/// platform's CDN by id, at 96 pixels, or the emoji image CDN by the code
/// point in lower-case hexadecimal, at 72 pixels.
pub open spec fn url_of(source: SourceView) -> Seq<char> {
    match source {
        SourceView::Discord(id) => "https://cdn.discordapp.com/emojis/"@ + id + ".webp?size=96"@,
        SourceView::Unicode(point) => "https://cdnjs.cloudflare.com/ajax/libs/twemoji/16.0.1/72x72/"@
            + numeral(point as nat, 16) + ".png"@,
    }
}

/// The side in pixels of the bitmaps that a source's address serves.
pub open spec fn nominal_px(source: SourceView) -> int {
    match source {
        SourceView::Discord(_) => 96,
        SourceView::Unicode(_) => 72,
    }
}

/// The cache key of a source.
pub fn cache_key(source: &EmoteSource) -> (key: String)
    ensures
        key@ == key_of(source@),
{
    match source {
        EmoteSource::Discord(id) => id.clone(),
        EmoteSource::Unicode(c) => {
            let mut key = String::from_str(UNICODE_KEY_PREFIX);
            push_numeral(&mut key, *c as u64, 10);
            key
        },
    }
}

/// The address that serves the bitmap of a source.
pub fn fetch_url(source: &EmoteSource) -> (url: String)
    ensures
        url@ == url_of(source@),
{
    match source {
        EmoteSource::Discord(id) => {
            let mut url = String::from_str("https://cdn.discordapp.com/emojis/");
            url.append(id.as_str());
            url.append(".webp?size=96");
            url
        },
        EmoteSource::Unicode(c) => {
            let mut url = String::from_str(
                "https://cdnjs.cloudflare.com/ajax/libs/twemoji/16.0.1/72x72/",
            );
            push_numeral(&mut url, *c as u64, 16);
            url.append(".png");
            url
        },
    }
}

/// The side in pixels of the bitmaps that a source's address serves.
pub fn nominal_size(source: &EmoteSource) -> (px: u32)
    ensures
        px == nominal_px(source@),
{
    match source {
        EmoteSource::Discord(_) => 96,
        EmoteSource::Unicode(_) => 72,
    }
}

/// One cached bitmap.
pub struct CacheEntry {
    pub key: String,
    pub image: Bitmap,
}

/// The bitmap cached under a key: the latest that was inserted.
pub open spec fn cached(entries: Seq<CacheEntry>, key: Seq<char>) -> Option<Bitmap>
    decreases entries.len(),
{
    if entries.len() == 0 {
        None
    } else if entries.last().key@ == key {
        Some(entries.last().image)
    } else {
        cached(entries.drop_last(), key)
    }
}

/// Decoded bitmaps by key. An owned object: whoever renders and whoever
/// fetches share one.
pub struct EmoteCache {
    entries: Vec<CacheEntry>,
}

impl EmoteCache {
    /// The bitmap held under a key, if any.
    pub closed spec fn lookup(&self, key: Seq<char>) -> Option<Bitmap> {
        cached(self.entries@, key)
    }

    /// Every cached bitmap is well formed.
    pub closed spec fn wf(&self) -> bool {
        forall|i: int| 0 <= i < self.entries@.len() ==> (#[trigger] self.entries@[i]).image.wf()
    }

    /// An empty cache.
    pub fn new() -> (cache: EmoteCache)
        ensures
            cache.wf(),
            forall|key: Seq<char>| cache.lookup(key) is None,
    {
        EmoteCache { entries: Vec::new() }
    }

    /// Puts a bitmap under a key, in place of any that was there.
    pub fn insert(&mut self, key: String, image: Bitmap)
        requires
            old(self).wf(),
            image.wf(),
        ensures
            final(self).wf(),
            forall|k: Seq<char>|
                #[trigger] final(self).lookup(k) == if k == key@ {
                    Some(image)
                } else {
                    old(self).lookup(k)
                },
    {
        let ghost before = self.entries@;
        self.entries.push(CacheEntry { key, image });
        proof {
            assert(self.entries@.drop_last() =~= before);
        }
    }

    /// The bitmap under a key.
    pub fn get(&self, key: &String) -> (found: Option<&Bitmap>)
        requires
            self.wf(),
        ensures
            found is Some <==> self.lookup(key@) is Some,
            found matches Some(image) ==> Some(*image) == self.lookup(key@) && image.wf(),
    {
        let mut i: usize = self.entries.len();
        proof {
            assert(self.entries@.take(i as int) =~= self.entries@);
        }
        while i > 0
            invariant
                i <= self.entries@.len(),
                self.wf(),
                cached(self.entries@, key@) == cached(self.entries@.take(i as int), key@),
            decreases i,
        {
            let entry = &self.entries[i - 1];
            proof {
                let head = self.entries@.take(i as int);
                assert(head.last() == self.entries@[i - 1]);
                assert(head.drop_last() =~= self.entries@.take(i - 1));
            }
            if entry.key == *key {
                return Some(&entry.image);
            }
            i = i - 1;
        }
        None
    }

    /// The bitmap of a source, under the source's key.
    pub fn get_source(&self, source: &EmoteSource) -> (found: Option<&Bitmap>)
        requires
            self.wf(),
        ensures
            found is Some <==> self.lookup(key_of(source@)) is Some,
            found matches Some(image) ==> Some(*image) == self.lookup(key_of(source@))
                && image.wf(),
    {
        let key = cache_key(source);
        self.get(&key)
    }
}

/// An id lies in the namespace of Unicode keys where it begins with their prefix.
pub open spec fn in_unicode_namespace(id: Seq<char>) -> bool {
    UNICODE_KEY_PREFIX@.is_prefix_of(id)
}

/// The key of every code point lies in the namespace of Unicode keys.
pub proof fn lemma_unicode_key_in_namespace(point: u32)
    ensures
        in_unicode_namespace(key_of(SourceView::Unicode(point))),
{
    let prefix = UNICODE_KEY_PREFIX@;
    let key = prefix + numeral(point as nat, 10);
    assert(key.subrange(0, prefix.len() as int) =~= prefix);
}

/// A cache that holds bitmaps under platform ids only, none of which
/// begins with the prefix of Unicode keys, holds none for any code point:
/// a lookup for a code point misses, whatever the ids are.
pub proof fn lemma_code_point_misses(cache: &EmoteCache, point: u32)
    requires
        forall|key: Seq<char>| cache.lookup(key) is Some ==> !in_unicode_namespace(key),
    ensures
        cache.lookup(key_of(SourceView::Unicode(point))) is None,
{
    lemma_unicode_key_in_namespace(point);
}

/// Cache isolation: the key of a platform emote whose id does not begin
/// with the prefix of Unicode keys differs from the key of every code
/// point, and two sources of one kind share a key only where they are the
/// same source.
pub proof fn lemma_keys_isolated(a: SourceView, b: SourceView)
    requires
        a matches SourceView::Discord(id) ==> !in_unicode_namespace(id),
        b matches SourceView::Discord(id) ==> !in_unicode_namespace(id),
        key_of(a) == key_of(b),
    ensures
        a == b,
{
    let prefix = UNICODE_KEY_PREFIX@;
    match (a, b) {
        (SourceView::Discord(_), SourceView::Discord(_)) => {},
        (SourceView::Unicode(p), SourceView::Unicode(q)) => {
            let left = numeral(p as nat, 10);
            let right = numeral(q as nat, 10);
            assert(left =~= (prefix + left).subrange(prefix.len() as int, (prefix + left).len() as int));
            assert(right =~= (prefix + right).subrange(
                prefix.len() as int,
                (prefix + right).len() as int,
            ));
            lemma_numeral_injective(p as nat, q as nat, 10);
        },
        (SourceView::Discord(id), SourceView::Unicode(q)) => {
            let key = prefix + numeral(q as nat, 10);
            assert(key.subrange(0, prefix.len() as int) =~= prefix);
        },
        (SourceView::Unicode(p), SourceView::Discord(id)) => {
            let key = prefix + numeral(p as nat, 10);
            assert(key.subrange(0, prefix.len() as int) =~= prefix);
        },
    }
}

} // verus!
