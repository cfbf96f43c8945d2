//! Emote sources: what they are and how they are found in free text.

use vstd::prelude::*;
use crate::pattern::{capture_first, regex_capture};

verus! {

/// At most this many sources are taken from one text.
pub const MAX_EMOTES: usize = 3;

/// The pattern of a platform emote token: `<`, an optional `a`, `:`, a name
/// of word characters, `:`, an id of digits, `>`. The id is captured.
pub const EMOTE_PATTERN: &'static str = "<a?:\\w+:(\\d+)>";

/// Where an emote's bitmap comes from.
#[derive(Clone, Debug, PartialEq, Eq, Hash)]
pub enum EmoteSource {
    /// A custom emote of the platform, by its id.
    Discord(String),
    /// A Unicode code point.
    Unicode(char),
}

/// An emote source as a plain value: the characters of an id, or the
/// number of a code point.
pub enum SourceView {
    Discord(Seq<char>),
    Unicode(u32),
}

impl View for EmoteSource {
    type V = SourceView;

    open spec fn view(&self) -> SourceView {
        match self {
            EmoteSource::Discord(id) => SourceView::Discord(id@),
            EmoteSource::Unicode(c) => SourceView::Unicode(*c as u32),
        }
    }
}

impl EmoteSource {
    /// Whether two sources are the same: the same kind with the same id or code point.
    pub fn same(&self, other: &EmoteSource) -> (eq: bool)
        ensures
            eq == (self@ == other@),
    {
        match (self, other) {
            (EmoteSource::Discord(a), EmoteSource::Discord(b)) => *a == *b,
            (EmoteSource::Unicode(a), EmoteSource::Unicode(b)) => *a == *b,
            _ => false,
        }
    }

    /// A copy of this source.
    pub fn duplicate(&self) -> (copy: EmoteSource)
        ensures
            copy@ == self@,
    {
        match self {
            EmoteSource::Discord(id) => EmoteSource::Discord(id.clone()),
            EmoteSource::Unicode(c) => EmoteSource::Unicode(*c),
        }
    }
}

/// The sources of a list as plain values.
pub open spec fn views(list: Seq<EmoteSource>) -> Seq<SourceView> {
    list.map_values(|e: EmoteSource| e@)
}

/// The views of a list with one more source are the views of the list
/// with the view of that source.
pub proof fn lemma_views_push(list: Seq<EmoteSource>, e: EmoteSource)
    ensures
        views(list.push(e)) == views(list).push(e@),
{
    assert(views(list.push(e)) =~= views(list).push(e@));
}

/// The extended grapheme clusters that a text is cut into, in order.
pub uninterp spec fn grapheme_clusters(text: Seq<char>) -> Seq<Seq<char>>;

/// The texts of a list as plain values.
pub open spec fn texts(list: Seq<String>) -> Seq<Seq<char>> {
    list.map_values(|t: String| t@)
}

/// The first scalar value of each cluster of a list, in order; a cluster
/// without any gives none.
pub open spec fn heads_of(clusters: Seq<Seq<char>>) -> Seq<char>
    decreases clusters.len(),
{
    if clusters.len() == 0 {
        Seq::empty()
    } else if clusters.last().len() == 0 {
        heads_of(clusters.drop_last())
    } else {
        heads_of(clusters.drop_last()) + clusters.last().subrange(0, 1)
    }
}

/// The first scalar value of each extended grapheme cluster of a text, in order.
pub open spec fn grapheme_heads(text: Seq<char>) -> Seq<char> {
    heads_of(grapheme_clusters(text))
}

/// `unicode_segmentation::UnicodeSegmentation::graphemes` with extended
/// clusters: the text is cut into grapheme clusters, none of them empty,
/// which are handed back in order. The cut depends on the text alone.
#[verifier::external_body]
pub(crate) fn clusters_of(text: &str) -> (out: Vec<String>)
    ensures
        texts(out@) == grapheme_clusters(text@),
        forall|i: int| 0 <= i < out@.len() ==> (#[trigger] out@[i])@.len() > 0,
{
    unicode_segmentation::UnicodeSegmentation::graphemes(text, true)
        .map(|cluster| cluster.to_string())
        .collect()
}

/// Takes the first scalar value of each cluster and hands them back as
/// one text.
pub fn cluster_heads(clusters: &Vec<String>) -> (heads: String)
    ensures
        heads@ == heads_of(texts(clusters@)),
{
    let mut heads = String::new();
    let mut i: usize = 0;
    proof {
        assert(texts(clusters@).take(0) =~= Seq::<Seq<char>>::empty());
    }
    while i < clusters.len()
        invariant
            i <= clusters@.len(),
            heads@ == heads_of(texts(clusters@).take(i as int)),
        decreases clusters@.len() - i,
    {
        let cluster = clusters[i].as_str();
        proof {
            let sofar = texts(clusters@).take(i + 1);
            assert(sofar.drop_last() =~= texts(clusters@).take(i as int));
            assert(sofar.last() == cluster@);
        }
        if cluster.unicode_len() > 0 {
            heads.append(cluster.substring_char(0, 1));
        }
        i = i + 1;
    }
    proof {
        assert(texts(clusters@).take(i as int) =~= texts(clusters@));
    }
    heads
}

/// The first scalar value of each extended grapheme cluster of a text, as
/// one text.
fn first_scalars(text: &str) -> (heads: String)
    ensures
        heads@ == grapheme_heads(text@),
{
    let clusters = clusters_of(text);
    cluster_heads(&clusters)
}

/// A scalar value counts as an emoji where its UTF-8 form has three bytes
/// or more, that is from U+0800 on.
pub open spec fn is_emoji_scalar(c: char) -> bool {
    c as u32 >= 0x800
}

/// Computes [`is_emoji_scalar`].
pub fn emoji_scalar(c: char) -> (yes: bool)
    ensures
        yes == is_emoji_scalar(c),
{
    c as u32 >= 0x800
}

/// The Unicode sources among the heads of a text's grapheme clusters.
pub open spec fn unicode_sources(heads: Seq<char>) -> Seq<SourceView>
    decreases heads.len(),
{
    if heads.len() == 0 {
        Seq::empty()
    } else if is_emoji_scalar(heads.last()) {
        unicode_sources(heads.drop_last()).push(SourceView::Unicode(heads.last() as u32))
    } else {
        unicode_sources(heads.drop_last())
    }
}

/// The first [`MAX_EMOTES`] of a list of sources.
pub open spec fn capped(list: Seq<SourceView>) -> Seq<SourceView> {
    if list.len() > MAX_EMOTES {
        list.take(MAX_EMOTES as int)
    } else {
        list
    }
}

/// Every source of a text, in the order of appearance: before each emote
/// token the emoji of the text that precedes it, then the token's id, and
/// after the last token the emoji of what is left.
pub open spec fn all_sources(text: Seq<char>) -> Seq<SourceView>
    decreases text.len(),
{
    if text.len() == 0 {
        Seq::empty()
    } else {
        match regex_capture(EMOTE_PATTERN@, text) {
            None => unicode_sources(grapheme_heads(text)),
            Some((before, id, after)) => {
                let here = unicode_sources(grapheme_heads(before)).push(SourceView::Discord(id));
                if after.len() < text.len() {
                    here + all_sources(after)
                } else {
                    here
                }
            },
        }
    }
}

/// What parsing a text gives: its first three sources.
pub open spec fn parsed_sources(text: Seq<char>) -> Seq<SourceView> {
    capped(all_sources(text))
}

/// Cutting a list before more is appended does not change the first three.
pub proof fn lemma_capped_absorbs(a: Seq<SourceView>, b: Seq<SourceView>)
    ensures
        capped(capped(a) + b) == capped(a + b),
        a.len() >= MAX_EMOTES ==> capped(a + b) == capped(a),
        capped(a).len() <= MAX_EMOTES,
        capped(a).len() < MAX_EMOTES ==> capped(a) == a,
{
    if a.len() > MAX_EMOTES {
        assert((a.take(MAX_EMOTES as int) + b).take(MAX_EMOTES as int) =~= (a + b).take(
            MAX_EMOTES as int,
        ));
        assert((a + b).take(MAX_EMOTES as int) =~= a.take(MAX_EMOTES as int));
    } else if a.len() == MAX_EMOTES {
        assert((a + b).take(MAX_EMOTES as int) =~= a);
        if b.len() == 0 {
            assert(a + b =~= a);
        }
    }
}

/// Appends to `out` the Unicode sources among `heads`, in order, until
/// `out` holds three.
pub fn push_unicode(out: &mut Vec<EmoteSource>, heads: &str)
    ensures
        old(out)@.len() <= MAX_EMOTES ==> views(final(out)@) == capped(
            views(old(out)@) + unicode_sources(heads@),
        ) && final(out)@.len() <= MAX_EMOTES,
        old(out)@.len() >= MAX_EMOTES ==> final(out)@ == old(out)@,
{
    if out.len() >= MAX_EMOTES {
        proof {
            if out@.len() == MAX_EMOTES {
                assert(views(out@).len() == out@.len());
                lemma_capped_absorbs(views(out@), unicode_sources(heads@));
            }
        }
        return ;
    }
    let ghost start = views(out@);
    let mut i: usize = 0;
    proof {
        assert(heads@.take(0) =~= Seq::<char>::empty());
        assert(start + unicode_sources(heads@.take(0)) =~= start);
    }
    let count = heads.unicode_len();
    while i < count
        invariant
            count == heads@.len(),
            i <= heads@.len(),
            out@.len() <= MAX_EMOTES,
            start.len() <= MAX_EMOTES,
            views(out@) == capped(start + unicode_sources(heads@.take(i as int))),
        ensures
            i >= count || out@.len() >= MAX_EMOTES,
        decreases heads@.len() - i,
    {
        if out.len() >= MAX_EMOTES {
            break;
        }
        let c = heads.get_char(i);
        proof {
            let head = heads@.take(i + 1);
            assert(head.drop_last() =~= heads@.take(i as int));
            assert(head.last() == c);
            lemma_capped_absorbs(start + unicode_sources(heads@.take(i as int)), Seq::empty());
        }
        proof {
            if !is_emoji_scalar(c) {
                assert(unicode_sources(heads@.take(i + 1)) == unicode_sources(
                    heads@.take(i as int),
                ));
            }
        }
        if emoji_scalar(c) {
            let ghost before = out@;
            out.push(EmoteSource::Unicode(c));
            proof {
                let sofar = start + unicode_sources(heads@.take(i as int));
                assert(views(before) == sofar);
                lemma_views_push(before, EmoteSource::Unicode(c));
                assert(unicode_sources(heads@.take(i + 1)) == unicode_sources(
                    heads@.take(i as int),
                ).push(SourceView::Unicode(c as u32)));
                assert(start + unicode_sources(heads@.take(i + 1)) =~= sofar.push(
                    SourceView::Unicode(c as u32),
                ));
            }
        }
        i = i + 1;
    }
    proof {
        let sofar = start + unicode_sources(heads@.take(i as int));
        if i < heads@.len() {
            lemma_unicode_sources_prefix(heads@, i as int);
            let more = unicode_sources(heads@).subrange(
                unicode_sources(heads@.take(i as int)).len() as int,
                unicode_sources(heads@).len() as int,
            );
            assert(unicode_sources(heads@) =~= unicode_sources(heads@.take(i as int)) + more);
            assert(start + unicode_sources(heads@) =~= sofar + more);
            assert(views(out@).len() == out@.len());
            assert(sofar.len() >= MAX_EMOTES);
            lemma_capped_absorbs(sofar, more);
        } else {
            assert(heads@.take(i as int) =~= heads@);
        }
    }
}

/// The sources of a prefix of the heads are a prefix of the sources of all.
pub proof fn lemma_unicode_sources_prefix(heads: Seq<char>, n: int)
    requires
        0 <= n <= heads.len(),
    ensures
        unicode_sources(heads.take(n)).len() <= unicode_sources(heads).len(),
        unicode_sources(heads.take(n)) == unicode_sources(heads).take(
            unicode_sources(heads.take(n)).len() as int,
        ),
    decreases heads.len() - n,
{
    if n == heads.len() {
        assert(heads.take(n) =~= heads);
        assert(unicode_sources(heads).take(unicode_sources(heads).len() as int) =~= unicode_sources(
            heads,
        ));
    } else {
        let next = heads.take(n + 1);
        assert(next.drop_last() =~= heads.take(n));
        lemma_unicode_sources_prefix(heads, n + 1);
        let all = unicode_sources(heads);
        let longer = unicode_sources(next);
        let shorter = unicode_sources(heads.take(n));
        assert(longer == if is_emoji_scalar(next.last()) {
            shorter.push(SourceView::Unicode(next.last() as u32))
        } else {
            shorter
        });
        assert(shorter =~= longer.take(shorter.len() as int));
        assert(longer.take(shorter.len() as int) =~= all.take(longer.len() as int).take(
            shorter.len() as int,
        ));
        assert(all.take(longer.len() as int).take(shorter.len() as int) =~= all.take(
            shorter.len() as int,
        ));
    }
}

/// Appends to `out` what one emote token brings: the Unicode sources among
/// the heads of the text before it, then the token's id, until `out`
/// holds three.
pub fn push_token(out: &mut Vec<EmoteSource>, heads: &str, id: String)
    ensures
        old(out)@.len() <= MAX_EMOTES ==> views(final(out)@) == capped(
            views(old(out)@) + unicode_sources(heads@).push(SourceView::Discord(id@)),
        ) && final(out)@.len() <= MAX_EMOTES,
        old(out)@.len() >= MAX_EMOTES ==> final(out)@ == old(out)@,
{
    if out.len() >= MAX_EMOTES {
        proof {
            if out@.len() == MAX_EMOTES {
                assert(views(out@).len() == out@.len());
                lemma_capped_absorbs(
                    views(out@),
                    unicode_sources(heads@).push(SourceView::Discord(id@)),
                );
            }
        }
        return ;
    }
    let ghost start = views(out@);
    let ghost emoji = unicode_sources(heads@);
    let ghost token = SourceView::Discord(id@);
    proof {
        assert(start + emoji.push(token) =~= (start + emoji) + seq![token]);
        lemma_capped_absorbs(start + emoji, seq![token]);
        lemma_capped_absorbs(start + emoji, Seq::empty());
    }
    push_unicode(out, heads);
    if out.len() < MAX_EMOTES {
        let source = EmoteSource::Discord(id);
        proof {
            lemma_views_push(out@, source);
            assert(views(out@).push(token) =~= (start + emoji) + seq![token]);
            lemma_capped_absorbs((start + emoji) + seq![token], Seq::empty());
        }
        out.push(source);
    } else {
        proof {
            lemma_capped_absorbs(views(out@), seq![token]);
            lemma_capped_absorbs(views(out@), Seq::empty());
            assert(views(out@) + Seq::<SourceView>::empty() =~= views(out@));
        }
    }
}

/// Finds the emote sources of a text: platform emote tokens and emoji, in
/// the order of appearance, three at most.
pub fn parse_all_emotes(s: &str) -> (out: Vec<EmoteSource>)
    ensures
        views(out@) == parsed_sources(s@),
        out@.len() <= MAX_EMOTES,
{
    let mut out: Vec<EmoteSource> = Vec::new();
    let mut remaining: String = String::from_str(s);
    proof {
        assert(views(out@) =~= Seq::<SourceView>::empty());
        assert(views(out@) + all_sources(remaining@) =~= all_sources(remaining@));
    }
    while !remaining.as_str().is_empty()
        invariant
            out@.len() < MAX_EMOTES,
            parsed_sources(s@) == capped(views(out@) + all_sources(remaining@)),
        decreases remaining@.len(),
    {
        let ghost done = views(out@);
        let ghost text = remaining@;
        match capture_first(EMOTE_PATTERN, remaining.as_str()) {
            None => {
                let heads = first_scalars(remaining.as_str());
                push_unicode(&mut out, heads.as_str());
                return out;
            },
            Some(found) => {
                let heads = first_scalars(found.before.as_str());
                let shorter = found.after.as_str().unicode_len() < remaining.as_str().unicode_len();
                let ghost here = unicode_sources(heads@).push(SourceView::Discord(found.group@));
                let ghost rest = if shorter {
                    all_sources(found.after@)
                } else {
                    Seq::<SourceView>::empty()
                };
                proof {
                    assert(all_sources(text) =~= here + rest);
                    assert(done + all_sources(text) =~= (done + here) + rest);
                    lemma_capped_absorbs(done + here, rest);
                    lemma_capped_absorbs(done + here, Seq::empty());
                }
                push_token(&mut out, heads.as_str(), found.group);
                if out.len() == MAX_EMOTES || !shorter {
                    proof {
                        lemma_capped_absorbs(views(out@), rest);
                        lemma_capped_absorbs(views(out@), Seq::empty());
                        assert(views(out@) + Seq::<SourceView>::empty() =~= views(out@));
                    }
                    return out;
                }
                remaining = found.after;
            },
        }
    }
    proof {
        assert(views(out@) + all_sources(remaining@) =~= views(out@));
        lemma_capped_absorbs(views(out@), Seq::empty());
    }
    out
}

} // verus!
