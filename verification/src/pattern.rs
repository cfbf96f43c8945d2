//! Regular expressions, as the `regex` crate matches them.

use vstd::prelude::*;

verus! {

/// The first match of a pattern in a text, as the text before it, what
/// its first group captured, and the text after it.
pub struct Capture {
    pub before: String,
    pub group: String,
    pub after: String,
}

/// What the regular expression engine finds for a pattern in a text: the
/// text before the leftmost match, the capture of the first group, and the
/// text after the match; `None` where the pattern is no regular expression,
/// nothing matches, or the group took no part.
pub uninterp spec fn regex_capture(pattern: Seq<char>, text: Seq<char>) -> Option<
    (Seq<char>, Seq<char>, Seq<char>),
>;

/// `regex::Regex::new` and `regex::Regex::captures`: the leftmost match of
/// the pattern in the text. What is handed back are the parts of the text
/// before and after that match and the text of the first capture group; the
/// two outer parts are disjoint pieces of the text. The outcome depends on
/// the pattern and the text alone.
#[verifier::external_body]
pub(crate) fn capture_first(pattern: &str, text: &str) -> (out: Option<Capture>)
    ensures
        out is Some <==> regex_capture(pattern@, text@) is Some,
        out matches Some(c) ==> Some((c.before@, c.group@, c.after@)) == regex_capture(
            pattern@,
            text@,
        ) && c.before@.len() + c.after@.len() <= text@.len(),
{
    let re = regex::Regex::new(pattern).ok()?;
    let caps = re.captures(text)?;
    let whole = caps.get(0)?;
    let group = caps.get(1)?;
    Some(
        Capture {
            before: text[..whole.start()].to_string(),
            group: group.as_str().to_string(),
            after: text[whole.end()..].to_string(),
        },
    )
}

/// What the first four groups of one match captured; `None` for a group
/// that took no part, or that the pattern does not have.
pub struct Groups {
    pub first: Option<String>,
    pub second: Option<String>,
    pub third: Option<String>,
    pub fourth: Option<String>,
}

/// The groups of one match as plain values.
pub struct GroupsView {
    pub first: Option<Seq<char>>,
    pub second: Option<Seq<char>>,
    pub third: Option<Seq<char>>,
    pub fourth: Option<Seq<char>>,
}

/// A text that may be missing, as a plain value.
pub open spec fn text_view(text: Option<String>) -> Option<Seq<char>> {
    match text {
        Some(t) => Some(t@),
        None => None,
    }
}

impl View for Groups {
    type V = GroupsView;

    open spec fn view(&self) -> GroupsView {
        GroupsView {
            first: text_view(self.first),
            second: text_view(self.second),
            third: text_view(self.third),
            fourth: text_view(self.fourth),
        }
    }
}

/// What the regular expression engine finds for a pattern in a text: for
/// each of the successive matches, from left to right and without overlap,
/// the captures of the first four groups. Nothing where the pattern is no
/// regular expression.
pub uninterp spec fn regex_matches(pattern: Seq<char>, text: Seq<char>) -> Seq<GroupsView>;

/// `regex::Regex::new`, `regex::Regex::captures_iter` and
/// `regex::Captures::get` for the groups 1 to 4 of each match. The outcome
/// depends on the pattern and the text alone.
#[verifier::external_body]
pub(crate) fn capture_all(pattern: &str, text: &str) -> (out: Vec<Groups>)
    ensures
        out@.len() == regex_matches(pattern@, text@).len(),
        forall|i: int|
            0 <= i < out@.len() ==> (#[trigger] out@[i])@ == regex_matches(pattern@, text@)[i],
{
    let Ok(re) = regex::Regex::new(pattern) else {
        return Vec::new();
    };
    let group = |caps: &regex::Captures, i| caps.get(i).map(|m| m.as_str().to_string());
    re.captures_iter(text)
        .map(|c| Groups {
            first: group(&c, 1),
            second: group(&c, 2),
            third: group(&c, 3),
            fourth: group(&c, 4),
        })
        .collect()
}

} // verus!
