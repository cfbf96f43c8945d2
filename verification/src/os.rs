//! Figures about the machine and the process, and how they are read from
//! what the system says about itself.

use vstd::prelude::*;
use crate::text::is_text;

verus! {

/// Memory of the system, in bytes.
pub struct Sysmem {
    pub used: u64,
    pub total: u64,
}

/// Memory in use, of the system and of the process.
pub struct Memory {
    pub system: Sysmem,
    pub process: u64,
}

/// Seconds since the system and the process started.
pub struct Uptime {
    pub system: u64,
    pub process: u64,
}

impl Uptime {
    /// The uptimes at `now`, for a system that has run for `system`
    /// seconds and a process that started at `started`, both times in
    /// seconds since the epoch. `None` where the process started after `now`.
    pub fn since(system: u64, now: u64, started: u64) -> (uptime: Option<Uptime>)
        ensures
            uptime is Some <==> started <= now,
            uptime matches Some(u) ==> u.system == system && u.process == now - started,
    {
        if started <= now {
            Some(Uptime { system, process: now - started })
        } else {
            None
        }
    }
}

/// Whether a character is white space, by the Unicode property of that
/// name: tab to carriage return, the space, the next-line control, the
/// no-break space, the ogham space mark, the spaces from en quad to hair
/// space, line and paragraph separator, and the narrow no-break, the
/// medium mathematical and the ideographic space.
pub open spec fn is_space(c: char) -> bool {
    let u = c as u32;
    ||| 0x09 <= u <= 0x0d
    ||| u == 0x20
    ||| u == 0x85
    ||| u == 0xa0
    ||| u == 0x1680
    ||| 0x2000 <= u <= 0x200a
    ||| u == 0x2028
    ||| u == 0x2029
    ||| u == 0x202f
    ||| u == 0x205f
    ||| u == 0x3000
}

/// Computes [`is_space`].
pub fn char_is_space(c: char) -> (yes: bool)
    ensures
        yes == is_space(c),
{
    let u = c as u32;
    (0x09 <= u && u <= 0x0d) || u == 0x20 || u == 0x85 || u == 0xa0 || u == 0x1680 || (0x2000
        <= u && u <= 0x200a) || u == 0x2028 || u == 0x2029 || u == 0x202f || u == 0x205f || u
        == 0x3000
}

/// The first position from `from` on, before `to`, whose character is of
/// a kind, or `to` where there is none.
pub open spec fn first_where(text: Seq<char>, kind: spec_fn(char) -> bool, from: int, to: int) -> int
    decreases to - from,
{
    if from >= to {
        to
    } else if kind(text[from]) {
        from
    } else {
        first_where(text, kind, from + 1, to)
    }
}

/// The end of what is left between `from` and `to` when the characters of
/// a kind are taken off its end.
pub open spec fn last_where(text: Seq<char>, kind: spec_fn(char) -> bool, from: int, to: int) -> int
    decreases to - from,
{
    if to <= from {
        from
    } else if kind(text[to - 1]) {
        to
    } else {
        last_where(text, kind, from, to - 1)
    }
}

/// The value of a line of the form `KEY=value`: what stands between the
/// first `=` and the next, without the quotation marks around it. Nothing
/// for a line without `=`.
pub open spec fn field_value(line: Seq<char>) -> Seq<char> {
    let eq = first_where(line, |c: char| c == '=', 0, line.len() as int);
    if eq >= line.len() {
        Seq::empty()
    } else {
        let end = first_where(line, |c: char| c == '=', eq + 1, line.len() as int);
        let start = first_where(line, |c: char| c != '"', eq + 1, end);
        let stop = last_where(line, |c: char| c != '"', start, end);
        line.subrange(start, stop)
    }
}

/// The first position from `from` on that holds `c`.
fn find_char(line: &str, c: char, from: usize) -> (at: usize)
    requires
        from <= line@.len(),
    ensures
        at == first_where(line@, |x: char| x == c, from as int, line@.len() as int),
        from <= at <= line@.len(),
{
    let count = line.unicode_len();
    let mut i = from;
    while i < count
        invariant
            count == line@.len(),
            from <= i <= count,
            first_where(line@, |x: char| x == c, from as int, count as int) == first_where(
                line@,
                |x: char| x == c,
                i as int,
                count as int,
            ),
        decreases count - i,
    {
        if line.get_char(i) == c {
            return i;
        }
        i = i + 1;
    }
    i
}

/// The first position from `from` on, before `to`, that does not hold `c`.
fn skip_char(line: &str, c: char, from: usize, to: usize) -> (at: usize)
    requires
        from <= to <= line@.len(),
    ensures
        at == first_where(line@, |x: char| x != c, from as int, to as int),
        from <= at <= to,
{
    let mut i = from;
    while i < to
        invariant
            from <= i <= to,
            to <= line@.len(),
            first_where(line@, |x: char| x != c, from as int, to as int) == first_where(
                line@,
                |x: char| x != c,
                i as int,
                to as int,
            ),
        decreases to - i,
    {
        if line.get_char(i) != c {
            return i;
        }
        i = i + 1;
    }
    i
}

/// The end of what is left between `from` and `to` without `c` at its end.
fn skip_char_back(line: &str, c: char, from: usize, to: usize) -> (at: usize)
    requires
        from <= to <= line@.len(),
    ensures
        at == last_where(line@, |x: char| x != c, from as int, to as int),
        from <= at <= to,
{
    let mut i = to;
    while i > from
        invariant
            from <= i <= to,
            to <= line@.len(),
            last_where(line@, |x: char| x != c, from as int, to as int) == last_where(
                line@,
                |x: char| x != c,
                from as int,
                i as int,
            ),
        decreases i - from,
    {
        if line.get_char(i - 1) != c {
            return i;
        }
        i = i - 1;
    }
    i
}

/// Reads the value of a line of the form `KEY=value`.
pub fn read_field(line: &str) -> (value: String)
    ensures
        value@ == field_value(line@),
{
    let count = line.unicode_len();
    let eq = find_char(line, '=', 0);
    if eq >= count {
        return String::new();
    }
    let end = find_char(line, '=', eq + 1);
    let start = skip_char(line, '"', eq + 1, end);
    let stop = skip_char_back(line, '"', start, end);
    String::from_str(line.substring_char(start, stop))
}

/// Whether a line begins with a text.
pub fn has_prefix(line: &str, prefix: &str) -> (yes: bool)
    ensures
        yes == prefix@.is_prefix_of(line@),
{
    let n = prefix.unicode_len();
    if line.unicode_len() < n {
        return false;
    }
    let head = String::from_str(line.substring_char(0, n));
    is_text(&head, prefix)
}

/// Name and version of the system after the first `count` lines of its
/// release file were read: a line `NAME=` sets the name, a line `VERSION=`
/// or `VERSION_ID=` the version, the latest wins.
pub open spec fn release_fields(lines: Seq<String>, count: int) -> (Seq<char>, Seq<char>)
    decreases count,
{
    if count <= 0 {
        ("BoringOS"@, "v0.0"@)
    } else {
        let (name, version) = release_fields(lines, count - 1);
        let line = lines[count - 1]@;
        if "NAME="@.is_prefix_of(line) {
            (field_value(line), version)
        } else if "VERSION="@.is_prefix_of(line) || "VERSION_ID="@.is_prefix_of(line) {
            (name, field_value(line))
        } else {
            (name, version)
        }
    }
}

/// Name and version of the system, from the lines of its release file:
/// `AlmaLinux 10.0`, say. What the file does not tell stays at a default.
pub fn os_info(lines: &Vec<String>) -> (text: String)
    ensures
        text@ == release_fields(lines@, lines@.len() as int).0 + " "@ + release_fields(
            lines@,
            lines@.len() as int,
        ).1,
{
    let mut name = String::from_str("BoringOS");
    let mut version = String::from_str("v0.0");
    let mut i: usize = 0;
    while i < lines.len()
        invariant
            i <= lines@.len(),
            (name@, version@) == release_fields(lines@, i as int),
        decreases lines@.len() - i,
    {
        let line = lines[i].as_str();
        if has_prefix(line, "NAME=") {
            name = read_field(line);
        } else if has_prefix(line, "VERSION=") || has_prefix(line, "VERSION_ID=") {
            version = read_field(line);
        }
        i = i + 1;
    }
    let mut text = name;
    text.append(" ");
    text.append(version.as_str());
    text
}

/// Where word `n` of a text lies, counting from 0 and from position
/// `from`: words are what white space separates.
pub open spec fn word_at(text: Seq<char>, n: nat, from: int) -> Option<(int, int)>
    decreases n,
{
    let start = first_where(text, |c: char| !is_space(c), from, text.len() as int);
    if start >= text.len() {
        None
    } else {
        let end = first_where(text, |c: char| is_space(c), start, text.len() as int);
        if n == 0 {
            Some((start, end))
        } else {
            word_at(text, (n - 1) as nat, end)
        }
    }
}

/// The version of the kernel in the first line of what the kernel says of
/// itself: the third word of the line, or a notice where there is none.
pub open spec fn kernel_text(line: Seq<char>) -> Seq<char> {
    match word_at(line, 2, 0) {
        Some((start, end)) => line.subrange(start, end),
        None => "Unsupported kernel"@,
    }
}

/// The first position from `from` on whose character is white space, or
/// is not, as asked.
fn find_space(line: &str, space: bool, from: usize) -> (at: usize)
    requires
        from <= line@.len(),
    ensures
        space ==> at == first_where(
            line@,
            |c: char| is_space(c),
            from as int,
            line@.len() as int,
        ),
        !space ==> at == first_where(
            line@,
            |c: char| !is_space(c),
            from as int,
            line@.len() as int,
        ),
        from <= at <= line@.len(),
{
    let count = line.unicode_len();
    let mut i = from;
    while i < count
        invariant
            count == line@.len(),
            from <= i <= count,
            space ==> first_where(line@, |c: char| is_space(c), from as int, count as int)
                == first_where(line@, |c: char| is_space(c), i as int, count as int),
            !space ==> first_where(line@, |c: char| !is_space(c), from as int, count as int)
                == first_where(line@, |c: char| !is_space(c), i as int, count as int),
        decreases count - i,
    {
        if char_is_space(line.get_char(i)) == space {
            return i;
        }
        i = i + 1;
    }
    i
}

/// Reads the version of the kernel from the first line of what the
/// kernel says of itself, such as `6.8.0-1020-raspi`.
pub fn kernel_info(line: &str) -> (text: String)
    ensures
        text@ == kernel_text(line@),
{
    let count = line.unicode_len();
    proof {
        reveal_with_fuel(word_at, 3);
    }
    let first = find_space(line, false, 0);
    if first >= count {
        return String::from_str("Unsupported kernel");
    }
    let second = find_space(line, false, find_space(line, true, first));
    if second >= count {
        return String::from_str("Unsupported kernel");
    }
    let third = find_space(line, false, find_space(line, true, second));
    if third >= count {
        return String::from_str("Unsupported kernel");
    }
    let end = find_space(line, true, third);
    String::from_str(line.substring_char(third, end))
}

} // verus!
