use vstd::prelude::*;
use crate::text::{chars_of, string_of};

verus! {

/// Characters that cannot stand in a generated file name.
pub open spec fn is_unsafe(c: char) -> bool {
    c == '/' || c == '\\' || c == ':' || c == '*' || c == '?' || c == '"' || c == '<' || c == '>'
        || c == '|' || c == '[' || c == ']'
}

pub open spec fn is_space(c: char) -> bool {
    c == ' ' || c == '\t' || c == '\n' || c == '\r'
}

/// Whether a character separates words: white space, and in a series name
/// also `.` and `_`.
pub open spec fn is_separator(c: char, series: bool) -> bool {
    is_space(c) || (series && (c == '.' || c == '_'))
}

/// The tidied text of `s` and whether a space is pending after it: unsafe
/// characters are dropped, each run of separators becomes one space, and no
/// space leads or trails.
pub open spec fn tidy(s: Seq<char>, series: bool) -> (Seq<char>, bool)
    decreases s.len(),
{
    if s.len() == 0 {
        (Seq::empty(), false)
    } else {
        let st = tidy(s.drop_last(), series);
        let c = s.last();
        if is_unsafe(c) {
            st
        } else if is_separator(c, series) {
            (st.0, st.0.len() > 0)
        } else if st.1 {
            (st.0.push(' ').push(c), false)
        } else {
            (st.0.push(c), false)
        }
    }
}

/// A series name made fit for a file name.
pub open spec fn clean_series(s: Seq<char>) -> Seq<char> {
    tidy(s, true).0
}

/// An episode title made fit for a file name.
pub open spec fn clean_title(s: Seq<char>) -> Seq<char> {
    tidy(s, false).0
}

fn tidy_exec(raw: &str, series: bool) -> (r: String)
    ensures
        r@ == tidy(raw@, series).0,
{
    let s = chars_of(raw);
    let mut out: Vec<char> = Vec::new();
    let mut pending = false;
    let mut i: usize = 0;
    while i < s.len()
        invariant
            i <= s.len(),
            s@ == raw@,
            (out@, pending) == tidy(s@.take(i as int), series),
        decreases s.len() - i,
    {
        let c = s[i];
        assert(s@.take(i as int + 1).drop_last() =~= s@.take(i as int));
        let unsafe_char = c == '/' || c == '\\' || c == ':' || c == '*' || c == '?' || c == '"'
            || c == '<' || c == '>' || c == '|' || c == '[' || c == ']';
        let sep = c == ' ' || c == '\t' || c == '\n' || c == '\r' || (series && (c == '.' || c
            == '_'));
        if unsafe_char {
        } else if sep {
            pending = out.len() > 0;
        } else {
            if pending {
                out.push(' ');
            }
            out.push(c);
            pending = false;
        }
        i = i + 1;
    }
    assert(s@.take(s.len() as int) =~= s@);
    string_of(&out)
}

/// Cleans a series name: drops characters unsafe in paths, turns `.`, `_`
/// and white space into single spaces, and trims.
pub fn clean_series_name(raw: &str) -> (r: String)
    ensures
        r@ == clean_series(raw@),
{
    tidy_exec(raw, true)
}

/// Cleans an episode title: drops characters unsafe in paths, collapses white
/// space into single spaces, and trims. The result is empty when nothing
/// meaningful is left.
pub fn clean_episode_title(raw: &str) -> (r: String)
    ensures
        r@ == clean_title(raw@),
{
    tidy_exec(raw, false)
}

} // verus!
