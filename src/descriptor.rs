use vstd::prelude::*;
use crate::text::{char_vecs_view, strings_view, string_of};

verus! {

/// The most digits that a season or episode number may have.
pub const MAX_DIGITS: usize = 4;

/// What a file name says of the episode it holds.
#[derive(Debug)]
pub struct Descriptor {
    pub season: u32,
    pub episode: u32,
    pub tags: Vec<String>,
}

pub open spec fn is_digit(c: char) -> bool {
    '0' <= c && c <= '9'
}

pub open spec fn is_alnum(c: char) -> bool {
    is_digit(c) || ('a' <= c && c <= 'z') || ('A' <= c && c <= 'Z')
}

pub open spec fn digit_value(c: char) -> int {
    c as int - '0' as int
}

/// The length of the run of digits that starts at `i`.
pub open spec fn digit_run(s: Seq<char>, i: int) -> int
    decreases s.len() - i,
{
    if 0 <= i < s.len() && is_digit(s[i]) {
        1 + digit_run(s, i + 1)
    } else {
        0
    }
}

/// The decimal value of the `n` characters that start at `i`.
pub open spec fn digits_value(s: Seq<char>, i: int, n: nat) -> int
    decreases n,
{
    if n == 0 {
        0
    } else {
        digits_value(s, i, (n - 1) as nat) * 10 + digit_value(s[i + n - 1])
    }
}

/// The number written at `i` and the index just past it: a whole run of one
/// to `MAX_DIGITS` digits.
pub open spec fn number_at(s: Seq<char>, i: int) -> Option<(int, int)> {
    let n = digit_run(s, i);
    if 1 <= n <= MAX_DIGITS {
        Some((digits_value(s, i, n as nat), i + n))
    } else {
        None
    }
}

/// The season and episode of a marker such as `S01E02` (either letter case)
/// that starts at `i`, at the start of the name or after a character that is
/// neither a letter nor a digit.
pub open spec fn marker_at(s: Seq<char>, i: int) -> Option<(int, int)> {
    if 0 <= i < s.len() && (s[i] == 'S' || s[i] == 's') && (i == 0 || !is_alnum(s[i - 1])) {
        match number_at(s, i + 1) {
            Some((season, j)) => if j < s.len() && (s[j] == 'E' || s[j] == 'e') {
                match number_at(s, j + 1) {
                    Some((episode, _)) => Some((season, episode)),
                    None => None,
                }
            } else {
                None
            },
            None => None,
        }
    } else {
        None
    }
}

/// The first marker at or after `i`.
pub open spec fn first_marker(s: Seq<char>, i: int) -> Option<(int, int)>
    decreases s.len() - i,
{
    if i < 0 || i >= s.len() {
        None
    } else if marker_at(s, i) is Some {
        marker_at(s, i)
    } else {
        first_marker(s, i + 1)
    }
}

/// The first index at or after `i` that holds a bracket, or the length.
pub open spec fn next_bracket(s: Seq<char>, i: int) -> int
    decreases s.len() - i,
{
    if i < 0 || i >= s.len() {
        s.len() as int
    } else if s[i] == '[' || s[i] == ']' {
        i
    } else {
        next_bracket(s, i + 1)
    }
}

/// The tags from `i` on: the text of each `[...]` that holds no other
/// bracket and is not empty, from left to right.
pub open spec fn tags_from(s: Seq<char>, i: int) -> Seq<Seq<char>>
    decreases s.len() - i,
    via tags_from_decreases
{
    if i < 0 || i >= s.len() {
        Seq::empty()
    } else if s[i] == '[' && next_bracket(s, i + 1) < s.len() && s[next_bracket(s, i + 1)] == ']'
        && next_bracket(s, i + 1) > i + 1 {
        seq![s.subrange(i + 1, next_bracket(s, i + 1))] + tags_from(s, next_bracket(s, i + 1) + 1)
    } else {
        tags_from(s, i + 1)
    }
}

#[via_fn]
proof fn tags_from_decreases(s: Seq<char>, i: int) {
    if 0 <= i < s.len() {
        lemma_next_bracket(s, i + 1);
    }
}

pub proof fn lemma_next_bracket(s: Seq<char>, i: int)
    requires
        0 <= i,
    ensures
        i <= next_bracket(s, i) <= s.len() || (i > s.len() && next_bracket(s, i) == s.len()),
        next_bracket(s, i) < s.len() ==> (s[next_bracket(s, i)] == '[' || s[next_bracket(
            s,
            i,
        )] == ']'),
        forall|k: int| i <= k < next_bracket(s, i) ==> s[k] != '[' && s[k] != ']',
    decreases s.len() - i,
{
    if i < s.len() && s[i] != '[' && s[i] != ']' {
        lemma_next_bracket(s, i + 1);
    }
}

/// The season and episode that a file name gives, if any.
pub open spec fn name_marker(s: Seq<char>) -> Option<(int, int)> {
    first_marker(s, 0)
}

/// The tags of a file name.
pub open spec fn name_tags(s: Seq<char>) -> Seq<Seq<char>> {
    tags_from(s, 0)
}

pub open spec fn pow10(n: nat) -> int
    decreases n,
{
    if n == 0 {
        1
    } else {
        10 * pow10((n - 1) as nat)
    }
}

/// The number at `i`, parsed from a run of digits.
fn parse_number(s: &Vec<char>, i: usize) -> (r: Option<(u32, usize)>)
    requires
        i <= s.len(),
    ensures
        match r {
            Some((v, j)) => number_at(s@, i as int) == Some((v as int, j as int)),
            None => number_at(s@, i as int) is None,
        },
{
    let mut j: usize = i;
    while j < s.len() && '0' <= s[j] && s[j] <= '9'
        invariant
            i <= j <= s.len(),
            digit_run(s@, i as int) == (j - i) + digit_run(s@, j as int),
        decreases s.len() - j,
    {
        j = j + 1;
    }
    let n = j - i;
    if n < 1 || n > MAX_DIGITS {
        return None;
    }
    let mut v: u32 = 0;
    let mut k: usize = 0;
    assert(pow10(0) == 1);
    assert(pow10(1) == 10);
    assert(pow10(2) == 100);
    assert(pow10(3) == 1000);
    assert(pow10(4) == 10000);
    while k < n
        invariant
            n == digit_run(s@, i as int),
            1 <= n <= MAX_DIGITS,
            i + n <= s.len(),
            k <= n,
            0 <= v < pow10(k as nat),
            v as int == digits_value(s@, i as int, k as nat),
            pow10(0) == 1,
            pow10(1) == 10,
            pow10(2) == 100,
            pow10(3) == 1000,
            pow10(4) == 10000,
        decreases n - k,
    {
        proof {
            lemma_run_digits(s@, i as int, k as int);
        }
        let c = s[i + k];
        let d = (c as u32) - ('0' as u32);
        v = v * 10 + d;
        k = k + 1;
    }
    Some((v, i + n))
}

proof fn lemma_run_digits(s: Seq<char>, i: int, k: int)
    requires
        0 <= i,
        0 <= k < digit_run(s, i),
    ensures
        i + k < s.len(),
        is_digit(s[i + k]),
    decreases k,
{
    if k > 0 {
        lemma_run_digits(s, i + 1, k - 1);
    }
}

/// The marker at `i`, as `marker_at` states it.
fn marker_at_exec(s: &Vec<char>, i: usize) -> (r: Option<(u32, u32)>)
    requires
        i < s.len(),
    ensures
        match r {
            Some((a, b)) => marker_at(s@, i as int) == Some((a as int, b as int)),
            None => marker_at(s@, i as int) is None,
        },
{
    if s[i] != 'S' && s[i] != 's' {
        return None;
    }
    if i > 0 {
        let p = s[i - 1];
        if ('0' <= p && p <= '9') || ('a' <= p && p <= 'z') || ('A' <= p && p <= 'Z') {
            return None;
        }
    }
    match parse_number(s, i + 1) {
        None => None,
        Some((season, j)) => {
            if j < s.len() && (s[j] == 'E' || s[j] == 'e') {
                match parse_number(s, j + 1) {
                    None => None,
                    Some((episode, _)) => Some((season, episode)),
                }
            } else {
                None
            }
        },
    }
}

/// The tags of a name, as `name_tags` states them.
fn tags_exec(s: &Vec<char>) -> (r: Vec<Vec<char>>)
    ensures
        char_vecs_view(r@) == name_tags(s@),
{
    let mut out: Vec<Vec<char>> = Vec::new();
    let mut i: usize = 0;
    while i < s.len()
        invariant
            i <= s.len(),
            name_tags(s@) == char_vecs_view(out@) + tags_from(s@, i as int),
        decreases s.len() - i,
    {
        if s[i] == '[' {
            let mut k: usize = i + 1;
            while k < s.len() && s[k] != '[' && s[k] != ']'
                invariant
                    i < k <= s.len(),
                    next_bracket(s@, i as int + 1) == next_bracket(s@, k as int),
                decreases s.len() - k,
            {
                k = k + 1;
            }
            if k < s.len() && s[k] == ']' && k > i + 1 {
                let mut t: Vec<char> = Vec::new();
                let mut m: usize = i + 1;
                while m < k
                    invariant
                        i + 1 <= m <= k,
                        k < s.len(),
                        t@ == s@.subrange(i as int + 1, m as int),
                    decreases k - m,
                {
                    t.push(s[m]);
                    m = m + 1;
                    assert(t@ =~= s@.subrange(i as int + 1, m as int));
                }
                let ghost before = out@;
                out.push(t);
                assert(char_vecs_view(out@) =~= char_vecs_view(before).push(
                    s@.subrange(i as int + 1, k as int),
                ));
                assert(name_tags(s@) =~= char_vecs_view(out@) + tags_from(s@, k as int + 1));
                i = k + 1;
            } else {
                i = i + 1;
            }
        } else {
            i = i + 1;
        }
    }
    assert(char_vecs_view(out@) + tags_from(s@, i as int) =~= char_vecs_view(out@));
    out
}

/// The first marker of a name, as `name_marker` states it.
fn find_marker(name: &Vec<char>) -> (r: Option<(u32, u32)>)
    ensures
        match r {
            Some((a, b)) => name_marker(name@) == Some((a as int, b as int)),
            None => name_marker(name@) is None,
        },
{
    let mut i: usize = 0;
    while i < name.len()
        invariant
            i <= name.len(),
            name_marker(name@) == first_marker(name@, i as int),
        decreases name.len() - i,
    {
        match marker_at_exec(name, i) {
            Some(m) => {
                return Some(m);
            },
            None => {
                i = i + 1;
            },
        }
    }
    None
}

/// Reads the season, episode and tags of a file name; `None` when the name
/// holds no season and episode marker.
pub fn get_descriptor(name: &Vec<char>) -> (r: Option<Descriptor>)
    ensures
        r is Some <==> name_marker(name@) is Some,
        r is Some ==> {
            let d = r->0;
            &&& name_marker(name@) == Some((d.season as int, d.episode as int))
            &&& strings_view(d.tags@) == name_tags(name@)
        },
{
    let found = find_marker(name);
    match found {
        None => None,
        Some((season, episode)) => {
            let tv = tags_exec(name);
            let mut tags: Vec<String> = Vec::new();
            let mut k: usize = 0;
            while k < tv.len()
                invariant
                    k <= tv.len(),
                    strings_view(tags@) == char_vecs_view(tv@).take(k as int),
                decreases tv.len() - k,
            {
                let t = string_of(&tv[k]);
                let ghost before = tags@;
                tags.push(t);
                assert(strings_view(tags@) =~= strings_view(before).push(t@));
                k = k + 1;
                assert(char_vecs_view(tv@).take(k as int) =~= char_vecs_view(tv@).take(
                    k as int - 1,
                ).push(tv@[k as int - 1]@));
            }
            assert(char_vecs_view(tv@).take(tv.len() as int) =~= char_vecs_view(tv@));
            Some(Descriptor { season, episode, tags })
        },
    }
}

} // verus!
