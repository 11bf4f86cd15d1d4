use vstd::prelude::*;
use crate::text::char_vecs_view;

verus! {

/// The pieces of a path text between `/` separators, empty pieces included.
pub open spec fn pieces(s: Seq<char>) -> Seq<Seq<char>>
    decreases s.len(),
{
    if s.len() == 0 {
        seq![Seq::<char>::empty()]
    } else {
        let p = pieces(s.drop_last());
        if s.last() == '/' {
            p.push(Seq::<char>::empty())
        } else {
            p.update(p.len() - 1, p.last().push(s.last()))
        }
    }
}

/// A piece that names an entry: neither empty nor the current directory.
pub open spec fn is_named_piece(p: Seq<char>) -> bool {
    p.len() > 0 && p != seq!['.']
}

/// The components of a path under Unix path semantics: the root `/` when the
/// path is absolute, a leading `.` when the path starts with one, then every
/// piece that names an entry. Repeated separators and inner `.` pieces vanish.
pub open spec fn components(s: Seq<char>) -> Seq<Seq<char>> {
    let root: Seq<Seq<char>> = if s.len() > 0 && s[0] == '/' {
        seq![seq!['/']]
    } else {
        Seq::empty()
    };
    let cur: Seq<Seq<char>> = if pieces(s)[0] == seq!['.'] {
        seq![seq!['.']]
    } else {
        Seq::empty()
    };
    root + cur + named_pieces(pieces(s))
}

/// The pieces that name an entry, in order.
pub open spec fn named_pieces(ps: Seq<Seq<char>>) -> Seq<Seq<char>> {
    ps.filter(|p: Seq<char>| is_named_piece(p))
}

/// The final component of a path, when it names an entry (it is not the root,
/// `.` or `..`).
pub open spec fn file_name(s: Seq<char>) -> Option<Seq<char>> {
    final_name(components(s))
}

/// The last of a list of components, when it names an entry.
pub open spec fn final_name(c: Seq<Seq<char>>) -> Option<Seq<char>> {
    if c.len() > 0 && c.last() != seq!['/'] && c.last() != seq!['.'] && c.last() != seq!['.', '.'] {
        Some(c.last())
    } else {
        None
    }
}

/// The index of the last `.` in a name, or -1 when it has none.
pub open spec fn last_dot(n: Seq<char>) -> int
    decreases n.len(),
{
    if n.len() == 0 {
        -1
    } else if n.last() == '.' {
        n.len() - 1
    } else {
        last_dot(n.drop_last())
    }
}

/// The extension of a file name: what follows its last `.`, provided that
/// something stands before that dot.
pub open spec fn name_extension(n: Seq<char>) -> Option<Seq<char>> {
    if n == seq!['.', '.'] || last_dot(n) <= 0 {
        None
    } else {
        Some(n.subrange(last_dot(n) + 1, n.len() as int))
    }
}

/// The extension of a path's file name.
pub open spec fn extension(s: Seq<char>) -> Option<Seq<char>> {
    match file_name(s) {
        Some(n) => name_extension(n),
        None => None,
    }
}

proof fn lemma_pieces_nonempty(s: Seq<char>)
    ensures
        pieces(s).len() >= 1,
    decreases s.len(),
{
    if s.len() > 0 {
        lemma_pieces_nonempty(s.drop_last());
    }
}

pub proof fn lemma_last_dot_range(n: Seq<char>)
    ensures
        -1 <= last_dot(n) < n.len(),
        last_dot(n) >= 0 ==> n[last_dot(n)] == '.',
        forall|k: int| last_dot(n) < k < n.len() ==> n[k] != '.',
    decreases n.len(),
{
    if n.len() > 0 && n.last() != '.' {
        lemma_last_dot_range(n.drop_last());
        assert forall|k: int| last_dot(n) < k < n.len() implies n[k] != '.' by {
            if k < n.len() - 1 {
                assert(n[k] == n.drop_last()[k]);
            }
        }
    }
}

/// Whether `v` holds the first `n` of the characters `a`, `b`.
fn is_seq(v: &Vec<char>, a: char, b: char, n: usize) -> (r: bool)
    requires
        1 <= n <= 2,
    ensures
        r == (v@ == seq![a, b].take(n as int)),
{
    if v.len() != n || v[0] != a || (n == 2 && v[1] != b) {
        assert(v@.len() != n || v@[0] != a || (n == 2 && v@[1] != b));
        assert(v@ != seq![a, b].take(n as int)) by {
            if v@ == seq![a, b].take(n as int) {
                assert(v@[0] == seq![a, b].take(n as int)[0]);
            }
        }
        false
    } else {
        assert(v@ =~= seq![a, b].take(n as int));
        true
    }
}

/// The last component of a list, when it names an entry.
pub fn last_name(c: &Vec<Vec<char>>) -> (r: Option<Vec<char>>)
    ensures
        match r {
            Some(n) => final_name(char_vecs_view(c@)) == Some(n@),
            None => final_name(char_vecs_view(c@)) is None,
        },
{
    if c.len() == 0 {
        return None;
    }
    let last = &c[c.len() - 1];
    assert(char_vecs_view(c@).last() == last@);
    assert(seq!['/', '/'].take(1) =~= seq!['/']);
    assert(seq!['.', '.'].take(1) =~= seq!['.']);
    assert(seq!['.', '.'].take(2) =~= seq!['.', '.']);
    if is_seq(last, '/', '/', 1) || is_seq(last, '.', '.', 1) || is_seq(last, '.', '.', 2) {
        None
    } else {
        Some(last.clone())
    }
}

/// The extension of a file name, as `name_extension` states it.
pub fn extension_of(n: &Vec<char>) -> (r: Option<Vec<char>>)
    ensures
        match r {
            Some(e) => name_extension(n@) == Some(e@),
            None => name_extension(n@) is None,
        },
{
    assert(seq!['.', '.'].take(2) =~= seq!['.', '.']);
    if n.len() == 2 && is_seq(n, '.', '.', 2) {
        return None;
    }
    let mut d: usize = n.len();
    assert(n@.take(n@.len() as int) =~= n@);
    while d > 0 && n[d - 1] != '.'
        invariant
            d <= n.len(),
            last_dot(n@) == last_dot(n@.take(d as int)),
        decreases d,
    {
        assert(n@.take(d as int).drop_last() =~= n@.take(d as int - 1));
        d = d - 1;
    }
    if d > 0 {
        assert(n@.take(d as int).last() == '.');
    } else {
        assert(n@.take(0) =~= Seq::<char>::empty());
    }
    assert(n@.take(n@.len() as int) =~= n@);
    assert(last_dot(n@) == d as int - 1);
    if d <= 1 {
        return None;
    }
    let mut e: Vec<char> = Vec::new();
    let mut k: usize = d;
    while k < n.len()
        invariant
            d <= k <= n.len(),
            e@ == n@.subrange(d as int, k as int),
        decreases n.len() - k,
    {
        e.push(n[k]);
        k = k + 1;
        assert(e@ =~= n@.subrange(d as int, k as int));
    }
    Some(e)
}

/// The pieces of a path text between `/` separators.
fn split_pieces(s: &Vec<char>) -> (r: Vec<Vec<char>>)
    ensures
        char_vecs_view(r@) == pieces(s@),
{
    let mut done: Vec<Vec<char>> = Vec::new();
    let mut cur: Vec<char> = Vec::new();
    let mut i: usize = 0;
    assert(s@.take(0) =~= Seq::<char>::empty());
    assert(char_vecs_view(done@).push(cur@) =~= pieces(s@.take(0)));
    while i < s.len()
        invariant
            i <= s.len(),
            char_vecs_view(done@).push(cur@) == pieces(s@.take(i as int)),
        decreases s.len() - i,
    {
        let c = s[i];
        proof {
            assert(s@.take(i as int + 1).drop_last() =~= s@.take(i as int));
            lemma_pieces_nonempty(s@.take(i as int));
        }
        if c == '/' {
            let ghost old_done = done@;
            done.push(cur);
            cur = Vec::new();
            assert(char_vecs_view(done@) =~= char_vecs_view(old_done).push(
                char_vecs_view(done@).last(),
            ));
            assert(char_vecs_view(done@).push(cur@) =~= pieces(s@.take(i as int + 1)));
        } else {
            cur.push(c);
            assert(char_vecs_view(done@).push(cur@) =~= pieces(s@.take(i as int + 1)));
        }
        i = i + 1;
    }
    done.push(cur);
    assert(s@.take(s.len() as int) =~= s@);
    assert(char_vecs_view(done@) =~= pieces(s@));
    done
}

/// The components of a path, as `components` states them.
pub fn path_components(s: &Vec<char>) -> (r: Vec<Vec<char>>)
    ensures
        char_vecs_view(r@) == components(s@),
{
    let ps = split_pieces(s);
    proof {
        lemma_pieces_nonempty(s@);
    }
    let mut r: Vec<Vec<char>> = Vec::new();
    let ghost mut head: Seq<Seq<char>> = Seq::empty();
    if s.len() > 0 && s[0] == '/' {
        let root = vec!['/'];
        assert(root@ =~= seq!['/']);
        r.push(root);
        proof {
            head = seq![seq!['/']];
        }
        assert(char_vecs_view(r@) =~= head);
    }
    let p0 = &ps[0];
    if p0.len() == 1 && p0[0] == '.' {
        let cur = vec!['.'];
        assert(cur@ =~= seq!['.']);
        let ghost before = r@;
        r.push(cur);
        proof {
            assert(p0@ =~= seq!['.']);
            head = head + seq![seq!['.']];
        }
        assert(char_vecs_view(r@) =~= char_vecs_view(before).push(seq!['.']));
    } else {
        assert(p0@ != seq!['.']) by {
            if p0@ == seq!['.'] {
                assert(p0@.len() == 1);
            }
        }
    }
    assert(char_vecs_view(r@) =~= head);
    let ghost pred = |p: Seq<char>| is_named_piece(p);
    let mut j: usize = 0;
    proof {
        reveal(Seq::filter);
        assert(char_vecs_view(ps@).take(0) =~= Seq::<Seq<char>>::empty());
        assert(head =~= head + char_vecs_view(ps@).take(0).filter(pred));
    }
    while j < ps.len()
        invariant
            j <= ps.len(),
            pred == (|p: Seq<char>| is_named_piece(p)),
            char_vecs_view(r@) == head + char_vecs_view(ps@).take(j as int).filter(pred),
        decreases ps.len() - j,
    {
        let p = &ps[j];
        proof {
            reveal(Seq::filter);
            assert(char_vecs_view(ps@).take(j as int + 1).drop_last()
                =~= char_vecs_view(ps@).take(j as int));
            assert(char_vecs_view(ps@).take(j as int + 1).last() == p@);
        }
        let named = p.len() > 0 && !(p.len() == 1 && p[0] == '.');
        assert(named == is_named_piece(p@)) by {
            if p@ == seq!['.'] {
                assert(p@.len() == 1);
            }
            if p.len() == 1 && p@[0] == '.' {
                assert(p@ =~= seq!['.']);
            }
        }
        if named {
            let ghost before = r@;
            r.push(p.clone());
            assert(char_vecs_view(r@) =~= char_vecs_view(before).push(p@));
        }
        j = j + 1;
    }
    assert(char_vecs_view(ps@).take(ps.len() as int) =~= char_vecs_view(ps@));
    r
}

} // verus!
