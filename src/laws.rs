use vstd::prelude::*;
use crate::action::Action;
use crate::cache::{EpisodeKey, TvdbCache};
use crate::descriptor::{name_marker, name_tags, next_bracket, tags_from};
use crate::intent::{
    canonical_name, canonical_path, classify, decimal, digit_char, format_tags, pad2,
    season_folder, tag_text, tags_segment, title_suffix, FilterRules,
};
use crate::normalize::tidy;
use crate::path::{
    components, extension, file_name, is_named_piece, last_dot, name_extension, named_pieces,
    pieces,
};
use crate::text::strings_view;

verus! {

/// A path whose extension is blacklisted is deleted, whatever else the rules
/// hold.
pub proof fn blacklisted_extension_is_deleted(path: Seq<char>, rules: &FilterRules, cache: &TvdbCache)
    requires
        extension(path) is Some,
        rules.blacklisted_ext(extension(path)->0),
    ensures
        classify(path, rules, cache).action == Action::Delete,
{
}

/// A path with a whitelisted folder among its components, or with a
/// whitelisted file name, is whitelisted, whatever its name would give;
/// only a missing or blacklisted extension comes first.
pub proof fn whitelist_takes_priority(path: Seq<char>, rules: &FilterRules, cache: &TvdbCache)
    requires
        extension(path) is Some,
        !rules.blacklisted_ext(extension(path)->0),
        rules.protects_path(path) || rules.whitelisted_filename(file_name(path)->0),
    ensures
        classify(path, rules, cache).action == Action::Whitelist,
{
}

/// Only whitelisted tags are written into a file name, each in the order in
/// which the name gave it.
pub proof fn tags_segment_keeps_whitelisted_in_order(tags: Seq<Seq<char>>, rules: &FilterRules)
    ensures
        tags_segment(tags, rules) == format_tags(tags.filter(|t: Seq<char>| rules.whitelisted_tag(t))),
    decreases tags.len(),
{
    reveal(Seq::filter);
    if tags.len() > 0 {
        tags_segment_keeps_whitelisted_in_order(tags.drop_last(), rules);
        let f = tags.drop_last().filter(|t: Seq<char>| rules.whitelisted_tag(t));
        if rules.whitelisted_tag(tags.last()) {
            assert(f.push(tags.last()).drop_last() =~= f);
        }
    }
}

proof fn tags_segment_same_rules(tags: Seq<Seq<char>>, r1: &FilterRules, r2: &FilterRules)
    requires
        strings_view(r1.whitelist_tags@) == strings_view(r2.whitelist_tags@),
    ensures
        tags_segment(tags, r1) == tags_segment(tags, r2),
    decreases tags.len(),
{
    if tags.len() > 0 {
        tags_segment_same_rules(tags.drop_last(), r1, r2);
    }
}

/// Classification depends on the values of its inputs alone: equal paths,
/// rules that hold the same strings and caches that know the same series
/// name and titles give the same decision.
pub proof fn classify_is_deterministic(
    p1: Seq<char>,
    p2: Seq<char>,
    r1: &FilterRules,
    r2: &FilterRules,
    c1: &TvdbCache,
    c2: &TvdbCache,
)
    requires
        p1 == p2,
        strings_view(r1.blacklist_extensions@) == strings_view(r2.blacklist_extensions@),
        strings_view(r1.whitelist_folders@) == strings_view(r2.whitelist_folders@),
        strings_view(r1.whitelist_filenames@) == strings_view(r2.whitelist_filenames@),
        strings_view(r1.whitelist_tags@) == strings_view(r2.whitelist_tags@),
        c1.spec_series_name() == c2.spec_series_name(),
        forall|k: EpisodeKey| #[trigger] c1.spec_title(k) == c2.spec_title(k),
    ensures
        classify(p1, r1, c1) == classify(p2, r2, c2),
{
    let path = p1;
    if extension(path) is Some {
        let name = file_name(path)->0;
        tags_segment_same_rules(crate::descriptor::name_tags(name), r1, r2);
        assert(r1.protects_path(path) == r2.protects_path(path));
    }
}

spec fn lacks(s: Seq<char>, c: char) -> bool {
    forall|i: int| 0 <= i < s.len() ==> s[i] != c
}

proof fn lemma_lacks_concat(a: Seq<char>, b: Seq<char>, c: char)
    requires
        lacks(a, c),
        lacks(b, c),
    ensures
        lacks(a + b, c),
{
    assert forall|i: int| 0 <= i < (a + b).len() implies (a + b)[i] != c by {
        if i >= a.len() {
            assert((a + b)[i] == b[i - a.len()]);
        }
    }
}

proof fn lemma_pieces_lack_slash(s: Seq<char>)
    ensures
        pieces(s).len() >= 1,
        forall|i: int| 0 <= i < pieces(s).len() ==> lacks(#[trigger] pieces(s)[i], '/'),
    decreases s.len(),
{
    if s.len() > 0 {
        lemma_pieces_lack_slash(s.drop_last());
        let p = pieces(s.drop_last());
        if s.last() != '/' {
            let q = p.last().push(s.last());
            assert(lacks(p[p.len() - 1], '/'));
            assert(lacks(q, '/')) by {
                assert forall|i: int| 0 <= i < q.len() implies q[i] != '/' by {
                    if i < q.len() - 1 {
                        assert(q[i] == p.last()[i]);
                    }
                }
            }
        }
    }
}

proof fn lemma_filter_lacks(ps: Seq<Seq<char>>)
    requires
        forall|i: int| 0 <= i < ps.len() ==> lacks(#[trigger] ps[i], '/'),
    ensures
        forall|i: int|
            0 <= i < named_pieces(ps).len() ==> lacks(#[trigger] named_pieces(ps)[i], '/'),
    decreases ps.len(),
{
    reveal(Seq::filter);
    if ps.len() > 0 {
        lemma_filter_lacks(ps.drop_last());
        assert(lacks(ps[ps.len() - 1], '/'));
        let f0 = named_pieces(ps.drop_last());
        assert(named_pieces(ps) == if is_named_piece(ps.last()) {
            f0.push(ps.last())
        } else {
            f0
        });
        assert forall|i: int| 0 <= i < named_pieces(ps).len() implies lacks(
            #[trigger] named_pieces(ps)[i],
            '/',
        ) by {
            if i < f0.len() {
                assert(named_pieces(ps)[i] == f0[i]);
            }
        }
    }
}

/// Every component but the root is free of `/`.
proof fn lemma_components_shape(s: Seq<char>)
    ensures
        forall|i: int|
            0 <= i < components(s).len() ==> #[trigger] components(s)[i] == seq!['/'] || lacks(
                components(s)[i],
                '/',
            ),
{
    lemma_pieces_lack_slash(s);
    lemma_filter_lacks(pieces(s));
    let root: Seq<Seq<char>> = if s.len() > 0 && s[0] == '/' {
        seq![seq!['/']]
    } else {
        Seq::empty()
    };
    let cur: Seq<Seq<char>> = if pieces(s)[0] == seq!['.'] {
        seq![seq!['.']]
    } else {
        Seq::empty()
    };
    let f = named_pieces(pieces(s));
    assert(lacks(seq!['.'], '/'));
    assert forall|i: int| 0 <= i < components(s).len() implies #[trigger] components(s)[i]
        == seq!['/'] || lacks(components(s)[i], '/') by {
        assert(components(s) == root + cur + f);
        if i >= root.len() + cur.len() {
            assert(components(s)[i] == f[i - root.len() - cur.len()]);
        } else if i >= root.len() {
            assert(components(s)[i] == cur[i - root.len()]);
        }
    }
}

proof fn lemma_tidy_lacks_slash(s: Seq<char>, series: bool)
    ensures
        lacks(tidy(s, series).0, '/'),
    decreases s.len(),
{
    if s.len() > 0 {
        lemma_tidy_lacks_slash(s.drop_last(), series);
        let o = tidy(s.drop_last(), series).0;
        if !crate::normalize::is_unsafe(s.last()) {
        lemma_lacks_concat(o, seq![' '], '/');
        lemma_lacks_concat(o, seq![s.last()], '/');
        lemma_lacks_concat(o + seq![' '], seq![s.last()], '/');
        assert(o.push(' ') =~= o + seq![' ']);
        assert(o.push(' ').push(s.last()) =~= o + seq![' '] + seq![s.last()]);
        assert(o.push(s.last()) =~= o + seq![s.last()]);
        }
    }
}

proof fn lemma_decimal_lacks(n: nat, c: char)
    requires
        c == '/' || c == '.',
    ensures
        lacks(decimal(n), c),
        lacks(pad2(n), c),
    decreases n,
{
    if n >= 10 {
        lemma_decimal_lacks(n / 10, c);
        assert(decimal(n) =~= decimal(n / 10) + seq![digit_char(n % 10)]);
        lemma_lacks_concat(decimal(n / 10), seq![digit_char(n % 10)], c);
    }
}

proof fn lemma_tags_lack_slash(s: Seq<char>, i: int)
    requires
        lacks(s, '/'),
        0 <= i,
    ensures
        forall|k: int| 0 <= k < tags_from(s, i).len() ==> lacks(#[trigger] tags_from(s, i)[k], '/'),
    decreases s.len() - i,
{
    if i < s.len() {
        let j = next_bracket(s, i + 1);
        crate::descriptor::lemma_next_bracket(s, i + 1);
        if s[i] == '[' && j < s.len() && s[j] == ']' && j > i + 1 {
            lemma_tags_lack_slash(s, j + 1);
            let t = s.subrange(i + 1, j);
            assert(lacks(t, '/')) by {
                assert forall|k: int| 0 <= k < t.len() implies t[k] != '/' by {
                    assert(t[k] == s[i + 1 + k]);
                }
            }
            let rest = tags_from(s, j + 1);
            assert(tags_from(s, i) == seq![t] + rest);
            assert forall|k: int| 0 <= k < tags_from(s, i).len() implies lacks(
                #[trigger] tags_from(s, i)[k],
                '/',
            ) by {
                if k > 0 {
                    assert(tags_from(s, i)[k] == rest[k - 1]);
                }
            }
        } else {
            lemma_tags_lack_slash(s, i + 1);
            assert(tags_from(s, i) == tags_from(s, i + 1));
        }
    }
}

proof fn lemma_tags_segment_lacks(tags: Seq<Seq<char>>, rules: &FilterRules)
    requires
        forall|k: int| 0 <= k < tags.len() ==> lacks(#[trigger] tags[k], '/'),
    ensures
        lacks(tags_segment(tags, rules), '/'),
    decreases tags.len(),
{
    if tags.len() > 0 {
        lemma_tags_segment_lacks(tags.drop_last(), rules);
        let t = tags.last();
        assert(lacks(tags[tags.len() - 1], '/'));
        lemma_lacks_concat(seq!['.', '['], t, '/');
        lemma_lacks_concat(seq!['.', '['] + t, seq![']'], '/');
        lemma_lacks_concat(tags_segment(tags.drop_last(), rules), tag_text(t), '/');
    }
}

proof fn lemma_pieces_plain(a: Seq<char>)
    requires
        lacks(a, '/'),
    ensures
        pieces(a) == seq![a],
    decreases a.len(),
{
    if a.len() == 0 {
        assert(a =~= Seq::<char>::empty());
    } else {
        lemma_pieces_plain(a.drop_last());
        assert(a[a.len() - 1] != '/');
        assert(a.drop_last().push(a.last()) =~= a);
        assert(pieces(a) =~= seq![a]);
    }
}

proof fn lemma_pieces_extend(x: Seq<char>, b: Seq<char>)
    requires
        lacks(b, '/'),
    ensures
        pieces(x + b) == pieces(x).update(pieces(x).len() - 1, pieces(x).last() + b),
    decreases b.len(),
{
    lemma_pieces_lack_slash(x);
    if b.len() == 0 {
        assert(x + b =~= x);
        assert(pieces(x).last() + b =~= pieces(x).last());
        assert(pieces(x).update(pieces(x).len() - 1, pieces(x).last() + b) =~= pieces(x));
    } else {
        lemma_pieces_extend(x, b.drop_last());
        assert((x + b).drop_last() =~= x + b.drop_last());
        assert((x + b).last() == b.last());
        assert(b[b.len() - 1] != '/');
        let big = pieces(x + b.drop_last());
        assert(big.len() == pieces(x).len());
        assert(big.last() == pieces(x).last() + b.drop_last());
        assert((pieces(x).last() + b.drop_last()).push(b.last()) =~= pieces(x).last() + b);
        assert(pieces(x + b) =~= pieces(x).update(pieces(x).len() - 1, pieces(x).last() + b));
    }
}

/// A folder and a name, both free of `/`, joined by `/` have those two as
/// their components.
proof fn lemma_join_components(folder: Seq<char>, name: Seq<char>)
    requires
        lacks(folder, '/'),
        lacks(name, '/'),
        folder.len() > 0,
        folder[0] != '/',
        is_named_piece(folder),
        is_named_piece(name),
    ensures
        components(folder + seq!['/'] + name) == seq![folder, name],
{
    let d = folder + seq!['/'] + name;
    lemma_pieces_plain(folder);
    let fs = folder + seq!['/'];
    assert(fs.drop_last() =~= folder);
    assert(pieces(fs) =~= seq![folder, Seq::<char>::empty()]);
    lemma_pieces_extend(fs, name);
    assert(Seq::<char>::empty() + name =~= name);
    assert(pieces(d) =~= seq![folder, name]);
    reveal(Seq::filter);
    let ps = seq![folder, name];
    assert(ps.drop_last() =~= seq![folder]);
    assert(seq![folder].drop_last() =~= Seq::<Seq<char>>::empty());
    let f = named_pieces(ps);
    assert(seq![folder].filter(|p: Seq<char>| is_named_piece(p)) =~= seq![folder]);
    assert(f =~= seq![folder, name]);
    assert(d[0] == folder[0]);
    assert(components(d) =~= seq![folder, name]);
}

proof fn lemma_last_dot_before(x: Seq<char>, e: Seq<char>)
    requires
        lacks(e, '.'),
    ensures
        last_dot(x + seq!['.'] + e) == x.len(),
    decreases e.len(),
{
    let n = x + seq!['.'] + e;
    if e.len() == 0 {
        assert(n =~= x.push('.'));
    } else {
        lemma_last_dot_before(x, e.drop_last());
        assert(n.drop_last() =~= x + seq!['.'] + e.drop_last());
        assert(n.last() == e[e.len() - 1]);
    }
}

proof fn lemma_extension_parts(name: Seq<char>)
    requires
        name_extension(name) is Some,
    ensures
        lacks(name_extension(name)->0, '.'),
        lacks(name, '/') ==> lacks(name_extension(name)->0, '/'),
{
    crate::path::lemma_last_dot_range(name);
    let d = last_dot(name);
    let e = name.subrange(d + 1, name.len() as int);
    assert forall|i: int| 0 <= i < e.len() implies e[i] != '.' by {
        assert(e[i] == name[d + 1 + i]);
    }
    if lacks(name, '/') {
        assert forall|i: int| 0 <= i < e.len() implies e[i] != '/' by {
            assert(e[i] == name[d + 1 + i]);
        }
    }
}

/// Applying a rename and classifying the destination again gives `Complete`,
/// with the same episode, provided that the destination's file name reads as
/// the same episode with the same tags and that the rules whitelist neither
/// the new season folder nor the new file name.
pub proof fn rename_then_classify_is_complete(path: Seq<char>, rules: &FilterRules, cache: &TvdbCache)
    requires
        classify(path, rules, cache).action == Action::Rename,
        name_marker(file_name(classify(path, rules, cache).dest)->0) == name_marker(
            file_name(path)->0,
        ),
        name_tags(file_name(classify(path, rules, cache).dest)->0) == name_tags(
            file_name(path)->0,
        ),
        !rules.protects_path(classify(path, rules, cache).dest),
        !rules.whitelisted_filename(file_name(classify(path, rules, cache).dest)->0),
    ensures
        classify(classify(path, rules, cache).dest, rules, cache).action == Action::Complete,
        classify(classify(path, rules, cache).dest, rules, cache).descriptor == classify(
            path,
            rules,
            cache,
        ).descriptor,
{
    let name = file_name(path)->0;
    let ext = extension(path)->0;
    let (season, episode) = name_marker(name)->0;
    let key = EpisodeKey { season: season as u32, episode: episode as u32 };
    let tags = name_tags(name);
    let folder = season_folder(key.season as nat);
    let cname = canonical_name(key, tags, ext, rules, cache);
    let d = canonical_path(key, tags, ext, rules, cache);
    assert(d == classify(path, rules, cache).dest);
    assert(d == folder + seq!['/'] + cname);
    // the file name of the path is free of `/`, and so are its tags and extension
    lemma_components_shape(path);
    let comps = components(path);
    assert(comps.last() == name);
    assert(comps[comps.len() - 1] == seq!['/'] || lacks(comps[comps.len() - 1], '/'));
    assert(lacks(name, '/'));
    lemma_extension_parts(name);
    lemma_tags_lack_slash(name, 0);
    // so is every part of the canonical name
    lemma_decimal_lacks(key.season as nat, '/');
    lemma_decimal_lacks(key.episode as nat, '/');
    lemma_tidy_lacks_slash(cache.spec_series_name(), true);
    lemma_tidy_lacks_slash(cache.spec_title(key)->0, false);
    lemma_lacks_concat(seq!['-'], tidy(cache.spec_title(key)->0, false).0, '/');
    assert(lacks(title_suffix(cache, key), '/'));
    lemma_tags_segment_lacks(tags, rules);
    let head = crate::normalize::clean_series(cache.spec_series_name()) + seq!['-', 'S'] + pad2(
        key.season as nat,
    ) + seq!['E'] + pad2(key.episode as nat) + title_suffix(cache, key) + tags_segment(
        tags,
        rules,
    );
    lemma_lacks_concat(crate::normalize::clean_series(cache.spec_series_name()), seq!['-', 'S'], '/');
    lemma_lacks_concat(
        crate::normalize::clean_series(cache.spec_series_name()) + seq!['-', 'S'],
        pad2(key.season as nat),
        '/',
    );
    lemma_lacks_concat(
        crate::normalize::clean_series(cache.spec_series_name()) + seq!['-', 'S'] + pad2(
            key.season as nat,
        ),
        seq!['E'],
        '/',
    );
    lemma_lacks_concat(
        crate::normalize::clean_series(cache.spec_series_name()) + seq!['-', 'S'] + pad2(
            key.season as nat,
        ) + seq!['E'],
        pad2(key.episode as nat),
        '/',
    );
    lemma_lacks_concat(
        crate::normalize::clean_series(cache.spec_series_name()) + seq!['-', 'S'] + pad2(
            key.season as nat,
        ) + seq!['E'] + pad2(key.episode as nat),
        title_suffix(cache, key),
        '/',
    );
    lemma_lacks_concat(
        crate::normalize::clean_series(cache.spec_series_name()) + seq!['-', 'S'] + pad2(
            key.season as nat,
        ) + seq!['E'] + pad2(key.episode as nat) + title_suffix(cache, key),
        tags_segment(tags, rules),
        '/',
    );
    lemma_lacks_concat(head, seq!['.'], '/');
    lemma_lacks_concat(head + seq!['.'], ext, '/');
    assert(cname == head + seq!['.'] + ext);
    assert(lacks(cname, '/'));
    lemma_lacks_concat(seq!['S', 'e', 'a', 's', 'o', 'n', ' '], pad2(key.season as nat), '/');
    assert(lacks(folder, '/'));
    // the destination has two components: the folder and the canonical name
    assert(folder.len() > 1);
    assert(folder[0] == 'S');
    assert(folder != seq!['.']);
    assert(cname.len() > 2);
    assert(cname != seq!['.']);
    assert(cname != seq!['.', '.']);
    assert(cname != seq!['/']);
    lemma_join_components(folder, cname);
    assert(components(d) == seq![folder, cname]);
    assert(seq![folder, cname].last() == cname);
    assert(file_name(d) == Some(cname));
    // the canonical name keeps the extension
    lemma_last_dot_before(head, ext);
    assert(head.len() > 0);
    assert(cname.subrange(head.len() as int + 1, cname.len() as int) =~= ext);
    assert(name_extension(cname) == Some(ext));
    assert(extension(d) == Some(ext));
    // and reads as the same episode, so it is its own canonical path
    assert(canonical_path(key, name_tags(cname), ext, rules, cache) == d);
}

} // verus!
