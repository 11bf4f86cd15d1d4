use vstd::prelude::*;
use crate::action::Action;
use crate::cache::{EpisodeKey, TvdbCache};
use crate::descriptor::{get_descriptor, name_marker, name_tags};
use crate::normalize::{clean_episode_title, clean_series, clean_series_name, clean_title};
use crate::path::{
    components, extension, extension_of, file_name, last_name, name_extension, path_components,
};
use crate::text::{
    char_vecs_eq, char_vecs_view, chars_of, list_contains, push_all, string_of, strings_view,
};

verus! {

/// What a classification decided for one file.
#[derive(Debug)]
pub struct FileIntent {
    pub action: Action,
    pub dest: String,
    pub descriptor: Option<EpisodeKey>,
}

/// The rules that are applied before a file name is read for an episode.
#[derive(Debug, Clone)]
pub struct FilterRules {
    pub blacklist_extensions: Vec<String>,
    pub whitelist_folders: Vec<String>,
    pub whitelist_filenames: Vec<String>,
    pub whitelist_tags: Vec<String>,
}

/// The decision for one file, as values.
pub struct IntentView {
    pub action: Action,
    pub dest: Seq<char>,
    pub descriptor: Option<EpisodeKey>,
}

impl FileIntent {
    pub open spec fn view(&self) -> IntentView {
        IntentView { action: self.action, dest: self.dest@, descriptor: self.descriptor }
    }
}

impl FilterRules {
    pub open spec fn blacklisted_ext(&self, e: Seq<char>) -> bool {
        strings_view(self.blacklist_extensions@).contains(e)
    }

    pub open spec fn whitelisted_folder(&self, c: Seq<char>) -> bool {
        strings_view(self.whitelist_folders@).contains(c)
    }

    pub open spec fn whitelisted_filename(&self, n: Seq<char>) -> bool {
        strings_view(self.whitelist_filenames@).contains(n)
    }

    pub open spec fn whitelisted_tag(&self, t: Seq<char>) -> bool {
        strings_view(self.whitelist_tags@).contains(t)
    }

    /// Whether some component of a path is a whitelisted folder.
    pub open spec fn protects_path(&self, path: Seq<char>) -> bool {
        exists|i: int|
            0 <= i < components(path).len() && self.whitelisted_folder(
                #[trigger] components(path)[i],
            )
    }
}

pub open spec fn digit_char(d: nat) -> char {
    if d == 0 {
        '0'
    } else if d == 1 {
        '1'
    } else if d == 2 {
        '2'
    } else if d == 3 {
        '3'
    } else if d == 4 {
        '4'
    } else if d == 5 {
        '5'
    } else if d == 6 {
        '6'
    } else if d == 7 {
        '7'
    } else if d == 8 {
        '8'
    } else {
        '9'
    }
}

/// The decimal digits of a number, without leading zeros.
pub open spec fn decimal(n: nat) -> Seq<char>
    decreases n,
{
    if n < 10 {
        seq![digit_char(n)]
    } else {
        decimal(n / 10).push(digit_char(n % 10))
    }
}

/// A number written with at least two digits.
pub open spec fn pad2(n: nat) -> Seq<char> {
    if n < 10 {
        seq!['0', digit_char(n)]
    } else {
        decimal(n)
    }
}

/// The folder of a season: `Season ` and its padded number.
pub open spec fn season_folder(season: nat) -> Seq<char> {
    seq!['S', 'e', 'a', 's', 'o', 'n', ' '] + pad2(season)
}

/// `-` and the cleaned title of an episode, when the title is known and
/// something is left of it after cleaning; otherwise nothing.
pub open spec fn title_suffix(cache: &TvdbCache, key: EpisodeKey) -> Seq<char> {
    match cache.spec_title(key) {
        Some(t) => if clean_title(t).len() > 0 {
            seq!['-'] + clean_title(t)
        } else {
            Seq::empty()
        },
        None => Seq::empty(),
    }
}

/// How a tag is written in a file name.
pub open spec fn tag_text(t: Seq<char>) -> Seq<char> {
    seq!['.', '['] + t + seq![']']
}

/// The tags written one after another.
pub open spec fn format_tags(tags: Seq<Seq<char>>) -> Seq<char>
    decreases tags.len(),
{
    if tags.len() == 0 {
        Seq::empty()
    } else {
        format_tags(tags.drop_last()) + tag_text(tags.last())
    }
}

/// The whitelisted tags, in order, as they are written in a file name.
pub open spec fn tags_segment(tags: Seq<Seq<char>>, rules: &FilterRules) -> Seq<char>
    decreases tags.len(),
{
    if tags.len() == 0 {
        Seq::empty()
    } else if rules.whitelisted_tag(tags.last()) {
        tags_segment(tags.drop_last(), rules) + tag_text(tags.last())
    } else {
        tags_segment(tags.drop_last(), rules)
    }
}

/// The canonical file name of an episode.
pub open spec fn canonical_name(
    key: EpisodeKey,
    tags: Seq<Seq<char>>,
    ext: Seq<char>,
    rules: &FilterRules,
    cache: &TvdbCache,
) -> Seq<char> {
    clean_series(cache.spec_series_name()) + seq!['-', 'S'] + pad2(key.season as nat) + seq!['E']
        + pad2(key.episode as nat) + title_suffix(cache, key) + tags_segment(tags, rules) + seq![
        '.',
    ] + ext
}

/// The canonical path of an episode: its season folder, then its name.
pub open spec fn canonical_path(
    key: EpisodeKey,
    tags: Seq<Seq<char>>,
    ext: Seq<char>,
    rules: &FilterRules,
    cache: &TvdbCache,
) -> Seq<char> {
    season_folder(key.season as nat) + seq!['/'] + canonical_name(key, tags, ext, rules, cache)
}

pub open spec fn intent_of(action: Action, dest: Seq<char>, descriptor: Option<EpisodeKey>) -> IntentView {
    IntentView { action, dest, descriptor }
}

/// The classification of a path: `Delete` for a path without a file name or
/// extension or with a blacklisted extension; `Whitelist` for a whitelisted
/// folder anywhere in the path, then for a whitelisted file name; `Ignore`
/// for a file name without a season and episode marker; otherwise `Complete`
/// when the path already has the components of the canonical path, and
/// `Rename` to the canonical path when it has not.
pub open spec fn classify(path: Seq<char>, rules: &FilterRules, cache: &TvdbCache) -> IntentView {
    match extension(path) {
        None => intent_of(Action::Delete, Seq::empty(), None),
        Some(ext) => {
            let name = file_name(path)->0;
            if rules.blacklisted_ext(ext) {
                intent_of(Action::Delete, Seq::empty(), None)
            } else if rules.protects_path(path) || rules.whitelisted_filename(name) {
                intent_of(Action::Whitelist, Seq::empty(), None)
            } else {
                match name_marker(name) {
                    None => intent_of(Action::Ignore, Seq::empty(), None),
                    Some((season, episode)) => {
                        let key = EpisodeKey { season: season as u32, episode: episode as u32 };
                        let dest = canonical_path(key, name_tags(name), ext, rules, cache);
                        if components(dest) == components(path) {
                            intent_of(Action::Complete, Seq::empty(), Some(key))
                        } else {
                            intent_of(Action::Rename, dest, Some(key))
                        }
                    },
                }
            }
        },
    }
}

fn digit_char_exec(d: u32) -> (c: char)
    requires
        d < 10,
    ensures
        c == digit_char(d as nat),
{
    if d == 0 {
        '0'
    } else if d == 1 {
        '1'
    } else if d == 2 {
        '2'
    } else if d == 3 {
        '3'
    } else if d == 4 {
        '4'
    } else if d == 5 {
        '5'
    } else if d == 6 {
        '6'
    } else if d == 7 {
        '7'
    } else if d == 8 {
        '8'
    } else {
        '9'
    }
}

fn decimal_exec(n: u32) -> (r: Vec<char>)
    ensures
        r@ == decimal(n as nat),
    decreases n,
{
    if n < 10 {
        let r = vec![digit_char_exec(n)];
        assert(r@ =~= decimal(n as nat));
        r
    } else {
        let mut r = decimal_exec(n / 10);
        r.push(digit_char_exec(n % 10));
        r
    }
}

/// A number written with at least two digits, as `pad2` states it.
pub fn pad2_exec(n: u32) -> (r: Vec<char>)
    ensures
        r@ == pad2(n as nat),
{
    if n < 10 {
        let r = vec!['0', digit_char_exec(n)];
        assert(r@ =~= pad2(n as nat));
        r
    } else {
        decimal_exec(n)
    }
}

fn push_tag(dst: &mut Vec<char>, t: &Vec<char>)
    ensures
        final(dst)@ == old(dst)@ + tag_text(t@),
{
    dst.push('.');
    dst.push('[');
    push_all(dst, t);
    dst.push(']');
    assert(final(dst)@ =~= old(dst)@ + tag_text(t@));
}

fn build_title_suffix(key: EpisodeKey, cache: &TvdbCache) -> (r: Vec<char>)
    ensures
        r@ == title_suffix(cache, key),
{
    let mut out: Vec<char> = Vec::new();
    match cache.lookup_episode_title(key) {
        Some(t) => {
            let clean = clean_episode_title(t.as_str());
            let cv = chars_of(clean.as_str());
            if cv.len() > 0 {
                out.push('-');
                push_all(&mut out, &cv);
            }
        },
        None => {},
    }
    assert(out@ =~= title_suffix(cache, key));
    out
}

fn build_tags_segment(tags: &Vec<String>, rules: &FilterRules) -> (r: Vec<char>)
    ensures
        r@ == tags_segment(strings_view(tags@), rules),
{
    let mut out: Vec<char> = Vec::new();
    let mut i: usize = 0;
    assert(strings_view(tags@).take(0) =~= Seq::<Seq<char>>::empty());
    while i < tags.len()
        invariant
            i <= tags.len(),
            out@ == tags_segment(strings_view(tags@).take(i as int), rules),
        decreases tags.len() - i,
    {
        let t = chars_of(tags[i].as_str());
        assert(strings_view(tags@).take(i as int + 1).drop_last() =~= strings_view(tags@).take(
            i as int,
        ));
        assert(strings_view(tags@).take(i as int + 1).last() == t@);
        if list_contains(&rules.whitelist_tags, &t) {
            push_tag(&mut out, &t);
        }
        i = i + 1;
    }
    assert(strings_view(tags@).take(tags.len() as int) =~= strings_view(tags@));
    out
}

/// The canonical path of an episode, as `canonical_path` states it.
fn build_canonical_path(
    key: EpisodeKey,
    tags: &Vec<String>,
    ext: &Vec<char>,
    rules: &FilterRules,
    cache: &TvdbCache,
) -> (r: Vec<char>)
    ensures
        r@ == canonical_path(key, strings_view(tags@), ext@, rules, cache),
{
    let season = pad2_exec(key.season);
    let episode = pad2_exec(key.episode);
    let series = chars_of(clean_series_name(cache.series.name.as_str()).as_str());
    let suffix = build_title_suffix(key, cache);
    let segment = build_tags_segment(tags, rules);
    let mut out: Vec<char> = vec!['S', 'e', 'a', 's', 'o', 'n', ' '];
    push_all(&mut out, &season);
    out.push('/');
    push_all(&mut out, &series);
    out.push('-');
    out.push('S');
    push_all(&mut out, &season);
    out.push('E');
    push_all(&mut out, &episode);
    push_all(&mut out, &suffix);
    push_all(&mut out, &segment);
    out.push('.');
    push_all(&mut out, ext);
    assert(out@ =~= canonical_path(key, strings_view(tags@), ext@, rules, cache));
    out
}

fn whitelisted_component(comps: &Vec<Vec<char>>, rules: &FilterRules) -> (r: bool)
    ensures
        r == exists|i: int|
            0 <= i < comps@.len() && rules.whitelisted_folder(#[trigger] char_vecs_view(comps@)[i]),
{
    let mut i: usize = 0;
    while i < comps.len()
        invariant
            i <= comps.len(),
            forall|j: int| 0 <= j < i ==> !rules.whitelisted_folder(#[trigger] char_vecs_view(comps@)[j]),
        decreases comps.len() - i,
    {
        if list_contains(&rules.whitelist_folders, &comps[i]) {
            assert(rules.whitelisted_folder(char_vecs_view(comps@)[i as int]));
            return true;
        }
        i = i + 1;
    }
    false
}

fn intent(action: Action, dest: String, descriptor: Option<EpisodeKey>) -> (r: FileIntent)
    ensures
        r.view() == intent_of(action, dest@, descriptor),
{
    FileIntent { action, dest, descriptor }
}

/// Classifies the file at `path_str` under `rules`, looking up episode
/// titles in `cache`.
pub fn get_file_intent(path_str: &str, rules: &FilterRules, cache: &TvdbCache) -> (r: FileIntent)
    ensures
        r.view() == classify(path_str@, rules, cache),
{
    let path = chars_of(path_str);
    let comps = path_components(&path);
    let name = match last_name(&comps) {
        Some(n) => n,
        None => {
            return intent(Action::Delete, String::new(), None);
        },
    };
    let ext = match extension_of(&name) {
        Some(e) => e,
        None => {
            return intent(Action::Delete, String::new(), None);
        },
    };
    if list_contains(&rules.blacklist_extensions, &ext) {
        return intent(Action::Delete, String::new(), None);
    }
    if whitelisted_component(&comps, rules) {
        return intent(Action::Whitelist, String::new(), None);
    }
    if list_contains(&rules.whitelist_filenames, &name) {
        return intent(Action::Whitelist, String::new(), None);
    }
    let descriptor = match get_descriptor(&name) {
        Some(d) => d,
        None => {
            return intent(Action::Ignore, String::new(), None);
        },
    };
    let key = EpisodeKey { season: descriptor.season, episode: descriptor.episode };
    let dest = build_canonical_path(key, &descriptor.tags, &ext, rules, cache);
    let dest_comps = path_components(&dest);
    if char_vecs_eq(&dest_comps, &comps) {
        intent(Action::Complete, String::new(), Some(key))
    } else {
        intent(Action::Rename, string_of(&dest), Some(key))
    }
}

} // verus!
