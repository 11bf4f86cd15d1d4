use episode_sorter::{
    clean_episode_title, clean_series_name, get_descriptor, get_file_intent, Action, Episode,
    EpisodeIndex, EpisodeKey, FilterRules, Series, TvdbCache,
};

fn strings(v: &[&str]) -> Vec<String> {
    v.iter().map(|s| s.to_string()).collect()
}

fn rules(bl: &[&str], folders: &[&str], names: &[&str], tags: &[&str]) -> FilterRules {
    FilterRules {
        blacklist_extensions: strings(bl),
        whitelist_folders: strings(folders),
        whitelist_filenames: strings(names),
        whitelist_tags: strings(tags),
    }
}

fn no_rules() -> FilterRules {
    rules(&[], &[], &[], &[])
}

fn cache(series: &str, titles: &[((u32, u32), Option<&str>)]) -> TvdbCache {
    let mut episodes = Vec::new();
    let mut episode_cache = Vec::new();
    for (i, ((season, episode), title)) in titles.iter().enumerate() {
        episodes.push(Episode { name: title.map(|t| t.to_string()) });
        episode_cache.push(EpisodeIndex {
            key: EpisodeKey { season: *season, episode: *episode },
            index: i,
        });
    }
    TvdbCache { series: Series { name: series.to_string() }, episodes, episode_cache }
}

fn chars(s: &str) -> Vec<char> {
    s.chars().collect()
}

#[test]
fn rename_without_title() {
    let r = get_file_intent("Show.Name.S01E02.mkv", &no_rules(), &cache("Show Name", &[]));
    assert_eq!(r.action, Action::Rename);
    assert_eq!(r.dest, "Season 01/Show Name-S01E02.mkv");
    assert_eq!(r.descriptor, Some(EpisodeKey { season: 1, episode: 2 }));
}

#[test]
fn series_name_is_cleaned() {
    let r = get_file_intent("Show.Name.S01E02.mkv", &no_rules(), &cache("  Show.Name ", &[]));
    assert_eq!(r.action, Action::Rename);
    assert_eq!(r.dest, "Season 01/Show Name-S01E02.mkv");
}

#[test]
fn canonical_path_is_complete() {
    let r = get_file_intent("Season 01/Show Name-S01E02.mkv", &no_rules(), &cache("Show Name", &[]));
    assert_eq!(r.action, Action::Complete);
    assert_eq!(r.dest, "");
    assert_eq!(r.descriptor, Some(EpisodeKey { season: 1, episode: 2 }));
}

#[test]
fn complete_compares_components() {
    let r = get_file_intent("Season 01//./Show Name-S01E02.mkv", &no_rules(), &cache("Show Name", &[]));
    assert_eq!(r.action, Action::Complete);
}

#[test]
fn name_without_marker_is_ignored() {
    let r = get_file_intent("notes.txt", &no_rules(), &cache("Show Name", &[]));
    assert_eq!(r.action, Action::Ignore);
    assert_eq!(r.dest, "");
    assert_eq!(r.descriptor, None);
}

#[test]
fn blacklisted_extension_is_deleted() {
    let rs = rules(&["tmp"], &[], &["Show.S01E02.tmp"], &[]);
    let r = get_file_intent("Show.S01E02.tmp", &rs, &cache("Show", &[]));
    assert_eq!(r.action, Action::Delete);
    assert_eq!(r.descriptor, None);
}

#[test]
fn extension_compare_is_case_sensitive() {
    let rs = rules(&["tmp"], &[], &[], &[]);
    let r = get_file_intent("Show.S01E02.TMP", &rs, &cache("Show", &[]));
    assert_eq!(r.action, Action::Rename);
    assert_eq!(r.dest, "Season 01/Show-S01E02.TMP");
}

#[test]
fn missing_extension_is_deleted() {
    assert_eq!(get_file_intent("Show S01E02", &no_rules(), &cache("Show", &[])).action, Action::Delete);
    assert_eq!(get_file_intent(".hidden", &no_rules(), &cache("Show", &[])).action, Action::Delete);
    assert_eq!(get_file_intent("", &no_rules(), &cache("Show", &[])).action, Action::Delete);
    assert_eq!(get_file_intent("dir/..", &no_rules(), &cache("Show", &[])).action, Action::Delete);
    assert_eq!(get_file_intent("/", &no_rules(), &cache("Show", &[])).action, Action::Delete);
}

#[test]
fn whitelisted_folder_protects() {
    let rs = rules(&[], &["Keep"], &[], &[]);
    let r = get_file_intent("media/Keep/Show.S01E02.mkv", &rs, &cache("Show", &[]));
    assert_eq!(r.action, Action::Whitelist);
    assert_eq!(r.descriptor, None);
}

#[test]
fn whitelisted_filename_protects() {
    let rs = rules(&[], &[], &["Show.S01E02.mkv"], &[]);
    let r = get_file_intent("media/Show.S01E02.mkv", &rs, &cache("Show", &[]));
    assert_eq!(r.action, Action::Whitelist);
}

#[test]
fn blacklist_comes_before_whitelist() {
    let rs = rules(&["mkv"], &["media"], &[], &[]);
    let r = get_file_intent("media/Show.S01E02.mkv", &rs, &cache("Show", &[]));
    assert_eq!(r.action, Action::Delete);
}

#[test]
fn padding_of_numbers() {
    let r = get_file_intent("Show.s4e7.mkv", &no_rules(), &cache("Show", &[]));
    assert_eq!(r.dest, "Season 04/Show-S04E07.mkv");
    let r = get_file_intent("Show.S123E04.mkv", &no_rules(), &cache("Show", &[]));
    assert_eq!(r.dest, "Season 123/Show-S123E04.mkv");
    assert_eq!(r.descriptor, Some(EpisodeKey { season: 123, episode: 4 }));
}

#[test]
fn title_suffix_from_cache() {
    let c = cache("Show", &[((1, 2), Some("The: Pilot?")), ((1, 3), Some("  ?? ")), ((1, 4), None)]);
    let r = get_file_intent("Show.S01E02.mkv", &no_rules(), &c);
    assert_eq!(r.dest, "Season 01/Show-S01E02-The Pilot.mkv");
    let r = get_file_intent("Show.S01E03.mkv", &no_rules(), &c);
    assert_eq!(r.dest, "Season 01/Show-S01E03.mkv");
    let r = get_file_intent("Show.S01E04.mkv", &no_rules(), &c);
    assert_eq!(r.dest, "Season 01/Show-S01E04.mkv");
}

#[test]
fn only_whitelisted_tags_are_kept_in_order() {
    let rs = rules(&[], &[], &[], &["1080p", "HEVC"]);
    let r = get_file_intent("Show.S02E10.[HEVC].[GRP].[1080p].mkv", &rs, &cache("Show", &[]));
    assert_eq!(r.action, Action::Rename);
    assert_eq!(r.dest, "Season 02/Show-S02E10.[HEVC].[1080p].mkv");
}

#[test]
fn renamed_path_is_stable() {
    let rs = rules(&[], &[], &[], &["HEVC"]);
    let c = cache("Show", &[((2, 10), Some("Title"))]);
    let r = get_file_intent("dl/show.s02e10.[HEVC].mkv", &rs, &c);
    assert_eq!(r.action, Action::Rename);
    assert_eq!(r.dest, "Season 02/Show-S02E10-Title.[HEVC].mkv");
    let again = get_file_intent(r.dest.as_str(), &rs, &c);
    assert_eq!(again.action, Action::Complete);
    assert_eq!(again.descriptor, r.descriptor);
}

#[test]
fn classification_is_deterministic() {
    let rs = rules(&[], &[], &[], &["A"]);
    let c = cache("Show", &[((3, 1), Some("One"))]);
    let a = get_file_intent("x/Show.S03E01.[A].avi", &rs, &c);
    let b = get_file_intent("x/Show.S03E01.[A].avi", &rs.clone(), &c);
    assert_eq!(a.action, b.action);
    assert_eq!(a.dest, b.dest);
    assert_eq!(a.descriptor, b.descriptor);
}

#[test]
fn descriptor_reads_marker_and_tags() {
    let d = get_descriptor(&chars("Show.S01E02.[A].[].[B[C]].mkv")).unwrap();
    assert_eq!(d.season, 1);
    assert_eq!(d.episode, 2);
    assert_eq!(d.tags, strings(&["A", "C"]));
    assert!(get_descriptor(&chars("ShowS01E02.mkv")).is_none());
    assert!(get_descriptor(&chars("Show.S12345E02.mkv")).is_none());
    assert!(get_descriptor(&chars("Show.SE02.mkv")).is_none());
    let d = get_descriptor(&chars("Bad.S1E1x.S03E04.mkv")).unwrap();
    assert_eq!((d.season, d.episode), (1, 1));
}

#[test]
fn cleaning_names() {
    assert_eq!(clean_series_name("  The_Show.Name  (2020) "), "The Show Name (2020)");
    assert_eq!(clean_series_name("A/B:C"), "ABC");
    assert_eq!(clean_episode_title(" Mr.  Robot\t"), "Mr. Robot");
    assert_eq!(clean_episode_title(" ?*<> "), "");
}

#[test]
fn action_names_and_order() {
    let all = Action::iterator();
    assert_eq!(
        all,
        vec![Action::Rename, Action::Delete, Action::Ignore, Action::Whitelist, Action::Complete]
    );
    let names: Vec<&str> = all.iter().map(|a| a.to_str()).collect();
    assert_eq!(names, vec!["Rename", "Delete", "Ignore", "Whitelist", "Complete"]);
}

#[test]
fn cache_lookup() {
    let c = cache("Show", &[((1, 1), Some("First")), ((1, 2), None)]);
    assert_eq!(c.lookup_episode_title(EpisodeKey { season: 1, episode: 1 }).map(|s| s.as_str()), Some("First"));
    assert_eq!(c.lookup_episode_title(EpisodeKey { season: 1, episode: 2 }), None);
    assert_eq!(c.lookup_episode_title(EpisodeKey { season: 9, episode: 9 }), None);
    let broken = TvdbCache {
        series: Series { name: "S".to_string() },
        episodes: Vec::new(),
        episode_cache: vec![EpisodeIndex { key: EpisodeKey { season: 1, episode: 1 }, index: 5 }],
    };
    assert_eq!(broken.lookup_episode_title(EpisodeKey { season: 1, episode: 1 }), None);
}
