use kat::path::{anchor_pattern, join_path, relative_path};
use kat::profile::{profile_name_for_file, resolve_patterns, Config, Kat};
use kat::select::{compile_matchers, KatError, WalkItem};

fn strings(items: &[&str]) -> Vec<String> {
    items.iter().map(|s| s.to_string()).collect()
}

fn files(paths: &[&str]) -> Vec<WalkItem> {
    paths.iter().map(|p| WalkItem::File(p.to_string())).collect()
}

fn select(base: &str, inc: &[&str], exc: &[&str], walk: &[WalkItem]) -> Result<Vec<String>, KatError> {
    let kat = Kat::new(Vec::new());
    let walk: Vec<WalkItem> = walk
        .iter()
        .map(|w| match w {
            WalkItem::File(p) => WalkItem::File(p.clone()),
            WalkItem::Other => WalkItem::Other,
            WalkItem::Unreadable => WalkItem::Unreadable,
        })
        .collect();
    kat.find_and_filter_files(base, &strings(inc), &strings(exc), &walk)
}

fn sorted(mut v: Vec<String>) -> Vec<String> {
    v.sort();
    v
}

#[test]
fn exclusion_beats_inclusion_in_a_small_tree() {
    let walk = vec![
        WalkItem::Other,
        WalkItem::File("/b/a.rs".to_string()),
        WalkItem::Other,
        WalkItem::File("/b/sub/b.rs".to_string()),
        WalkItem::File("/b/sub/c.toml".to_string()),
    ];
    let r = select("/b", &["**/*.rs"], &["sub/**"], &walk).unwrap();
    assert_eq!(r, vec!["/b/a.rs".to_string()]);
}

#[test]
fn single_file_base_is_matched_by_its_name() {
    let walk = files(&["/home/u/notes.txt"]);
    let r = select("/home/u/notes.txt", &["*.txt"], &[], &walk).unwrap();
    assert_eq!(r, vec!["/home/u/notes.txt".to_string()]);
}

#[test]
fn no_match_gives_empty_result() {
    let walk = files(&["/b/a.rs", "/b/sub/b.rs", "/b/Cargo.toml"]);
    let r = select("/b", &["**/*.md"], &[], &walk).unwrap();
    assert!(r.is_empty());
}

#[test]
fn unreadable_entry_is_skipped() {
    let walk = vec![
        WalkItem::Other,
        WalkItem::File("/b/a.rs".to_string()),
        WalkItem::Unreadable,
        WalkItem::File("/b/z/c.rs".to_string()),
    ];
    let m = compile_matchers("/b", &strings(&["**/*.rs"]), &Vec::new()).unwrap();
    let s = m.select(&walk);
    assert_eq!(s.files, strings(&["/b/a.rs", "/b/z/c.rs"]));
    assert_eq!(s.skipped, 1);
}

#[test]
fn empty_inclusions_select_nothing() {
    let walk = files(&["/b/a.rs", "/b/b.md"]);
    assert!(select("/b", &[], &[], &walk).unwrap().is_empty());
    assert!(select("/b", &[], &["*.md"], &walk).unwrap().is_empty());
}

#[test]
fn file_matched_twice_is_listed_once() {
    let walk = files(&["/b/a.rs", "/b/x/y.rs", "/b/a.rs"]);
    let r = select("/b", &["**/*.rs", "a.*", "*.rs"], &[], &walk).unwrap();
    assert_eq!(r, strings(&["/b/a.rs", "/b/x/y.rs"]));
}

#[test]
fn absolute_pattern_under_base_acts_as_relative() {
    let walk = files(&["/b/sub/x.ext", "/b/sub/y.txt", "/b/x.ext", "/b/sub/deep/z.ext"]);
    let rel = select("/b", &["sub/*.ext"], &[], &walk).unwrap();
    let abs = select("/b", &["/b/sub/*.ext"], &[], &walk).unwrap();
    assert_eq!(rel, abs);
    assert_eq!(rel, strings(&["/b/sub/x.ext", "/b/sub/deep/z.ext"]));
}

#[test]
fn walk_order_does_not_change_the_set() {
    let one = files(&["/b/a.rs", "/b/c.rs", "/b/d.md"]);
    let two = files(&["/b/d.md", "/b/c.rs", "/b/a.rs"]);
    let r1 = select("/b", &["*.rs"], &[], &one).unwrap();
    let r2 = select("/b", &["*.rs"], &[], &two).unwrap();
    assert_eq!(sorted(r1.clone()), sorted(r2));
    assert_eq!(r1, select("/b", &["*.rs"], &[], &one).unwrap());
}

#[test]
fn files_outside_the_base_are_ignored() {
    let walk = files(&["/bc/a.rs", "/other/b.rs", "/b/c.rs"]);
    let r = select("/b", &["**"], &[], &walk).unwrap();
    assert_eq!(r, strings(&["/b/c.rs"]));
}

#[test]
fn invalid_included_pattern_is_reported() {
    let walk = files(&["/b/a.rs"]);
    match select("/b", &["*.rs", "src/[ab"], &["{x"], &walk) {
        Err(KatError::PatternSyntax(p)) => assert_eq!(p, "src/[ab"),
        other => panic!("unexpected {:?}", other.map(|_| ())),
    }
}

#[test]
fn invalid_excluded_pattern_is_reported() {
    let walk = files(&["/b/a.rs"]);
    match select("/b", &["*.rs"], &["ok/*", "{x"], &walk) {
        Err(KatError::PatternSyntax(p)) => assert_eq!(p, "{x"),
        other => panic!("unexpected {:?}", other.map(|_| ())),
    }
}

#[test]
fn unknown_profile_is_reported() {
    let kat = Kat::new(Vec::new());
    match kat.resolve("rust", "/b") {
        Err(KatError::ProfileNotFound(n)) => assert_eq!(n, "rust"),
        _ => panic!("expected a missing profile"),
    }
}

fn profile(name: &str, about: &str, inc: &[&str]) -> Config {
    Config {
        name: name.to_string(),
        about: about.to_string(),
        included_paths: strings(inc),
        excluded_paths: Vec::new(),
        included_types: strings(&["rs"]),
        excluded_types: Vec::new(),
    }
}

#[test]
fn later_profile_of_a_name_wins() {
    let kat = Kat::new(vec![
        profile("rust", "first", &["*.rs"]),
        profile("toml", "other", &["*.toml"]),
        profile("rust", "second", &["src/**"]),
    ]);
    assert_eq!(kat.profile("rust").unwrap().about, "second");
    assert_eq!(kat.profile("toml").unwrap().about, "other");
    assert!(kat.profile("yaml").is_none());
    let r = kat.resolve("rust", "/p").unwrap();
    assert_eq!(r.included, strings(&["/p/src/**"]));
    assert!(r.excluded.is_empty());
}

#[test]
fn patterns_are_joined_to_the_base() {
    let pats = strings(&["src/*.rs", "/abs/x", "", "a"]);
    assert_eq!(resolve_patterns("/base", &pats), strings(&["/base/src/*.rs", "/abs/x", "/base/", "/base/a"]));
    assert_eq!(resolve_patterns("/", &strings(&["a"])), strings(&["/a"]));
    assert_eq!(join_path("/b/", "c"), "/b/c");
    assert_eq!(join_path("", "c"), "c");
}

#[test]
fn patterns_are_anchored_at_the_base() {
    assert_eq!(anchor_pattern("/b", "/b/sub/*.rs"), "sub/*.rs");
    assert_eq!(anchor_pattern("/b", "/b//sub/*.rs"), "sub/*.rs");
    assert_eq!(anchor_pattern("/b", "/b"), "");
    assert_eq!(anchor_pattern("/b", "/bc/*.rs"), "/bc/*.rs");
    assert_eq!(anchor_pattern("/b", "/other/*.rs"), "/other/*.rs");
    assert_eq!(anchor_pattern("/b", "rel/*.rs"), "rel/*.rs");
    assert_eq!(anchor_pattern("/", "/x/*.rs"), "x/*.rs");
}

#[test]
fn walked_paths_are_made_relative() {
    assert_eq!(relative_path("/b", "/b/sub/x.rs"), Some("sub/x.rs".to_string()));
    assert_eq!(relative_path("/b/notes.txt", "/b/notes.txt"), Some("notes.txt".to_string()));
    assert_eq!(relative_path("notes.txt", "notes.txt"), Some("notes.txt".to_string()));
    assert_eq!(relative_path("/b", "/bc/x.rs"), None);
    assert_eq!(relative_path("/b/c", "/b"), None);
}

#[test]
fn profile_files_are_named_by_their_stem() {
    assert_eq!(profile_name_for_file("rust.yml"), Some("rust".to_string()));
    assert_eq!(profile_name_for_file("python.yaml"), Some("python".to_string()));
    assert_eq!(profile_name_for_file("a.b.yaml"), Some("a.b".to_string()));
    assert_eq!(profile_name_for_file(".yml"), None);
    assert_eq!(profile_name_for_file("rust.toml"), None);
    assert_eq!(profile_name_for_file("rust.YML"), None);
    assert_eq!(profile_name_for_file("rust"), None);
    assert_eq!(profile_name_for_file("été.yml"), Some("été".to_string()));
}

#[test]
fn dot_and_trailing_separators_are_dropped_when_anchoring() {
    assert_eq!(anchor_pattern("/b", "/b/./sub/*.rs"), "sub/*.rs");
    assert_eq!(anchor_pattern("/b", "/b/sub/"), "sub");
    assert_eq!(anchor_pattern("/b", "/b/sub/."), "sub");
    assert_eq!(anchor_pattern("/b", "./src/*.rs"), "src/*.rs");
    assert_eq!(anchor_pattern("/b", "src/"), "src");
    assert_eq!(anchor_pattern("/b", "../x/*.rs"), "../x/*.rs");
    assert_eq!(anchor_pattern("/b", ".hidden/*"), ".hidden/*");
    assert_eq!(anchor_pattern("/b", "/b/."), "");
}

#[test]
fn dot_prefixed_profile_pattern_selects_like_plain_one() {
    let kat = Kat::new(vec![profile("p", "dot", &["./src/*.rs"])]);
    let resolved = kat.resolve("p", "/b").unwrap();
    assert_eq!(resolved.included, strings(&["/b/./src/*.rs"]));
    let walk = files(&["/b/src/a.rs", "/b/lib/b.rs"]);
    let r = kat
        .find_and_filter_files("/b", &resolved.included, &resolved.excluded, &walk)
        .unwrap();
    assert_eq!(r, strings(&["/b/src/a.rs"]));
    assert_eq!(select("/b", &["./src/*.rs"], &[], &walk).unwrap(), r);
}
