use media_sort::discovery::Config;
use media_sort::discovery::WalkEntry;
use media_sort::discovery::depth_limit;
use media_sort::discovery::select_files;
use media_sort::pathname::extension_of;
use media_sort::pathname::file_name_part;
use media_sort::pathname::join_path;
use media_sort::pathname::lowered_path;
use media_sort::pathname::matches_extensions;
use media_sort::text::lower_str;
use media_sort::text::str_eq;

fn config(recursive: bool, exts: &[&str]) -> Config {
    Config {
        source_dir: String::from("/pics"),
        dest_dir: String::from("/out"),
        recursive,
        extensions: exts.iter().map(|e| String::from(*e)).collect(),
    }
}

fn entry(path: &str, depth: usize, is_file: bool) -> WalkEntry {
    WalkEntry { path: String::from(path), depth, is_file }
}

#[test]
fn extension_set_filters_discovery() {
    let entries = vec![entry("/pics/a.png", 1, true), entry("/pics/a.jpg", 1, true)];
    let found = select_files(&entries, &config(false, &["png"]));
    assert_eq!(found, vec![String::from("/pics/a.png")]);
}

#[test]
fn extension_match_is_case_insensitive() {
    assert!(matches_extensions("IMG.JPG", &vec![String::from("jpg")]));
    assert!(matches_extensions("img.jpg", &vec![String::from("JPG")]));
    assert!(!matches_extensions("IMG.JPG", &vec![String::from("png")]));

    let entries = vec![entry("/pics/IMG.JPG", 1, true)];
    let found = select_files(&entries, &config(false, &["jpg"]));
    assert_eq!(found, vec![String::from("/pics/IMG.JPG")]);
}

#[test]
fn depth_limits() {
    assert_eq!(depth_limit(false), 1);
    assert_eq!(depth_limit(true), 5);
}

#[test]
fn non_recursive_stops_at_direct_children() {
    let entries = vec![
        entry("/pics/a.png", 1, true),
        entry("/pics/sub/b.png", 2, true),
    ];
    let found = select_files(&entries, &config(false, &["png"]));
    assert_eq!(found, vec![String::from("/pics/a.png")]);
}

#[test]
fn recursive_reaches_five_levels_and_no_further() {
    let entries = vec![
        entry("/pics/1/2/3/4/e.png", 5, true),
        entry("/pics/1/2/3/4/5/f.png", 6, true),
    ];
    let found = select_files(&entries, &config(true, &["png"]));
    assert_eq!(found, vec![String::from("/pics/1/2/3/4/e.png")]);
}

#[test]
fn directories_and_bare_names_are_skipped() {
    let entries = vec![
        entry("/pics/folder.png", 1, false),
        entry("/pics/README", 1, true),
        entry("/pics/keep.png", 1, true),
    ];
    let found = select_files(&entries, &config(false, &["png"]));
    assert_eq!(found, vec![String::from("/pics/keep.png")]);
}

#[test]
fn empty_discovery_is_not_an_error() {
    let entries: Vec<WalkEntry> = Vec::new();
    let found = select_files(&entries, &config(true, &["png"]));
    assert!(found.is_empty());
}

#[test]
fn extension_edge_cases() {
    assert_eq!(extension_of("a.tar.GZ"), Some(String::from("GZ")));
    assert_eq!(extension_of("photo.CR2"), Some(String::from("CR2")));
    assert_eq!(extension_of(".bashrc"), None);
    assert_eq!(extension_of("/pics/.hidden"), None);
    assert_eq!(extension_of("README"), None);
    assert_eq!(extension_of("dir.d/file"), None);
    assert_eq!(extension_of("trailing."), Some(String::from("")));
}

#[test]
fn lowered_path_edge_cases() {
    assert_eq!(lowered_path("/pics/photo.CR2").as_str(), "/pics/photo.cr2");
    assert_eq!(lowered_path("photo").as_str(), "photo");
    assert_eq!(lowered_path("photo.").as_str(), "photo");
    assert_eq!(lowered_path("/DIR.X/photo").as_str(), "/DIR.X/photo");
    assert_eq!(lowered_path("/pics/.hidden").as_str(), "/pics/.hidden");
}

#[test]
fn join_and_name_helpers() {
    assert_eq!(join_path("a", "b").as_str(), "a/b");
    assert_eq!(join_path("a/", "b").as_str(), "a/b");
    assert_eq!(join_path("", "b").as_str(), "b");
    assert_eq!(file_name_part("/pics/sub/a.png").as_str(), "a.png");
    assert_eq!(file_name_part("plain").as_str(), "plain");
    assert_eq!(lower_str("MiXeD 123 \u{c4}").as_str(), "mixed 123 \u{c4}");
    assert!(str_eq("same", "same"));
    assert!(!str_eq("same", "sama"));
    assert!(!str_eq("same", "sam"));
}
