use kether_internal_services_server::fastdl::{
    ancestor_step, catch_resolve_error, confine_existing, confine_missing, contains_parent_component,
    directory_listing, fastdl_request_path, link_path, reject_traversal, render_directory_listing_html,
    size_display, sort_entries, FastDLCacheHeaders, FileEntry, ROW_START, HEAD_BEFORE_TITLE, LISTING_FOOTER,
};
use kether_internal_services_server::http::HttpStatus;

fn file(name: &str, size: u64) -> FileEntry {
    FileEntry { name: name.to_string(), is_dir: false, size: Some(size) }
}

fn dir(name: &str) -> FileEntry {
    FileEntry { name: name.to_string(), is_dir: true, size: None }
}

#[test]
fn reject_parent_dir_traversal() {
    assert_eq!(reject_traversal("../etc/passwd"), Err(HttpStatus::Forbidden));
    assert_eq!(reject_traversal("foo/../../outside"), Err(HttpStatus::Forbidden));
}

#[test]
fn reject_absolute_path() {
    assert_eq!(reject_traversal("/etc/passwd"), Err(HttpStatus::Forbidden));
}

#[test]
fn accepts_plain_relative_paths() {
    assert_eq!(reject_traversal("foo/bar"), Ok(()));
    assert_eq!(reject_traversal("maps/..hidden/file..txt"), Ok(()));
    assert_eq!(reject_traversal(""), Ok(()));
}

#[test]
fn parent_components_are_found_anywhere() {
    assert!(contains_parent_component(".."));
    assert!(contains_parent_component("a/.."));
    assert!(contains_parent_component("a/../b"));
    assert!(!contains_parent_component("a/...b"));
    assert!(!contains_parent_component("a/b.."));
}

#[test]
fn resolve_valid_nested_path() {
    let root = "/srv/fastdl";
    let resolved = confine_existing(root, Some("/srv/fastdl/foo/bar".to_string())).expect("valid path");
    assert!(resolved.starts_with(root));
    assert!(resolved.ends_with("foo/bar"));
}

#[test]
fn canonical_path_outside_root_is_forbidden() {
    assert_eq!(confine_existing("/srv/fastdl", Some("/etc/passwd".to_string())), Err(HttpStatus::Forbidden));
    assert_eq!(confine_existing("/srv/fastdl", Some("/srv/fastdl2/x".to_string())), Err(HttpStatus::Forbidden));
    assert_eq!(confine_existing("/srv/fastdl", None), Err(HttpStatus::NotFound));
}

#[test]
fn missing_paths_walk_up_within_the_root() {
    assert_eq!(ancestor_step("/srv/fastdl", "/srv/fastdl/a/b"), Ok("/srv/fastdl/a".to_string()));
    assert_eq!(ancestor_step("/srv/fastdl", "/srv/fastdl/a"), Ok("/srv/fastdl".to_string()));
    assert_eq!(ancestor_step("/srv/fastdl", "/srv/fastdl"), Err(HttpStatus::NotFound));
    assert_eq!(
        confine_missing("/srv/fastdl", Some("/srv/fastdl/a".to_string()), "/srv/fastdl/a/new".to_string()),
        Ok("/srv/fastdl/a/new".to_string())
    );
    assert_eq!(
        confine_missing("/srv/fastdl", Some("/tmp".to_string()), "/srv/fastdl/a/new".to_string()),
        Err(HttpStatus::Forbidden)
    );
    assert_eq!(confine_missing("/srv/fastdl", None, "/srv/fastdl/x".to_string()), Err(HttpStatus::NotFound));
}

#[test]
fn catcher_only_answers_fastdl_uris() {
    assert_eq!(fastdl_request_path("/fastdl/maps/x.bsp"), Some("maps/x.bsp".to_string()));
    assert_eq!(fastdl_request_path("/fastdl/"), Some(String::new()));
    assert_eq!(fastdl_request_path("/api/binds"), None);
    assert_eq!(catch_resolve_error(HttpStatus::Forbidden), Some(HttpStatus::Forbidden));
    assert_eq!(catch_resolve_error(HttpStatus::NotFound), None);
}

#[test]
fn sizes_are_shown_in_binary_units() {
    assert_eq!(size_display(None), "-");
    assert_eq!(size_display(Some(0)), "0");
    assert_eq!(size_display(Some(1024)), "1024");
    assert_eq!(size_display(Some(1025)), "1K");
    assert_eq!(size_display(Some(1048576)), "1024K");
    assert_eq!(size_display(Some(1048577)), "1M");
    assert_eq!(size_display(Some(5 * 1048576 + 3)), "5M");
}

#[test]
fn links_are_relative_to_the_listing() {
    assert_eq!(link_path("", "maps"), "maps");
    assert_eq!(link_path("l4d2", "maps"), "l4d2/maps");
}

#[test]
fn directories_come_first_then_names() {
    let sorted = sort_entries(vec![file("b.txt", 1), dir("zeta"), file("a.txt", 2), dir("alpha")]);
    let names: Vec<&str> = sorted.iter().map(|e| e.name.as_str()).collect();
    assert_eq!(names, vec!["alpha", "zeta", "a.txt", "b.txt"]);
}

#[test]
fn listing_has_parent_only_below_the_root() {
    let root = directory_listing(String::new(), vec![]);
    assert!(root.parent_path.is_none());
    let nested = directory_listing("l4d2/maps".to_string(), vec![]);
    assert_eq!(nested.parent_path, Some("l4d2".to_string()));
}

#[test]
fn listing_html_shows_rows() {
    let listing = directory_listing("maps".to_string(), vec![file("c1m1.bsp", 2048), dir("sub")]);
    let html = render_directory_listing_html(&listing);
    assert!(html.starts_with(HEAD_BEFORE_TITLE));
    assert!(html.ends_with(LISTING_FOOTER));
    assert!(html.contains("<title>Index of /fastdl/maps</title>"));
    assert!(html.contains("<a href=\"/fastdl/\" class=\"parent\">Parent Directory</a>"));
    assert!(html.contains("<a href=\"/fastdl/maps/sub/\" class=\"dir\">sub/</a>"));
    assert!(html.contains("<a href=\"/fastdl/maps/c1m1.bsp\" class=\"file\">c1m1.bsp</a>"));
    assert!(html.contains("<td class=\"size\">2K</td>"));
    assert!(html.find("sub/").unwrap() < html.find("c1m1.bsp").unwrap());
    assert_eq!(html.matches(ROW_START).count(), 2);
}

#[test]
fn resources_get_year_long_cache_headers() {
    let h = FastDLCacheHeaders.headers_for("/fastdl/l4d2_kether/resource/ui.res", Some("123"));
    assert_eq!(
        h,
        vec![
            ("Cache-Control".to_string(), "public, max-age=31536000, immutable".to_string()),
            ("ETag".to_string(), "\"123\"".to_string()),
        ]
    );
    let h2 = FastDLCacheHeaders.headers_for("/fastdl/l4d2_kether/resource/ui.res", None);
    assert_eq!(h2.len(), 1);
    assert!(FastDLCacheHeaders.headers_for("/fastdl/maps/x.bsp", Some("5")).is_empty());
}
