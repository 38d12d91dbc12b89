use rcli::serve::{render_listing, resolve_path, respond, DirEntry, Resolved};

fn entry(name: &str, path: &str) -> DirEntry {
    DirEntry { name: name.to_string(), path: path.to_string() }
}

#[test]
fn test_file_handler() {
    let path = resolve_path(".", "Cargo.toml").unwrap();
    assert_eq!(path, "./Cargo.toml");
    let content = "[package]\nname = \"rcli\"\n".to_string();
    let r = respond(&path, Resolved::File(content.clone()));
    assert_eq!(r.status, 200);
    assert!(r.body.trim().starts_with("[package]"));
    assert_eq!(r.body, content);
    assert!(!r.html);
}

#[test]
fn missing_path_is_not_found() {
    let r = respond("./nope.txt", Resolved::Missing);
    assert_eq!(r.status, 404);
    assert_eq!(r.body, "File ./nope.txt not found");
    assert!(r.body.contains("./nope.txt"));
}

#[test]
fn directory_lists_each_entry() {
    let es = vec![entry("a.txt", "./d/a.txt"), entry("sub", "./d/sub")];
    let r = respond("./d", Resolved::Directory(es));
    assert_eq!(r.status, 200);
    assert!(r.html);
    assert_eq!(
        r.body,
        "<html><body><ul><li><a href=\"/./d/a.txt\">a.txt</a></li><li><a href=\"/./d/sub\">sub</a></li></ul></body></html>"
    );
    assert_eq!(r.body.matches("<li>").count(), 2);
}

#[test]
fn empty_directory_listing() {
    assert_eq!(render_listing(&vec![]), "<html><body><ul></ul></body></html>");
}

#[test]
fn io_failure_is_internal_error() {
    let r = respond("./x", Resolved::Failed("permission denied".to_string()));
    assert_eq!(r.status, 500);
    assert_eq!(r.body, "permission denied");
}

#[test]
fn resolve_joins_onto_root() {
    assert_eq!(resolve_path("/srv/", "a/b.txt"), Some("/srv/a/b.txt".to_string()));
    assert_eq!(resolve_path("/srv", "a/b.txt"), Some("/srv/a/b.txt".to_string()));
    assert_eq!(resolve_path("", "a"), Some("a".to_string()));
    assert_eq!(resolve_path(".", "a..b/..c"), Some("./a..b/..c".to_string()));
}

#[test]
fn resolve_refuses_escape() {
    assert_eq!(resolve_path(".", ".."), None);
    assert_eq!(resolve_path(".", "../etc/passwd"), None);
    assert_eq!(resolve_path(".", "a/../../b"), None);
    assert_eq!(resolve_path(".", "a/.."), None);
    assert_eq!(resolve_path(".", "/etc/passwd"), None);
}
