//! The virtual file store.

use pocketdeck::host::HostCallError;
use pocketdeck::rvim::fs::Vfs;

fn no_host_vfs() -> Vfs {
    Vfs::load(Err(HostCallError::Failed("no host".into())), Vec::new())
}

#[test]
fn write_read_roundtrip() {
    let mut v = no_host_vfs();
    v.write("a.rs", "fn a() {}");
    assert_eq!(v.read("a.rs").as_deref(), Some("fn a() {}"));
    assert!(v.has_file("a.rs"));
    assert!(!v.has_file("b.rs"));
    assert_eq!(v.read("b.rs"), None);
}

#[test]
fn overwrite_replaces_content() {
    let mut v = no_host_vfs();
    v.write("a.rs", "one");
    v.write("a.rs", "two");
    assert_eq!(v.read("a.rs").as_deref(), Some("two"));
    assert_eq!(v.list().len(), 1);
}

#[test]
fn remove_deletes_and_reports_missing() {
    let mut v = no_host_vfs();
    v.write("a.rs", "x");
    assert!(v.remove("a.rs"));
    assert!(!v.has_file("a.rs"));
    assert!(!v.remove("a.rs"));
    assert!(!v.remove("never-existed"));
}

#[test]
fn list_is_sorted() {
    let mut v = no_host_vfs();
    v.write("zeta.rs", "");
    v.write("alpha.rs", "");
    v.write("mid.md", "");
    assert_eq!(v.list(), vec!["alpha.rs", "mid.md", "zeta.rs"]);
}

#[test]
fn seed_when_index_missing() {
    let v = Vfs::load(Ok(None), Vec::new());
    assert_eq!(v.list(), vec!["lib.rs", "main.rs", "notes.md"]);
    assert!(v.read("main.rs").unwrap().contains("fn main()"));
    assert!(v.read("lib.rs").unwrap().contains("#[cfg(test)]"));
    assert!(v.read("notes.md").unwrap().starts_with("# notes"));
}

#[test]
fn no_seed_when_index_present() {
    let bytes = postcard::to_stdvec(&vec!["a.rs".to_string()]).unwrap();
    let v = Vfs::load(Ok(Some(bytes)), Vec::new());
    assert!(!v.has_file("main.rs"));
    // File reads fail without a host, so the entry is skipped.
    assert!(v.list().is_empty());
}

#[test]
fn no_seed_when_host_unavailable() {
    assert!(no_host_vfs().list().is_empty());
}

#[test]
fn no_seed_on_corrupt_index() {
    let v = Vfs::load(Ok(Some(vec![0xff, 0xff, 0xff, 0xff])), Vec::new());
    assert!(v.list().is_empty());
}

#[test]
fn native_load_falls_back_to_empty() {
    assert!(no_host_vfs().list().is_empty());
}

#[test]
fn unicode_content_roundtrip() {
    let mut v = no_host_vfs();
    v.write("uni.rs", "let é = \"中文\";");
    assert_eq!(v.read("uni.rs").as_deref(), Some("let é = \"中文\";"));
}
