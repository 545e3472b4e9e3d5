use tessera::ingest::{excluded, relative, IngestReport};

fn parts(p: &[&str]) -> Vec<String> {
    p.iter().map(|s| s.to_string()).collect()
}

#[test]
fn exclusion_names_a_path_component_ignoring_case() {
    let exclude = parts(&["sensitive"]);
    assert!(excluded(&parts(&["docs", "Sensitive", "pay.md"]), &exclude));
    assert!(!excluded(&parts(&["docs", "insensitive-notes.md"]), &exclude));
    assert!(!excluded(&parts(&["docs", "pay.md"]), &[]));
}

#[test]
fn a_path_is_indexed_relative_to_its_root() {
    assert_eq!(relative(&parts(&["root"]), &parts(&["root", "sub", "a.md"]), "root/sub/a.md"), "sub/a.md");
}

#[test]
fn a_path_outside_its_root_keeps_its_own_name_with_forward_slashes() {
    assert_eq!(relative(&parts(&["other"]), &parts(&["root", "a.md"]), "root\\a.md"), "root/a.md");
}

#[test]
fn a_new_report_has_counted_nothing() {
    let r = IngestReport::default();
    assert_eq!((r.indexed, r.chunks, r.excluded, r.errors.len()), (0, 0, 0, 0));
}
