use nmd::watching::{configuration_changed, files_to_reload, files_to_reload_named, watched_files_changed};

fn strings(v: &[&str]) -> Vec<String> {
    v.iter().map(|s| s.to_string()).collect()
}

#[test]
fn configuration_change_is_noticed() {
    assert!(configuration_changed(&strings(&["/d/a.nmd", "/d/nmd.yml"]), "/d"));
    assert!(configuration_changed(&strings(&["/d/nmd.json"]), "/d/"));
    assert!(!configuration_changed(&strings(&["/d/a.nmd"]), "/d"));
    assert!(!configuration_changed(&strings(&["/e/nmd.yml"]), "/d"));
}

#[test]
fn watched_documents_and_assets() {
    let documents = strings(&["./a.nmd", "./chapters/b.nmd"]);

    assert!(watched_files_changed(&strings(&["/d/chapters/b.nmd"]), "/d", &documents));
    assert!(watched_files_changed(&strings(&["/d/assets/"]), "/d", &documents));
    assert!(!watched_files_changed(&strings(&["/d/notes.txt"]), "/d", &documents));
    assert!(!watched_files_changed(&strings(&["/elsewhere/a.nmd"]), "/d", &documents));
}

#[test]
fn configuration_reloads_the_whole_dossier() {
    let documents = strings(&["./a.nmd"]);

    assert_eq!(files_to_reload(&strings(&["/d/a.nmd", "/d/nmd.yml"]), &documents), None);
}

#[test]
fn changed_documents_are_reloaded() {
    let documents = strings(&["./a.nmd", "./sub/b.nmd"]);

    assert_eq!(
        files_to_reload(&strings(&["/d/sub/b.nmd", "/d/other.txt", "/d/a.nmd"]), &documents),
        Some(strings(&["/d/sub/b.nmd", "/d/a.nmd"]))
    );
}

#[test]
fn reloading_by_names() {
    let changed = strings(&["x/one", "x/two"]);
    let changed_names = vec![Some("one".to_string()), None];
    let document_names = vec![Some("one".to_string()), Some("two".to_string())];

    assert_eq!(
        files_to_reload_named(&changed, &changed_names, &document_names),
        Some(strings(&["x/one"]))
    );
}
