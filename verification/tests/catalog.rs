use clutterlog::catalog::{MediaLibrary, MetaMedia};

fn listing(names: &[&str]) -> Vec<String> {
    names.iter().map(|n| n.to_string()).collect()
}

fn resolve_all(lib: &MediaLibrary, files: &Vec<String>, datetime: &str) -> Vec<MetaMedia> {
    lib.missing_names(files)
        .into_iter()
        .map(|name| MetaMedia { name, datetime: datetime.to_string() })
        .collect()
}

#[test]
fn reconcile_adds_new_files() {
    let mut lib = MediaLibrary::empty();
    let files = listing(&["a.jpg", "b.png"]);
    let resolved = resolve_all(&lib, &files, "2020-01-01T00:00:00");
    let report = lib.update_metadata(&files, resolved);
    assert_eq!(report.added, 2);
    assert_eq!(report.removed, 0);
    assert_eq!(lib.entries.len(), 2);
    assert_eq!(lib.entries[0].name, "a.jpg");
    assert_eq!(lib.entries[1].name, "b.png");
}

#[test]
fn reconcile_removes_dropped_files() {
    let mut lib = MediaLibrary::empty();
    let files = listing(&["a.jpg", "b.png"]);
    let resolved = resolve_all(&lib, &files, "2020-01-01T00:00:00");
    lib.update_metadata(&files, resolved);

    let files = listing(&["a.jpg"]);
    let resolved = resolve_all(&lib, &files, "2021-01-01T00:00:00");
    let report = lib.update_metadata(&files, resolved);
    assert_eq!(report.added, 0);
    assert_eq!(report.removed, 1);
    assert_eq!(lib.entries.len(), 1);
    assert_eq!(lib.entries[0].name, "a.jpg");
}

#[test]
fn reconcile_unchanged_listing_is_idempotent() {
    let mut lib = MediaLibrary::empty();
    let files = listing(&["a.jpg", "b.png", "c.gif"]);
    let resolved = resolve_all(&lib, &files, "2020-01-01T00:00:00");
    lib.update_metadata(&files, resolved);
    let before: Vec<(String, String)> =
        lib.entries.iter().map(|e| (e.name.clone(), e.datetime.clone())).collect();

    let resolved = resolve_all(&lib, &files, "2022-12-31T23:59:59");
    assert!(resolved.is_empty());
    let report = lib.update_metadata(&files, resolved);
    assert_eq!(report.added, 0);
    assert_eq!(report.removed, 0);
    let after: Vec<(String, String)> =
        lib.entries.iter().map(|e| (e.name.clone(), e.datetime.clone())).collect();
    assert_eq!(before, after);
}

#[test]
fn reconcile_empty_listing_clears_all_entries() {
    let mut lib = MediaLibrary::empty();
    let files = listing(&["a.jpg", "b.png"]);
    let resolved = resolve_all(&lib, &files, "2020-01-01T00:00:00");
    lib.update_metadata(&files, resolved);

    let files = listing(&[]);
    let resolved = resolve_all(&lib, &files, "2020-01-01T00:00:00");
    let report = lib.update_metadata(&files, resolved);
    assert_eq!(report.added, 0);
    assert_eq!(report.removed, 2);
    assert!(lib.entries.is_empty());
}

#[test]
fn reconcile_keeps_existing_datetime() {
    let mut lib = MediaLibrary::empty();
    let files = listing(&["a.jpg"]);
    let resolved = resolve_all(&lib, &files, "2019-06-01T08:30:00");
    lib.update_metadata(&files, resolved);

    // The file stays listed: its entry must keep the first-seen datetime
    // even though newly resolved entries would carry another one.
    let files = listing(&["a.jpg", "b.png"]);
    let resolved = resolve_all(&lib, &files, "2024-01-01T00:00:00");
    assert_eq!(resolved.len(), 1);
    assert_eq!(resolved[0].name, "b.png");
    lib.update_metadata(&files, resolved);
    assert_eq!(lib.get_datetime("a.jpg"), Some("2019-06-01T08:30:00"));
    assert_eq!(lib.get_datetime("b.png"), Some("2024-01-01T00:00:00"));
}

#[test]
fn get_datetime_unknown_name_is_none() {
    let mut lib = MediaLibrary::empty();
    let files = listing(&["a.jpg"]);
    let resolved = resolve_all(&lib, &files, "2020-01-01T00:00:00");
    lib.update_metadata(&files, resolved);
    assert_eq!(lib.get_datetime("missing.png"), None);
}

#[test]
fn missing_names_lists_only_uncatalogued_files() {
    let mut lib = MediaLibrary::empty();
    let files = listing(&["a.jpg", "b.png"]);
    let resolved = resolve_all(&lib, &files, "2020-01-01T00:00:00");
    lib.update_metadata(&files, resolved);

    let files = listing(&["b.png", "c.mp4", "d.webm"]);
    let missing = lib.missing_names(&files);
    assert_eq!(missing, vec!["c.mp4".to_string(), "d.webm".to_string()]);
}
