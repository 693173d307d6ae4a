use dark_cli::collector::{base_name_of, collect, split_path_specs, DiscoveredFile};
use dark_cli::error::DarkError;

fn discovered(path: &str, size_bytes: u64) -> DiscoveredFile {
    DiscoveredFile { path: path.to_string(), size_bytes }
}

#[test]
fn collect_totals_the_on_disk_sizes() {
    let files = vec![discovered("/a/x.txt", 10), discovered("/b/y.png", 20)];
    let batch = collect("/a /b", &files).expect("two files should collect");
    assert_eq!(batch.total_size_bytes, 30);
    assert_eq!(batch.entries.len(), 2);
    assert_eq!(batch.entries[0].absolute_path, "/a/x.txt");
    assert_eq!(batch.entries[0].base_name, "x.txt");
    assert_eq!(batch.entries[0].size_bytes, 10);
    assert_eq!(batch.entries[1].base_name, "y.png");
    assert_eq!(batch.entries[1].size_bytes, 20);
}

#[test]
fn collect_of_nothing_fails_with_the_spec_as_given() {
    let r = collect("/tmp/only-empty-dirs", &Vec::new());
    assert_eq!(
        r.err(),
        Some(DarkError::NoFilesFound("/tmp/only-empty-dirs".to_string()))
    );
}

#[test]
fn collect_rejects_a_path_without_final_component() {
    let files = vec![discovered("/a/x.txt", 10), discovered("/b/", 5)];
    let r = collect("/a /b", &files);
    assert_eq!(r.err(), Some(DarkError::MissingFilename));
}

#[test]
fn collect_keeps_duplicate_base_names() {
    let files = vec![discovered("/a/same.txt", 1), discovered("/b/same.txt", 2)];
    let batch = collect("/a /b", &files).expect("duplicates pass through");
    assert_eq!(batch.entries[0].base_name, "same.txt");
    assert_eq!(batch.entries[1].base_name, "same.txt");
    assert_eq!(batch.total_size_bytes, 3);
}

#[test]
fn base_name_is_the_final_component() {
    assert_eq!(base_name_of("/a/b/c.txt"), Some("c.txt".to_string()));
    assert_eq!(base_name_of("plain"), Some("plain".to_string()));
    assert_eq!(base_name_of("dir/"), None);
    assert_eq!(base_name_of(""), None);
    assert_eq!(base_name_of("/"), None);
}

#[test]
fn path_specs_split_on_spaces() {
    assert_eq!(split_path_specs("a b"), vec!["a".to_string(), "b".to_string()]);
    assert_eq!(split_path_specs("single"), vec!["single".to_string()]);
    assert_eq!(
        split_path_specs("  x  y "),
        vec!["x".to_string(), "y".to_string()]
    );
    assert_eq!(split_path_specs(""), Vec::<String>::new());
    assert_eq!(split_path_specs("   "), Vec::<String>::new());
}
