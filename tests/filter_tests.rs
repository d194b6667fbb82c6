use gitlsf::filter::FileFilter;

#[test]
fn test_should_count_source_files() {
    let filter = FileFilter::new();

    assert!(filter.should_count("main.rs"));
    assert!(filter.should_count("lib.py"));
    assert!(filter.should_count("index.js"));
    assert!(filter.should_count("app.tsx"));
    assert!(filter.should_count("Makefile"));
    assert!(filter.should_count("src/utils/helper.go"));
}

#[test]
fn test_should_not_count_media_files() {
    let filter = FileFilter::new();

    assert!(!filter.should_count("image.png"));
    assert!(!filter.should_count("photo.jpg"));
    assert!(!filter.should_count("photo.JPEG"));
    assert!(!filter.should_count("icon.svg"));
    assert!(!filter.should_count("audio.mp3"));
    assert!(!filter.should_count("font.woff2"));
    assert!(!filter.should_count("favicon.ico"));
}

#[test]
fn test_should_not_count_data_files() {
    let filter = FileFilter::new();

    assert!(!filter.should_count("data.csv"));
    assert!(!filter.should_count("config.json"));
    assert!(!filter.should_count("settings.toml"));
    assert!(!filter.should_count("Cargo.lock"));
    assert!(!filter.should_count("database.mmdb"));
}

#[test]
fn test_should_not_count_doc_files() {
    let filter = FileFilter::new();

    assert!(!filter.should_count("README.md"));
    assert!(!filter.should_count("CHANGELOG.md"));
    assert!(!filter.should_count("docs/guide.md"));
}

#[test]
fn test_should_not_count_excluded_filenames() {
    let filter = FileFilter::new();

    assert!(!filter.should_count("LICENSE"));
    assert!(!filter.should_count(".gitignore"));
    assert!(!filter.should_count("path/to/LICENSE"));
}

#[test]
fn test_custom_exclusions() {
    let filter = FileFilter::new()
        .exclude_extension("log")
        .exclude_filename("custom.txt");

    assert!(!filter.should_count("debug.log"));
    assert!(!filter.should_count("custom.txt"));
    assert!(filter.should_count("main.rs"));
}

#[test]
fn test_filter_files() {
    let filter = FileFilter::new();
    let files = vec![
        "src/main.rs",
        "src/lib.rs",
        "image.png",
        "README.md",
        "config.json",
        "LICENSE",
    ];

    let filtered = filter.filter_files(files);

    assert_eq!(filtered.len(), 2);
    assert!(filtered.contains(&"src/main.rs".to_string()));
    assert!(filtered.contains(&"src/lib.rs".to_string()));
}

#[test]
fn test_case_insensitive_extension() {
    let filter = FileFilter::new();

    assert!(!filter.should_count("image.PNG"));
    assert!(!filter.should_count("image.Png"));
    assert!(!filter.should_count("data.JSON"));
}

#[test]
fn custom_extension_is_compared_without_case() {
    let filter = FileFilter::new().exclude_extension("LOG");
    assert!(!filter.should_count("debug.log"));
    assert!(!filter.should_count("debug.Log"));
    assert!(filter.should_count("debug.txt"));
}

#[test]
fn custom_filename_matches_final_component_only() {
    let filter = FileFilter::new().exclude_filename("gen.rs");
    assert!(!filter.should_count("src/deep/gen.rs"));
    assert!(filter.should_count("src/gen.rs.bak"));
}

#[test]
fn dotfile_without_extension_is_counted() {
    let filter = FileFilter::new();
    assert!(filter.should_count(".bashrc"));
    assert!(!filter.should_count("LICENSE-MIT"));
    assert!(!filter.should_count("LICENSE-APACHE"));
}

#[test]
fn parts_decide_on_given_name_and_extension() {
    let filter = FileFilter::new().exclude_extension("log");
    assert!(filter.should_count_parts(Some("main.rs"), Some("rs")));
    assert!(!filter.should_count_parts(Some("LICENSE"), None));
    assert!(!filter.should_count_parts(Some("a.md"), Some("md")));
    assert!(!filter.should_count_parts(Some("x.log"), Some("log")));
    assert!(filter.should_count_parts(None, None));
    // The extension is expected in lowercase already.
    assert!(filter.should_count_parts(Some("a.PNG"), Some("PNG")));
}

#[test]
fn filter_files_keeps_order() {
    let filter = FileFilter::new();
    let filtered = filter.filter_files(vec!["b.rs", "a.png", "a.rs", "c.go"]);
    assert_eq!(filtered, vec!["b.rs".to_string(), "a.rs".to_string(), "c.go".to_string()]);
}
