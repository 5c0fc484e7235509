use exemem_client_lib::scanner::classify_files;
use exemem_client_lib::scanner::classify_single_file;

#[test]
fn test_classify_json_file() {
    let root = "/tmp/test";
    let files = vec!["data/export.json".to_string()];
    let results = classify_files(root, &files);
    assert_eq!(results.len(), 1);
    assert!(results[0].should_ingest);
    assert_eq!(results[0].category, "personal_data");
}

#[test]
fn test_classify_node_modules() {
    let root = "/tmp/test";
    let files = vec!["node_modules/react/index.js".to_string()];
    let results = classify_files(root, &files);
    assert_eq!(results.len(), 1);
    assert!(!results[0].should_ingest);
    assert_eq!(results[0].category, "website_scaffolding");
}

#[test]
fn test_classify_media() {
    let root = "/tmp/test";
    let files = vec!["photos/vacation.jpg".to_string()];
    let results = classify_files(root, &files);
    assert_eq!(results.len(), 1);
    assert!(results[0].should_ingest);
    assert_eq!(results[0].category, "media");
}

#[test]
fn test_classify_config() {
    let root = "/tmp/test";
    let files = vec!["config/settings.yaml".to_string()];
    let results = classify_files(root, &files);
    assert_eq!(results.len(), 1);
    assert!(!results[0].should_ingest);
    assert_eq!(results[0].category, "config");
}

#[test]
fn test_classify_media_in_assets_skipped() {
    let root = "/tmp/test";
    let files = vec!["web/assets/logo.png".to_string()];
    let results = classify_files(root, &files);
    assert_eq!(results.len(), 1);
    assert!(!results[0].should_ingest);
}

#[test]
fn test_classify_unknown() {
    let root = "/tmp/test";
    let files = vec!["something.xyz".to_string()];
    let results = classify_files(root, &files);
    assert_eq!(results.len(), 1);
    assert!(!results[0].should_ingest);
    assert_eq!(results[0].category, "unknown");
}

#[test]
fn classify_is_case_insensitive() {
    let files = vec!["Data/Export.JSON".to_string(), "NODE_MODULES/x/y.css".to_string()];
    let results = classify_files("/r", &files);
    assert_eq!(results[0].category, "personal_data");
    assert!(results[0].should_ingest);
    assert_eq!(results[1].category, "website_scaffolding");
}

#[test]
fn classify_web_font_is_scaffolding() {
    let files = vec!["fonts/roboto.woff2".to_string(), "img/smiley-emoji.svg".to_string()];
    let results = classify_files("/r", &files);
    assert_eq!(results[0].category, "website_scaffolding");
    assert!(!results[0].should_ingest);
    assert_eq!(results[1].category, "website_scaffolding");
}

#[test]
fn classify_dotfile_is_config() {
    let files = vec![".bashrc".to_string(), "work/.config/app.toml".to_string()];
    let results = classify_files("/r", &files);
    assert_eq!(results[0].category, "config");
    assert!(!results[0].should_ingest);
    assert_eq!(results[1].category, "config");
}

#[test]
fn classify_export_and_backup_directories() {
    let files = vec!["backup/notes.unknownext".to_string(), "my-export-2021.bin".to_string()];
    let results = classify_files("/r", &files);
    assert_eq!(results[0].category, "personal_data");
    assert!(results[0].should_ingest);
    assert_eq!(results[1].category, "personal_data");
}

#[test]
fn classify_config_beats_media_extension() {
    // A media extension under a config directory stays config: the
    // precedence order puts the config rule before the media rule.
    let files = vec!["config/photo.png".to_string()];
    let results = classify_files("/r", &files);
    assert_eq!(results[0].category, "config");
    assert!(!results[0].should_ingest);
}

#[test]
fn classify_reports_paths_and_reasons() {
    let files = vec!["notes.md".to_string()];
    let results = classify_files("/home/me", &files);
    assert_eq!(results[0].path, "notes.md");
    assert_eq!(results[0].absolute_path, "/home/me/notes.md");
    assert_eq!(results[0].reason, "Potential personal data file");
}

#[test]
fn classify_single_file_strips_the_root() {
    let rec = classify_single_file("/tmp/test", "/tmp/test/data/export.json");
    assert_eq!(rec.path, "data/export.json");
    assert!(rec.should_ingest);
    assert_eq!(rec.category, "personal_data");
}

#[test]
fn classify_single_file_outside_root_falls_back_to_unknown() {
    // A path that does not lie under the root is never classified by the
    // heuristics: it falls back to its bare file name, not recommended,
    // whatever its extension would otherwise suggest.
    let rec = classify_single_file("/tmp/test", "/elsewhere/photo.jpg");
    assert_eq!(rec.path, "photo.jpg");
    assert_eq!(rec.absolute_path, "/elsewhere/photo.jpg");
    assert!(!rec.should_ingest);
    assert_eq!(rec.category, "unknown");
    assert_eq!(rec.reason, "Could not classify");
}

#[test]
fn classify_single_file_of_the_root_itself() {
    let rec = classify_single_file("/tmp/test", "/tmp/test");
    assert_eq!(rec.path, "");
    assert!(!rec.should_ingest);
    assert_eq!(rec.category, "unknown");
}

#[test]
fn media_extension_beats_export_and_backup_markers() {
    // By the precedence order a media extension wins over the personal-data
    // substring markers.
    let files = vec!["backup/pic.png".to_string()];
    let results = classify_files("/r", &files);
    assert_eq!(results[0].category, "media");
    assert!(results[0].should_ingest);
}

#[test]
fn extension_needs_a_dot_inside_the_file_name() {
    // "tar.gz" has extension "gz"; a trailing directory dot does not count.
    let files = vec!["archive.tar.gz".to_string(), "v1.0/readme".to_string()];
    let results = classify_files("/r", &files);
    assert_eq!(results[0].category, "unknown");
    assert_eq!(results[1].category, "unknown");
}
