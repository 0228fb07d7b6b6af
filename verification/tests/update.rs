use codex_token_usage::json::{JsonNumber, JsonValue};
use codex_token_usage::update::{
    is_http_url, is_newer_version, normalize_release_version, normalize_update_source,
    parse_version_triplet, sanitize_file_name, select_release_asset, update_file_name,
    UpdateSourceError,
};

fn text(s: &str) -> JsonValue {
    JsonValue::Str(s.to_string())
}

fn number(n: u64) -> JsonValue {
    JsonValue::Number(JsonNumber { int: Some(n as i64), uint: Some(n), text: n.to_string() })
}

fn object(members: Vec<(&str, JsonValue)>) -> JsonValue {
    JsonValue::Object(members.into_iter().map(|(k, v)| (k.to_string(), v)).collect())
}

#[test]
fn update_source_accepts_github_repo_forms() {
    assert_eq!(
        normalize_update_source("owner/repo").unwrap(),
        "https://api.github.com/repos/owner/repo/releases/latest"
    );
    assert_eq!(
        normalize_update_source("https://github.com/owner/repo").unwrap(),
        "https://api.github.com/repos/owner/repo/releases/latest"
    );
}

#[test]
fn update_version_compare_handles_semver_tags() {
    assert!(is_newer_version("v0.3.2", "0.3.1"));
    assert!(!is_newer_version("0.3.1", "0.3.1"));
    assert!(!is_newer_version("0.3.0", "0.3.1"));
}

#[test]
fn update_asset_selection_prefers_portable_exe() {
    let release = object(vec![(
        "assets",
        JsonValue::Array(vec![
            object(vec![
                ("name", text("CodexTokenUsage-0.3.1-windows-x64-installer.exe")),
                ("browser_download_url", text("https://example.test/installer.exe")),
                ("size", number(20)),
            ]),
            object(vec![
                ("name", text("CodexTokenUsage-0.3.1-windows-x64-portable.exe")),
                ("browser_download_url", text("https://example.test/portable.exe")),
                ("size", number(10)),
            ]),
        ]),
    )]);

    let selected = select_release_asset(&release).unwrap();
    assert_eq!(selected.url, "https://example.test/portable.exe");
    assert_eq!(selected.size, 10);
}

#[test]
fn update_asset_selection_falls_back_to_any_exe() {
    let release = object(vec![(
        "assets",
        JsonValue::Array(vec![
            object(vec![("name", text("notes.txt")), ("browser_download_url", text("https://x/n"))]),
            object(vec![("name", text("Other.EXE")), ("browser_download_url", text("https://x/o"))]),
        ]),
    )]);
    let selected = select_release_asset(&release).unwrap();
    assert_eq!(selected.name, "Other.EXE");
    assert_eq!(selected.size, 0);
    assert!(select_release_asset(&object(vec![])).is_none());
}

#[test]
fn update_source_forms_and_errors() {
    assert_eq!(
        normalize_update_source("  https://api.github.com/repos/a/b/releases/latest/ ").unwrap(),
        "https://api.github.com/repos/a/b/releases/latest"
    );
    assert_eq!(
        normalize_update_source("https://github.com//a//b/c").unwrap(),
        "https://api.github.com/repos/a/b/releases/latest"
    );
    assert_eq!(normalize_update_source("http://mirror/latest.json").unwrap(), "http://mirror/latest.json");
    assert_eq!(normalize_update_source("   ").unwrap_err(), UpdateSourceError::Empty);
    assert_eq!(normalize_update_source("a/b/c").unwrap_err(), UpdateSourceError::Unsupported);
    assert_eq!(UpdateSourceError::Empty.message(), "更新源为空。");
}

#[test]
fn version_helpers() {
    assert_eq!(normalize_release_version(" v1.2.3 "), "1.2.3");
    assert_eq!(normalize_release_version("V2"), "2");
    assert_eq!(parse_version_triplet("v1.2.3-beta"), Some((1, 2, 3)));
    assert_eq!(parse_version_triplet("1.2"), None);
    assert_eq!(parse_version_triplet("1.x.3"), None);
    assert!(is_newer_version("nightly", "0.3.1"));
    assert!(is_newer_version("1.10.0", "1.9.9"));
    assert!(is_http_url("https://a"));
    assert!(!is_http_url("ftp://a"));
}

#[test]
fn file_names_for_downloads() {
    assert_eq!(sanitize_file_name("..a/b:c?.exe.."), "a_b_c_.exe");
    assert_eq!(
        update_file_name("https://example.test/dl/App-1.0.exe?x=1", Some("1.0"), "0.9"),
        "App-1.0.exe"
    );
    assert_eq!(
        update_file_name("https://example.test/latest", Some("v1.2.0"), "0.9"),
        "CodexTokenUsage-1.2.0-windows-x64-portable.exe"
    );
    assert_eq!(
        update_file_name("https://example.test/latest", None, "0.9.1"),
        "CodexTokenUsage-0.9.1-windows-x64-portable.exe"
    );
}
