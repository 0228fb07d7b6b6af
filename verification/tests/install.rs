use codex_token_usage::install::{
    check_download, check_update_package, desktop_shortcut_script, download_address,
    is_large_enough, partial_download_name, release_page_target, update_info_for_empty_source,
    update_info_from_reply, update_request, updater_script, PackageError, UpdateCheckError,
    MIN_PACKAGE_BYTES,
};
use codex_token_usage::update::UpdateSourceError;

#[test]
fn download_checks_size_and_completeness() {
    assert_eq!(check_download(200_000, Some(200_000)), Ok(()));
    assert_eq!(check_download(200_000, None), Ok(()));
    assert_eq!(
        check_download(100, Some(200)),
        Err(PackageError::Incomplete { downloaded: 100, total: 200 })
    );
    assert_eq!(check_download(1_000, Some(1_000)), Err(PackageError::DownloadTooSmall));
    assert_eq!(check_download(MIN_PACKAGE_BYTES - 1, None), Err(PackageError::DownloadTooSmall));
    assert_eq!(check_download(MIN_PACKAGE_BYTES, None), Ok(()));
    assert_eq!(
        PackageError::Incomplete { downloaded: 100, total: 200 }.message(""),
        "下载大小不完整：100/200 bytes"
    );
}

#[test]
fn update_packages_are_checked_in_order() {
    assert_eq!(check_update_package(false, false, None, 0), Err(PackageError::OutsideCache));
    assert_eq!(check_update_package(true, false, Some("exe"), 500_000), Err(PackageError::Missing));
    assert_eq!(check_update_package(true, true, Some("zip"), 500_000), Err(PackageError::NotExe));
    assert_eq!(check_update_package(true, true, None, 500_000), Err(PackageError::NotExe));
    assert_eq!(
        check_update_package(true, true, Some("EXE"), 1_000),
        Err(PackageError::PackageTooSmall)
    );
    assert_eq!(check_update_package(true, true, Some("Exe"), 500_000), Ok(()));
    assert_eq!(PackageError::Missing.message("C:\\x.exe"), "更新包不存在：C:\\x.exe");
    assert!(is_large_enough(131_072));
    assert!(!is_large_enough(131_071));
}

#[test]
fn download_addresses_and_release_pages_must_be_http() {
    assert_eq!(
        download_address("  https://example.com/a.exe  "),
        Ok("https://example.com/a.exe".to_string())
    );
    assert_eq!(download_address("ftp://example.com/a.exe"), Err(PackageError::NotHttp));
    assert_eq!(PackageError::NotHttp.message(""), "下载地址必须是 http 或 https。");
    assert_eq!(partial_download_name("a.exe"), "a.exe.download");
    assert_eq!(
        release_page_target(" http://example.com/r "),
        Some("http://example.com/r".to_string())
    );
    assert_eq!(release_page_target("file:///etc/passwd"), None);
}

#[test]
fn update_requests_follow_the_source() {
    assert_eq!(update_request("   "), None);
    assert_eq!(
        update_request(" DonaldL81/codex-token-usage "),
        Some(Ok("https://api.github.com/repos/DonaldL81/codex-token-usage/releases/latest".to_string()))
    );
    assert_eq!(update_request("not a repo"), Some(Err(UpdateSourceError::Unsupported)));

    let empty = update_info_for_empty_source("1.2.3");
    assert_eq!(empty.current_version, "1.2.3");
    assert_eq!(empty.source, "");
    assert!(!empty.has_update);
    assert_eq!(empty.message, "默认更新源为空，暂时无法检查更新。");
}

#[test]
fn release_replies_are_read() {
    let body = r#"{"tag_name":"v1.3.0","name":"Release 1.3.0","published_at":"2026-07-01T00:00:00Z","body":"notes","html_url":"https://github.com/o/r/releases/tag/v1.3.0","assets":[{"name":"CodexTokenUsage-1.3.0-windows-x64-portable.exe","browser_download_url":"https://example.com/p.exe","size":300000}]}"#;
    let Ok(info) = update_info_from_reply(" o/r ", "1.2.0", body) else { panic!("reply not read") };
    assert_eq!(info.source, "o/r");
    assert_eq!(info.latest_version.as_deref(), Some("1.3.0"));
    assert_eq!(info.release_name.as_deref(), Some("Release 1.3.0"));
    assert_eq!(info.published_at.as_deref(), Some("2026-07-01T00:00:00Z"));
    assert_eq!(info.release_notes.as_deref(), Some("notes"));
    assert_eq!(info.download_url.as_deref(), Some("https://example.com/p.exe"));
    assert_eq!(info.release_page_url.as_deref(), Some("https://github.com/o/r/releases/tag/v1.3.0"));
    assert!(info.has_update);
    assert_eq!(info.message, "发现新版本 1.3.0");

    let Ok(same) = update_info_from_reply("o/r", "1.3.0", body) else { panic!("reply not read") };
    assert!(!same.has_update);
    assert_eq!(same.message, "当前已是最新版本 1.3.0");

    assert_eq!(
        update_info_from_reply("o/r", "1.0.0", "not json").err(),
        Some(UpdateCheckError::InvalidReply)
    );
    assert_eq!(
        update_info_from_reply("o/r", "1.0.0", r#"{"name":"x"}"#).err(),
        Some(UpdateCheckError::MissingTag)
    );
    assert_eq!(
        UpdateCheckError::MissingTag.message(),
        "更新源响应中没有 tag_name，当前仅支持 GitHub Latest Release 格式。"
    );
}

#[test]
fn shortcut_script_quotes_paths() {
    let script = desktop_shortcut_script("C:\\Bob's\\app.exe", "C:\\Bob's");
    assert!(script.contains("$shortcut.TargetPath = 'C:\\Bob''s\\app.exe';"));
    assert!(script.contains("$shortcut.WorkingDirectory = 'C:\\Bob''s';"));
    assert!(script.contains("$shortcut.IconLocation = 'C:\\Bob''s\\app.exe,0';"));
    assert!(script.starts_with("$desktop = [Environment]::GetFolderPath"));
    assert!(updater_script().contains("[Parameter(Mandatory = $true)][string]$Source"));
}
