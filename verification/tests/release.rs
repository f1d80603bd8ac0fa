use vertify::update::{
    extract_json_string, is_newer, parse_release_json, select_asset, Platform, ReleaseAsset,
};

#[test]
fn is_newer_detects_upgrade() {
    assert!(is_newer("0.2.0", "0.1.1"));
    assert!(is_newer("1.0.0", "0.9.99"));
    assert!(is_newer("0.1.2", "0.1.1"));
}

#[test]
fn is_newer_equal_is_not_newer() {
    assert!(!is_newer("0.1.1", "0.1.1"));
}

#[test]
fn is_newer_older_is_not_newer() {
    assert!(!is_newer("0.1.0", "0.1.1"));
    assert!(!is_newer("0.0.9", "0.1.0"));
}

#[test]
fn is_newer_strips_v_prefix_and_sha_slug() {
    // Tags look like "v0.2.0-abc1234"
    assert!(is_newer("0.2.0-abc1234", "0.1.1"));
    assert!(!is_newer("0.1.1-xyz9999", "0.1.1"));
}

fn sample_assets() -> Vec<ReleaseAsset> {
    vec![
        ReleaseAsset {
            name: "vertify-v0.2.0-abc-linux-x64.tar.gz".into(),
            browser_download_url: "https://example.com/linux.tar.gz".into(),
        },
        ReleaseAsset {
            name: "vertify-v0.2.0-abc-windows-x64.zip".into(),
            browser_download_url: "https://example.com/windows.zip".into(),
        },
        ReleaseAsset {
            name: "VertifySetup-0.2.0-abc-windows-x64.exe".into(),
            browser_download_url: "https://example.com/setup.exe".into(),
        },
        ReleaseAsset {
            name: "vertify-v0.2.0-abc-macos-arm64.tar.gz".into(),
            browser_download_url: "https://example.com/macos.tar.gz".into(),
        },
    ]
}

#[test]
fn select_asset_finds_platform_archive() {
    let assets = sample_assets();
    assert_eq!(
        select_asset(&assets, Platform::Linux).map(|a| a.name.as_str()),
        Some("vertify-v0.2.0-abc-linux-x64.tar.gz")
    );
    assert_eq!(
        select_asset(&assets, Platform::Windows).map(|a| a.name.as_str()),
        Some("vertify-v0.2.0-abc-windows-x64.zip")
    );
    assert_eq!(
        select_asset(&assets, Platform::Macos).map(|a| a.name.as_str()),
        Some("vertify-v0.2.0-abc-macos-arm64.tar.gz")
    );
}

#[test]
fn select_asset_skips_installer_exe() {
    let assets = vec![ReleaseAsset {
        name: "VertifySetup-0.2.0-abc-windows-x64.exe".into(),
        browser_download_url: "https://example.com/setup.exe".into(),
    }];
    assert!(select_asset(&assets, Platform::Windows).is_none());
}

#[test]
fn parse_release_json_extracts_version_and_assets() {
    let json = r#"{
  "tag_name": "v0.2.0-abc1234",
  "name": "v0.2.0-abc1234",
  "assets": [
    {
      "name": "vertify-v0.2.0-abc1234-linux-x64.tar.gz",
      "browser_download_url": "https://example.com/linux.tar.gz"
    },
    {
      "name": "SHA256SUMS.txt",
      "browser_download_url": "https://example.com/SHA256SUMS.txt"
    }
  ]
}"#;
    let info = parse_release_json(json).unwrap();
    assert_eq!(info.version, "0.2.0");
    assert_eq!(info.assets.len(), 2);
    assert_eq!(
        info.assets[0].name,
        "vertify-v0.2.0-abc1234-linux-x64.tar.gz"
    );
    assert_eq!(
        info.assets[0].browser_download_url,
        "https://example.com/linux.tar.gz"
    );
}

#[test]
fn extract_json_string_handles_basic_key() {
    let json = r#"{"tag_name":"v0.1.1","other":"val"}"#;
    assert_eq!(
        extract_json_string(json, "tag_name").as_deref(),
        Some("v0.1.1")
    );
}

#[test]
fn extract_json_string_returns_none_for_missing_key() {
    let json = r#"{"foo":"bar"}"#;
    assert!(extract_json_string(json, "tag_name").is_none());
}
