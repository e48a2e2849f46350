use wardogs_arty_buddy::update::{
    accept_download, asset_name, ps_quote, release_from_json, unix_swap_script, update_download_url,
    update_url_from_body,
    windows_swap_script, Asset, Release, UpdateCheck, CHECK_AFTER_MS, CHECK_EVERY_MS,
};
use wardogs_arty_buddy::version::{is_newer, parse_version};

#[test]
fn newer_release_compares_by_numbers() {
    assert!(is_newer("v0.7.0", "0.6.0"));
    assert!(is_newer("0.6.1", "0.6.0"));
    assert!(!is_newer("v0.6.0", "0.6.0"));
    assert!(!is_newer("v0.5.9", "0.6.0"));
    assert!(!is_newer("nope", "0.6.0"));
}

#[test]
fn later_minor_beats_more_digits_lexically() {
    assert!(is_newer("v0.10.0", "0.9.0"));
    assert!(!is_newer("v0.9.0", "0.10.0"));
    assert!(is_newer("1.0.0", "0.99.99"));
}

#[test]
fn version_reading_follows_the_tag_rules() {
    assert_eq!(parse_version("  v0.7.0 \n"), Some([0, 7, 0]));
    assert_eq!(parse_version("vv1.2.3"), Some([1, 2, 3]));
    assert_eq!(parse_version("1.2.3.4"), Some([1, 2, 3]));
    assert_eq!(parse_version("+1.2.3"), Some([1, 2, 3]));
    assert_eq!(parse_version("1.2"), None);
    assert_eq!(parse_version("1..3"), None);
    assert_eq!(parse_version("1.2.3-beta"), None);
    assert_eq!(parse_version("-1.2.3"), None);
    assert_eq!(parse_version("4294967295.0.0"), Some([4294967295, 0, 0]));
    assert_eq!(parse_version("4294967296.0.0"), None);
    assert_eq!(parse_version(""), None);
}

#[test]
fn no_tag_is_newer_than_itself() {
    for tag in ["v0.7.0", "1.2.3", "nope", ""] {
        assert!(!is_newer(tag, tag));
    }
}

#[test]
fn asset_names_per_platform() {
    assert_eq!(asset_name(true), "wardogs-arty-buddy-windows-x86_64.exe");
    assert_eq!(asset_name(false), "wardogs-arty-buddy-linux-x86_64");
}

fn asset(name: Option<&str>, url: Option<&str>) -> Asset {
    Asset {
        name: name.map(str::to_owned),
        download_url: url.map(str::to_owned),
    }
}

#[test]
fn update_url_picks_the_first_matching_asset_with_an_address() {
    let release = Release {
        tag_name: Some("v0.8.0".to_owned()),
        assets: Some(vec![
            asset(Some("other"), Some("https://x/other")),
            asset(Some("wardogs-arty-buddy-linux-x86_64"), None),
            asset(None, Some("https://x/nameless")),
            asset(Some("wardogs-arty-buddy-linux-x86_64"), Some("https://x/linux")),
            asset(Some("wardogs-arty-buddy-linux-x86_64"), Some("https://x/second")),
        ]),
    };
    assert_eq!(
        update_download_url(&release, "0.7.0", "wardogs-arty-buddy-linux-x86_64"),
        Some("https://x/linux".to_owned())
    );
    assert_eq!(update_download_url(&release, "0.8.0", "wardogs-arty-buddy-linux-x86_64"), None);
    assert_eq!(update_download_url(&release, "0.7.0", "missing"), None);
}

#[test]
fn update_url_needs_a_tag_and_assets() {
    let untagged = Release {
        tag_name: None,
        assets: Some(vec![asset(Some("a"), Some("u"))]),
    };
    assert_eq!(update_download_url(&untagged, "0.1.0", "a"), None);
    let bare = Release {
        tag_name: Some("v9.0.0".to_owned()),
        assets: None,
    };
    assert_eq!(update_download_url(&bare, "0.1.0", "a"), None);
}

#[test]
fn small_downloads_are_dropped() {
    assert!(!accept_download(999_999));
    assert!(accept_download(1_000_000));
    assert!(accept_download(25_000_000));
}

#[test]
fn schedule_waits_then_spaces_checks() {
    let mut check = UpdateCheck::new();
    assert!(!check.poll(CHECK_AFTER_MS - 1));
    assert!(check.poll(CHECK_AFTER_MS));
    assert!(check.is_running());
    assert!(!check.poll(CHECK_AFTER_MS + CHECK_EVERY_MS * 2));
    check.finish();
    assert!(!check.is_running());
    assert!(!check.poll(CHECK_AFTER_MS + CHECK_EVERY_MS - 1));
    assert!(check.poll(CHECK_AFTER_MS + CHECK_EVERY_MS));
}

#[test]
fn powershell_quotes_double_single_quotes() {
    assert_eq!(ps_quote("C:\\Apps\\buddy.exe"), "'C:\\Apps\\buddy.exe'");
    assert_eq!(ps_quote("C:\\Dave's\\b.exe"), "'C:\\Dave''s\\b.exe'");
    assert_eq!(ps_quote(""), "''");
}

#[test]
fn swap_scripts_carry_the_pid_and_paths() {
    assert_eq!(
        unix_swap_script(4021, "/opt/b.update", "/opt/b"),
        "i=0; while kill -0 4021 2>/dev/null && [ \"$i\" -lt 150 ]; do sleep 0.2; i=$((i+1)); done; \
         mv -f '/opt/b.update' '/opt/b'; chmod +x '/opt/b'; nohup '/opt/b' >/dev/null 2>&1 &"
    );
    assert_eq!(
        windows_swap_script(0, "C:\\b.update", "C:\\it's.exe"),
        "$deadline = (Get-Date).AddSeconds(30); \
         while ((Get-Process -Id 0 -ErrorAction SilentlyContinue) -and ((Get-Date) -lt $deadline)) { Start-Sleep -Milliseconds 200 }; \
         Move-Item -LiteralPath 'C:\\b.update' -Destination 'C:\\it''s.exe' -Force; \
         Start-Process -FilePath 'C:\\it''s.exe'"
    );
}

#[test]
fn update_url_from_the_release_json() {
    let body = r#"{
        "tag_name": "v0.8.0",
        "assets": [
            {"name": "wardogs-arty-buddy-windows-x86_64.exe", "browser_download_url": "https://x/win"},
            {"name": 7, "browser_download_url": "https://x/odd"},
            {"name": "wardogs-arty-buddy-linux-x86_64", "browser_download_url": "https://x/linux"}
        ]
    }"#;
    assert_eq!(
        update_url_from_body(body, "0.7.0", "wardogs-arty-buddy-linux-x86_64"),
        Some("https://x/linux".to_owned())
    );
    assert_eq!(
        update_url_from_body(body, "0.7.0", "wardogs-arty-buddy-windows-x86_64.exe"),
        Some("https://x/win".to_owned())
    );
    assert_eq!(update_url_from_body(body, "0.8.0", "wardogs-arty-buddy-linux-x86_64"), None);
    assert_eq!(update_url_from_body("not json", "0.1.0", "a"), None);
    assert_eq!(update_url_from_body(r#"{"tag_name": 8, "assets": []}"#, "0.1.0", "a"), None);
}

#[test]
fn release_listing_reads_strings_only() {
    let release = release_from_json(
        r#"{"tag_name": "v1.0.0", "assets": [{"name": "a", "browser_download_url": null}, {}]}"#,
    )
    .unwrap();
    assert_eq!(release.tag_name.as_deref(), Some("v1.0.0"));
    let assets = release.assets.unwrap();
    assert_eq!(assets.len(), 2);
    assert_eq!(assets[0].name.as_deref(), Some("a"));
    assert_eq!(assets[0].download_url, None);
    assert_eq!(assets[1].name, None);
    assert!(release_from_json("[1, 2").is_none());
    let bare = release_from_json("[1, 2]").unwrap();
    assert!(bare.tag_name.is_none() && bare.assets.is_none());
}
