use cargo_tsn::publish::{
    archive_path, asset_file_name, assets_to_replace, format_timestamp, get_codeberg_base_url,
    is_excluded_entry, package_version, parse_publish_selection, publish_menu_lines, published_tsnps,
    release_asset_url, release_assets_url, release_body, release_by_tag_url, release_display_url,
    release_page, release_tag, release_title, releases_api_url, repo_page, select_release,
    split_release_tag, str_less, AssetRecord, DownloadError, PublishSelection, ReleaseRecord,
};

fn asset(id: i64, name: &str) -> AssetRecord {
    AssetRecord { id, name: name.to_string(), url: format!("https://files/{}", id) }
}

fn release(tag: &str, date: &str, assets: Option<Vec<AssetRecord>>) -> ReleaseRecord {
    ReleaseRecord { tag_name: tag.to_string(), published_at: date.to_string(), assets }
}

#[test]
fn forge_addresses() {
    assert_eq!(get_codeberg_base_url("https://codeberg.org/api/v1"), "https://codeberg.org");
    assert_eq!(get_codeberg_base_url("https://git.example"), "https://git.example");
    assert_eq!(repo_page("https://codeberg.org", "tsnp", "tsnp"), "https://codeberg.org/tsnp/tsnp");
    assert_eq!(
        release_page("https://codeberg.org", "u", "r", "crypto-1.0.0"),
        "https://codeberg.org/u/r/releases/tag/crypto-1.0.0"
    );
    let api = "https://codeberg.org/api/v1";
    assert_eq!(releases_api_url(api, "u", "r"), "https://codeberg.org/api/v1/repos/u/r/releases");
    assert_eq!(
        release_by_tag_url(api, "u", "r", "crypto-1.0.0"),
        "https://codeberg.org/api/v1/repos/u/r/releases/tags/crypto-1.0.0"
    );
    assert_eq!(release_assets_url(api, "u", "r", 42), "https://codeberg.org/api/v1/repos/u/r/releases/42/assets");
    assert_eq!(
        release_asset_url(api, "u", "r", 42, -7),
        "https://codeberg.org/api/v1/repos/u/r/releases/42/assets/-7"
    );
}

#[test]
fn displayed_release_address() {
    assert_eq!(
        release_display_url("https://codeberg.org/api/v1/repos/u/r/releases/5", "b", "u", "r", "t"),
        "https://codeberg.org/u/r/releases/tag/5"
    );
    assert_eq!(release_display_url("", "https://codeberg.org", "u", "r", "x-1"), "https://codeberg.org/u/r/releases/tag/x-1");
}

#[test]
fn release_names_and_texts() {
    assert_eq!(release_tag("crypto", "1.2.0"), "crypto-1.2.0");
    assert_eq!(asset_file_name("crypto", "1.2.0"), "crypto-1.2.0.zip");
    assert_eq!(release_title("crypto", "1.2.0"), "crypto v1.2.0");
    assert_eq!(release_body("crypto", "1.2.0", "me"), "Plugin: crypto\nVersion: 1.2.0\nAuthor: me");
    assert_eq!(package_version(Some("2.0.1".to_string())), "2.0.1");
    assert_eq!(package_version(None), "0.1.0");
}

#[test]
fn timestamps_keep_their_date() {
    assert_eq!(format_timestamp("2024-05-01T10:00:00Z"), "2024-05-01");
    assert_eq!(format_timestamp("2024-05-01"), "2024-05-01");
    assert_eq!(format_timestamp("T"), "");
    let d = format_timestamp("2023-12-31T23:59:59+01:00");
    assert!("2023-12-31T23:59:59+01:00".starts_with(&d));
    assert!(!d.contains('T'));
}

#[test]
fn tags_split_at_the_last_dash() {
    assert_eq!(split_release_tag("my-plugin-1.0.0"), Some(("my-plugin".to_string(), "1.0.0".to_string())));
    assert_eq!(split_release_tag("nodash"), None);
    assert_eq!(split_release_tag("-"), Some((String::new(), String::new())));
    let tag = release_tag("http-client", "0.3.1");
    assert_eq!(split_release_tag(&tag), Some(("http-client".to_string(), "0.3.1".to_string())));
    assert_eq!(split_release_tag(&release_tag("a", "1-rc")), Some(("a-1".to_string(), "rc".to_string())));
}

#[test]
fn published_plugins_from_releases() {
    let releases = vec![
        release("crypto-1.0.0", "2024-01-02T03:04:05Z", None),
        release("notag", "2024-01-01T00:00:00Z", None),
        release("http-client-0.2.0", "2024-02-03", Some(vec![])),
    ];
    assert_eq!(
        published_tsnps(&releases),
        vec![
            ("crypto".to_string(), "1.0.0".to_string(), "2024-01-02".to_string()),
            ("http-client".to_string(), "0.2.0".to_string(), "2024-02-03".to_string()),
        ]
    );
}

#[test]
fn dates_compare_as_strings() {
    assert!(str_less("2024-01-01", "2024-01-02"));
    assert!(str_less("2024", "2024-01"));
    assert!(!str_less("2024-01-02", "2024-01-02"));
    assert!(!str_less("b", "a"));
    assert!(str_less("", "a"));
}

fn chosen(r: Result<cargo_tsn::publish::ReleaseChoice, DownloadError>) -> (String, String) {
    match r {
        Ok(c) => (c.version, c.asset_url),
        Err(_) => panic!("no release chosen"),
    }
}

#[test]
fn the_newest_release_is_downloaded() {
    let releases = vec![
        release("crypto-1.0.0", "2024-01-01T00:00:00Z", Some(vec![asset(1, "crypto-1.0.0.zip")])),
        release("crypto-1.2.0", "2024-03-01T00:00:00Z", Some(vec![asset(9, "x.zip"), asset(2, "crypto-1.2.0.zip")])),
        release("crypto-1.1.0", "2024-02-01T00:00:00Z", Some(vec![asset(3, "crypto-1.1.0.zip")])),
        release("http-9.0.0", "2025-01-01T00:00:00Z", Some(vec![asset(4, "http-9.0.0.zip")])),
    ];
    assert_eq!(
        chosen(select_release(&releases, "crypto", None)),
        ("1.2.0".to_string(), "https://files/2".to_string())
    );
    assert_eq!(
        chosen(select_release(&releases, "crypto", Some("1.1.0"))),
        ("1.1.0".to_string(), "https://files/3".to_string())
    );
    assert!(matches!(select_release(&releases, "fs", None), Err(DownloadError::NoRelease)));
    assert!(matches!(select_release(&releases, "crypto", Some("3.0.0")), Err(DownloadError::NoRelease)));
}

#[test]
fn ties_go_to_the_first_listed() {
    let releases = vec![
        release("os-1.0.0", "2024-01-01", Some(vec![asset(1, "os-1.0.0.zip")])),
        release("os-1.0.1", "2024-01-01", Some(vec![asset(2, "os-1.0.1.zip")])),
    ];
    assert_eq!(chosen(select_release(&releases, "os", None)), ("1.0.0".to_string(), "https://files/1".to_string()));
}

#[test]
fn download_errors() {
    let no_assets = vec![release("os-1.0.0", "2024", None)];
    assert!(matches!(select_release(&no_assets, "os", None), Err(DownloadError::NoAssets)));
    let wrong_asset = vec![release("os-1.0.0", "2024", Some(vec![asset(1, "other.zip")]))];
    match select_release(&wrong_asset, "os", None) {
        Err(DownloadError::AssetNotFound(name)) => assert_eq!(name, "os-1.0.0.zip"),
        _ => panic!("the missing archive is not reported"),
    }
}

#[test]
fn publish_menu_and_choice() {
    let plugins = vec!["crypto".to_string(), "http".to_string()];
    assert_eq!(publish_menu_lines(&plugins), vec!["[1] crypto", "[2] http"]);
    assert_eq!(parse_publish_selection(" q\n", 2), PublishSelection::Cancel);
    assert_eq!(parse_publish_selection("a", 2), PublishSelection::All);
    assert_eq!(parse_publish_selection("2\n", 2), PublishSelection::One(1));
    assert_eq!(parse_publish_selection("+1", 2), PublishSelection::One(0));
    assert_eq!(parse_publish_selection("0", 2), PublishSelection::Invalid);
    assert_eq!(parse_publish_selection("3", 2), PublishSelection::Invalid);
    assert_eq!(parse_publish_selection("A", 2), PublishSelection::Invalid);
    assert_eq!(parse_publish_selection("", 0), PublishSelection::Invalid);
}

#[test]
fn archive_contents() {
    assert!(is_excluded_entry("target"));
    assert!(is_excluded_entry(".git"));
    assert!(is_excluded_entry(".gitignore"));
    assert!(!is_excluded_entry("src"));
    assert_eq!(archive_path("crypto\\src\\lib.rs"), "crypto/src/lib.rs");
    assert_eq!(archive_path("crypto/ts-native.toml"), "crypto/ts-native.toml");
}

#[test]
fn old_archives_are_replaced() {
    let assets = vec![asset(1, "os-1.0.0.zip"), asset(2, "notes.txt"), asset(3, "os-1.0.0.zip")];
    assert_eq!(assets_to_replace(&assets, "os-1.0.0.zip"), vec![1, 3]);
    assert_eq!(assets_to_replace(&assets, "none.zip"), Vec::<i64>::new());
}
