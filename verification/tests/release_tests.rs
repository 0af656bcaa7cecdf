use vidfetch::release::{
    find_asset, parse_release_body, Asset, ReleaseError, ReleaseQuery,
};

fn asset(name: &str, url: &str) -> Asset {
    Asset { name: name.to_string(), url: url.to_string() }
}

#[test]
fn find_asset_over_empty_list_returns_nothing() {
    let assets: Vec<Asset> = Vec::new();
    assert!(find_asset(&assets, "win64", ".zip").is_none());
}

#[test]
fn find_asset_returns_single_match_regardless_of_position() {
    let matching = asset("build-win64-gpl.zip", "http://example.com/a");
    for pos in 0..4 {
        let mut assets = vec![
            asset("build-linux64.tar.xz", "http://example.com/1"),
            asset("build-win64-gpl.tar.xz", "http://example.com/2"),
            asset("checksums.txt", "http://example.com/3"),
        ];
        assets.insert(pos, asset(&matching.name, &matching.url));
        let found = find_asset(&assets, "win64", ".zip").unwrap();
        assert_eq!(found.name, matching.name);
        assert_eq!(found.url, matching.url);
    }
}

#[test]
fn find_asset_returns_first_match_in_listed_order() {
    let assets = vec![
        asset("one-win64.zip", "http://example.com/one"),
        asset("two-win64.zip", "http://example.com/two"),
    ];
    let found = find_asset(&assets, "win64", ".zip").unwrap();
    assert_eq!(found.url, "http://example.com/one");
}

#[test]
fn find_asset_matches_case_insensitively() {
    let assets = vec![asset("FFmpeg-N-WIN64-GPL.ZIP", "http://example.com/x")];
    assert!(find_asset(&assets, "win64", ".zip").is_some());
}

#[test]
fn parse_release_body_reads_tag_and_assets() {
    let body = "{\"tag_name\":\"2024.02.10\",\"assets\":[\
        {\"name\":\"a-win64.zip\",\"browser_download_url\":\"http://example.com/a\"},\
        {\"name\":\"b-linux.tar\",\"browser_download_url\":\"http://example.com/b\"}]}";
    match parse_release_body(body).unwrap() {
        ReleaseQuery::Release(info) => {
            assert_eq!(info.tag, "2024.02.10");
            assert_eq!(info.assets.len(), 2);
            assert_eq!(info.assets[0].name, "a-win64.zip");
            assert_eq!(info.assets[1].url, "http://example.com/b");
        }
        ReleaseQuery::NoInfo => panic!("expected a usable release"),
    }
}

#[test]
fn parse_release_body_trims_the_tag() {
    let body = "{\"tag_name\":\"  2024.02.10\\n\"}";
    match parse_release_body(body).unwrap() {
        ReleaseQuery::Release(info) => assert_eq!(info.tag, "2024.02.10"),
        ReleaseQuery::NoInfo => panic!("expected a usable release"),
    }
}

#[test]
fn parse_release_body_rejects_invalid_json() {
    assert_eq!(parse_release_body("not json at all").unwrap_err(), ReleaseError::Parse);
    assert_eq!(parse_release_body("{\"tag_name\":").unwrap_err(), ReleaseError::Parse);
}

#[test]
fn missing_or_blank_tag_is_no_information() {
    assert!(matches!(parse_release_body("{}").unwrap(), ReleaseQuery::NoInfo));
    assert!(matches!(
        parse_release_body("{\"tag_name\":\"\"}").unwrap(),
        ReleaseQuery::NoInfo
    ));
    assert!(matches!(
        parse_release_body("{\"tag_name\":\"   \"}").unwrap(),
        ReleaseQuery::NoInfo
    ));
    assert!(matches!(
        parse_release_body("{\"tag_name\":7}").unwrap(),
        ReleaseQuery::NoInfo
    ));
}

#[test]
fn assets_without_both_fields_are_skipped() {
    let body = "{\"tag_name\":\"v1\",\"assets\":[\
        {\"name\":\"only-name.zip\"},\
        {\"browser_download_url\":\"http://example.com/nameless\"},\
        {\"name\":\"full-win64.zip\",\"browser_download_url\":\"http://example.com/full\"}]}";
    match parse_release_body(body).unwrap() {
        ReleaseQuery::Release(info) => {
            assert_eq!(info.assets.len(), 1);
            assert_eq!(info.assets[0].name, "full-win64.zip");
        }
        ReleaseQuery::NoInfo => panic!("expected a usable release"),
    }
}
