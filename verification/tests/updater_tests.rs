use vidfetch::release::{Asset, ReleaseInfo};
use vidfetch::updater::{
    need_update, plan_asset_update, plan_self_update, third_token, AssetUpdatePlan,
    BinaryUpdatePlan,
};

#[test]
fn older_current_version_triggers_update() {
    assert!(need_update("2024.01.01", "2024.02.10"));
}

#[test]
fn equal_versions_do_not_trigger_update() {
    assert!(!need_update("2024.02.10", "2024.02.10"));
}

#[test]
fn unparsable_current_falls_back_to_string_inequality() {
    assert!(need_update("nightly", "2024.02.10"));
    assert!(!need_update("nightly", "nightly"));
}

#[test]
fn newer_current_version_does_not_trigger_update() {
    assert!(!need_update("2024.03.01", "2024.02.10"));
}

#[test]
fn numeric_comparison_ignores_trailing_text() {
    assert!(need_update("2024.1.5 (stable)", "2024.1.6 (stable)"));
}

#[test]
fn plan_self_update_follows_need_update() {
    assert_eq!(plan_self_update("2024.01.01", "2024.02.10"), BinaryUpdatePlan::RunSelfUpdate);
    assert_eq!(plan_self_update("2024.02.10", "2024.02.10"), BinaryUpdatePlan::UpToDate);
}

#[test]
fn third_token_reads_muxer_version_line() {
    let report = "ffmpeg version n7.0-27 Copyright (c) 2000 the FFmpeg developers\n\
        built with gcc\n";
    assert_eq!(third_token(report), "n7.0-27");
}

#[test]
fn third_token_is_empty_when_line_is_short() {
    assert_eq!(third_token("ffmpeg version\nmore here"), "");
    assert_eq!(third_token(""), "");
}

#[test]
fn third_token_stays_on_first_line() {
    assert_eq!(third_token("a b\nc d e f"), "");
}

fn release(tag: &str, assets: Vec<Asset>) -> ReleaseInfo {
    ReleaseInfo { tag: tag.to_string(), assets }
}

#[test]
fn matching_tag_means_up_to_date() {
    let info = release("autobuild-1", Vec::new());
    assert!(matches!(
        plan_asset_update("autobuild-1", &info, "win64", ".zip"),
        AssetUpdatePlan::UpToDate
    ));
}

#[test]
fn differing_tag_downloads_matching_asset() {
    let info = release(
        "autobuild-2",
        vec![
            Asset { name: "sums.txt".to_string(), url: "http://example.com/s".to_string() },
            Asset {
                name: "ffmpeg-win64-gpl.zip".to_string(),
                url: "http://example.com/f".to_string(),
            },
        ],
    );
    match plan_asset_update("autobuild-1", &info, "win64", ".zip") {
        AssetUpdatePlan::Download(a) => assert_eq!(a.url, "http://example.com/f"),
        _ => panic!("expected a download plan"),
    }
}

#[test]
fn differing_tag_without_matching_asset_leaves_binary() {
    let info = release(
        "autobuild-2",
        vec![Asset { name: "sums.txt".to_string(), url: "http://example.com/s".to_string() }],
    );
    assert!(matches!(
        plan_asset_update("autobuild-1", &info, "win64", ".zip"),
        AssetUpdatePlan::NoMatchingAsset
    ));
}
