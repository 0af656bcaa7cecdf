//! Self-update decisions for a managed binary.
//!
//! The surrounding program queries the binary for its version and the
//! release API for the latest tag; this module decides, from those
//! plain strings, whether an update is due and which action applies —
//! running the binary's own update sub-command, or downloading a
//! matching asset.

use vstd::prelude::*;

use crate::chars::{
    line_end, line_end_exec, nonspace_run_end, nonspace_run_end_exec, space_run_end,
    space_run_end_exec, str_eq,
};
use crate::release::{assets_view, find_asset, first_match, Asset, ReleaseInfo};
use crate::version::{lex_lt, parse_version, spec_parse_version, Version};

verus! {

/// The update trigger: when both strings parse as date-shaped versions
/// they are compared numerically; otherwise any difference between the
/// raw strings triggers an update, so that comparison failure never
/// yields a false "up to date".
pub open spec fn spec_need_update(cur: Seq<char>, lat: Seq<char>) -> bool {
    match (spec_parse_version(cur), spec_parse_version(lat)) {
        (Some(a), Some(b)) => lex_lt(a, b),
        _ => cur != lat,
    }
}

/// Is the latest release newer than the current version? Numeric when
/// both parse, raw string inequality otherwise.
pub fn need_update(current: &str, latest: &str) -> (r: bool)
    ensures
        r == spec_need_update(current@, latest@),
{
    let c = parse_version(current);
    let l = parse_version(latest);
    match (c, l) {
        (Some(a), Some(b)) => crate::version::compare(&a, &b) < 0,
        _ => !str_eq(current, latest),
    }
}

/// A version string equal to the latest tag never triggers an update,
/// whether or not it parses.
pub proof fn lemma_no_update_when_equal(s: Seq<char>)
    ensures
        !spec_need_update(s, s),
{
}

/// When numeric comparison is impossible, any difference between the
/// raw strings triggers an update.
pub proof fn lemma_fallback_triggers_on_difference(cur: Seq<char>, lat: Seq<char>)
    requires
        spec_parse_version(cur) is None || spec_parse_version(lat) is None,
        cur != lat,
    ensures
        spec_need_update(cur, lat),
{
}

/// The third whitespace-separated token of the first line of `s`,
/// with whitespace the ASCII set of `chars::is_space`; empty when the
/// line has fewer than three tokens.
pub open spec fn spec_third_token(s: Seq<char>) -> Seq<char> {
    let l = s.subrange(0, line_end(s, 0));
    let a1 = space_run_end(l, 0);
    let e1 = nonspace_run_end(l, a1);
    let a2 = space_run_end(l, e1);
    let e2 = nonspace_run_end(l, a2);
    let a3 = space_run_end(l, e2);
    let e3 = nonspace_run_end(l, a3);
    l.subrange(a3, e3)
}

/// The version token of a muxer's version report: the third word of
/// its first output line.
pub fn third_token<'a>(s: &'a str) -> (r: &'a str)
    ensures
        r@ == spec_third_token(s@),
{
    let e = line_end_exec(s, 0);
    let l = s.substring_char(0, e);
    let a1 = space_run_end_exec(l, 0);
    let e1 = nonspace_run_end_exec(l, a1);
    let a2 = space_run_end_exec(l, e1);
    let e2 = nonspace_run_end_exec(l, a2);
    let a3 = space_run_end_exec(l, e2);
    let e3 = nonspace_run_end_exec(l, a3);
    l.substring_char(a3, e3)
}

/// What a version check concludes for a binary that updates itself.
#[derive(Clone, Copy, Debug, PartialEq, Eq, Structural)]
pub enum BinaryUpdatePlan {
    /// The current binary is up to date; nothing to do.
    UpToDate,
    /// Invoke the binary's own update sub-command.
    RunSelfUpdate,
}

/// Decide whether to run the managed binary's self-update sub-command.
pub fn plan_self_update(current: &str, latest_tag: &str) -> (r: BinaryUpdatePlan)
    ensures
        r == (if spec_need_update(current@, latest_tag@) {
            BinaryUpdatePlan::RunSelfUpdate
        } else {
            BinaryUpdatePlan::UpToDate
        }),
{
    if need_update(current, latest_tag) {
        BinaryUpdatePlan::RunSelfUpdate
    } else {
        BinaryUpdatePlan::UpToDate
    }
}

/// What a version check concludes for a binary replaced from a release
/// asset.
pub enum AssetUpdatePlan {
    /// The reported version equals the latest tag; nothing to do.
    UpToDate,
    /// Download this asset and replace the binary from it.
    Download(Asset),
    /// An update is due but no listed asset matches the platform; the
    /// existing binary is left untouched.
    NoMatchingAsset,
}

/// Decide how to update a binary that is replaced from an asset: equal
/// strings mean up to date; otherwise the first platform-matching
/// asset is downloaded, and its absence leaves the binary untouched.
pub fn plan_asset_update(current: &str, info: &ReleaseInfo, needle: &str, suffix: &str) -> (r:
    AssetUpdatePlan)
    ensures
        current@ == info.tag@ ==> r matches AssetUpdatePlan::UpToDate,
        current@ != info.tag@ ==> match first_match(assets_view(info.assets@), needle@, suffix@) {
            Some(i) => r matches AssetUpdatePlan::Download(a) && a@ == assets_view(info.assets@)[i],
            None => r matches AssetUpdatePlan::NoMatchingAsset,
        },
{
    if str_eq(current, info.tag.as_str()) {
        AssetUpdatePlan::UpToDate
    } else {
        match find_asset(&info.assets, needle, suffix) {
            Some(a) => AssetUpdatePlan::Download(a),
            None => AssetUpdatePlan::NoMatchingAsset,
        }
    }
}

} // verus!
