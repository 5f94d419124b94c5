//! Build identity.

use vstd::prelude::*;

use crate::text;
use crate::text::trim_spec;

verus! {

/// The package version.
pub const BASE_VERSION: &'static str = "0.6.10-mx.1";

/// The version that users see: the package version with the suffix of the channel and the build.
/// Version-parity checks compare against this one.
pub const FULL_VERSION: &'static str = "0.6.10-mx.1";

/// The release channel that this build names, if it names one.
pub const BUILD_CHANNEL: Option<&'static str> = None;

/// The build id that this build names, if it names one.
pub const BUILD_ID: Option<&'static str> = None;

/// The trimmed text of a build setting; a blank one counts as none.
pub open spec fn non_empty_spec(value: Option<Seq<char>>) -> Option<Seq<char>> {
    match value {
        Some(v) => if trim_spec(v).len() == 0 {
            None
        } else {
            Some(trim_spec(v))
        },
        None => None,
    }
}

fn non_empty(value: Option<&'static str>) -> (r: Option<&'static str>)
    ensures
        r.deep_view() == non_empty_spec(value.deep_view()),
{
    match value {
        Some(v) => {
            let trimmed: &'static str = text::trim(v);
            if trimmed.is_empty() {
                None
            } else {
                Some(trimmed)
            }
        },
        None => None,
    }
}

/// The channel that a build setting names; `stable` where it names none.
pub open spec fn channel_spec(setting: Option<Seq<char>>) -> Seq<char> {
    match non_empty_spec(setting) {
        Some(name) => name,
        None => "stable"@,
    }
}

/// The channel that a build setting names.
pub fn channel_of(setting: Option<&'static str>) -> (r: &'static str)
    ensures
        r@ == channel_spec(setting.deep_view()),
{
    match non_empty(setting) {
        Some(name) => name,
        None => "stable",
    }
}

/// The build id that a build setting names.
pub fn build_id_of(setting: Option<&'static str>) -> (r: Option<&'static str>)
    ensures
        r.deep_view() == non_empty_spec(setting.deep_view()),
{
    non_empty(setting)
}

/// The release channel of this build.
pub fn channel() -> (r: &'static str)
    ensures
        r@ == channel_spec(BUILD_CHANNEL.deep_view()),
{
    channel_of(BUILD_CHANNEL)
}

/// The build id of this build, if it has one.
pub fn build_id() -> (r: Option<&'static str>)
    ensures
        r.deep_view() == non_empty_spec(BUILD_ID.deep_view()),
{
    build_id_of(BUILD_ID)
}

/// The version that users see.
pub fn version() -> (r: String)
    ensures
        r@ == FULL_VERSION@,
{
    FULL_VERSION.to_owned()
}

/// Whether this build belongs to the preview channel.
pub fn is_preview() -> (r: bool)
    ensures
        r == (channel_spec(BUILD_CHANNEL.deep_view()) == "preview"@),
{
    text::same(channel(), "preview")
}

/// The version that users see begins with the package version.
pub proof fn law_full_version_extends_base()
    ensures
        BASE_VERSION@.is_prefix_of(FULL_VERSION@),
{
    assert(FULL_VERSION@ =~= FULL_VERSION@.subrange(0, FULL_VERSION@.len() as int));
}

} // verus!
