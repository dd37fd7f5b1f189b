//! Building the metadata endpoint's request URLs.

use vstd::prelude::*;
use vstd::string::StringExecFns;
use crate::fmt::dec_of;
use crate::fmt::u64_to_dec;

verus! {

/// The URL asking for an asset's latest-version metadata.
pub open spec fn latest_url(asset_id: u64) -> Seq<char> {
    "https://assetdelivery.roblox.com/v2/asset?id="@ + dec_of(asset_id as nat)
}

/// The URL asking for one specific version's metadata.
pub open spec fn version_url(asset_id: u64, version: u32) -> Seq<char> {
    latest_url(asset_id) + "&version="@ + dec_of(version as nat)
}

/// Build the metadata request URL: for the latest version when
/// `version` is absent, else for exactly that version.
pub fn asset_url(asset_id: u64, version: Option<u32>) -> (s: String)
    ensures
        match version {
            None => s@ == latest_url(asset_id),
            Some(v) => s@ == version_url(asset_id, v),
        },
{
    let mut s = String::new();
    s.append("https://assetdelivery.roblox.com/v2/asset?id=");
    let id = u64_to_dec(asset_id);
    s.append(id.as_str());
    match version {
        None => {
            assert(s@ =~= latest_url(asset_id));
            s
        },
        Some(v) => {
            s.append("&version=");
            let vd = u64_to_dec(v as u64);
            s.append(vd.as_str());
            assert(s@ =~= version_url(asset_id, v));
            s
        },
    }
}

} // verus!
