//! The settings of a named deployment profile in the host build manifest.

use vstd::prelude::*;
use crate::json::{JsonValue, field_of, str_field_of};

verus! {

/// Why a profile's settings could not be read.
#[derive(PartialEq, Eq, Structural, Debug, Clone, Copy)]
pub enum ProfileError {
    /// `tool.dojo.<profile>` is absent or not a table.
    MissingProfile,
    /// The profile has no string `rpc_url`.
    MissingRpcUrl,
    /// The profile has no string `world_address`.
    MissingWorldAddress,
}

/// The RPC endpoint and the world address of a profile.
#[derive(Debug)]
pub struct ProfileSettings {
    pub rpc_url: String,
    pub world_address: String,
}

/// The table `tool.dojo.<profile>` of a build manifest, when present.
pub open spec fn profile_table(config: JsonValue, profile: Seq<char>) -> Option<JsonValue> {
    match field_of(config, "tool"@) {
        Some(tool) => match field_of(tool, "dojo"@) {
            Some(dojo) => match field_of(dojo, profile) {
                Some(JsonValue::Object(m)) => Some(JsonValue::Object(m)),
                _ => None,
            },
            None => None,
        },
        None => None,
    }
}

/// The endpoint and world address of a profile, or the first thing missing.
pub open spec fn profile_settings_of(config: JsonValue, profile: Seq<char>) -> Result<
    (Seq<char>, Seq<char>),
    ProfileError,
> {
    match profile_table(config, profile) {
        None => Err(ProfileError::MissingProfile),
        Some(t) => match str_field_of(t, "rpc_url"@) {
            None => Err(ProfileError::MissingRpcUrl),
            Some(url) => match str_field_of(t, "world_address"@) {
                None => Err(ProfileError::MissingWorldAddress),
                Some(world) => Ok((url, world)),
            },
        },
    }
}

/// Reads the RPC endpoint and world address of `profile` from a build manifest.
pub fn profile_settings(config: &JsonValue, profile: &str) -> (r: Result<ProfileSettings, ProfileError>)
    ensures
        match profile_settings_of(*config, profile@) {
            Ok((url, world)) => r is Ok && r->Ok_0.rpc_url@ == url && r->Ok_0.world_address@
                == world,
            Err(e) => r is Err && r->Err_0 == e,
        },
{
    let tool = match config.field("tool") {
        Some(t) => t,
        None => {
            return Err(ProfileError::MissingProfile);
        },
    };
    let dojo = match tool.field("dojo") {
        Some(d) => d,
        None => {
            return Err(ProfileError::MissingProfile);
        },
    };
    let table = match dojo.field(profile) {
        Some(t) => t,
        None => {
            return Err(ProfileError::MissingProfile);
        },
    };
    if !matches!(table, JsonValue::Object(_)) {
        return Err(ProfileError::MissingProfile);
    }
    let rpc_url = match table.str_field("rpc_url") {
        Some(u) => String::from_str(u),
        None => {
            return Err(ProfileError::MissingRpcUrl);
        },
    };
    let world_address = match table.str_field("world_address") {
        Some(w) => String::from_str(w),
        None => {
            return Err(ProfileError::MissingWorldAddress);
        },
    };
    Ok(ProfileSettings { rpc_url, world_address })
}

} // verus!
