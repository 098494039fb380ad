//! Plain data types exchanged with the presentation layer and the protocol
//! decoders.
//!
//! Everything here is a value type: the engine receives already-decoded
//! protocol fields (attribute blobs as raw bytes, option-wrapped scalars) and
//! hands back payload records ready for emission.

use vstd::prelude::*;

verus! {

/// Health of one boss in the current derived boss view.
#[derive(Debug, Clone)]
pub struct BossHealth {
    /// The unique ID of the boss.
    pub uid: i64,
    /// The name of the boss.
    pub name: String,
    /// The current HP of the boss, when known.
    pub current_hp: Option<i64>,
    /// The maximum HP of the boss, when known.
    pub max_hp: Option<i64>,
}

/// One row of the emitted active-buff list.
#[derive(Debug, Clone, Copy, PartialEq, Eq, Structural)]
pub struct BuffUpdateState {
    pub buff_uuid: i32,
    pub base_id: i32,
    pub layer: i32,
    pub duration_ms: i32,
    pub create_time_ms: i64,
    pub source_config_id: i32,
}

/// A buff definition row offered to the subscription picker.
#[derive(Debug, Clone)]
pub struct BuffDefinition {
    pub base_id: i32,
    pub name: String,
    pub sprite_file: String,
    pub talent_name: Option<String>,
    pub talent_sprite_file: Option<String>,
    pub search_keywords: Vec<String>,
}

/// Minimal name info for one buff base id.
#[derive(Debug, Clone)]
pub struct BuffNameInfo {
    pub base_id: i32,
    pub name: String,
    pub has_sprite_file: bool,
}

/// Payload of a `buff-update` emission: the full filtered buff list.
#[derive(Debug, Clone)]
pub struct BuffUpdatePayload {
    pub buffs: Vec<BuffUpdateState>,
}

/// Last-received fight-resource vector.
#[derive(Debug, Clone)]
pub struct FightResourceState {
    /// The full list of resource values.
    pub values: Vec<i64>,
    /// Local timestamp when this state was received.
    pub received_at: i64,
}

/// Payload of a `fight-res-update` emission.
#[derive(Debug, Clone)]
pub struct FightResourceUpdatePayload {
    pub fight_res: FightResourceState,
}

/// Progress report of the module-optimizer subsystem.
#[derive(Debug, Clone, Copy, PartialEq, Eq, Structural)]
pub struct ModuleCalcProgressPayload {
    pub processed: u64,
    pub total: u64,
}

/// One raw attribute: an id paired with an undecoded byte blob.
#[derive(Debug, Clone)]
pub struct RawAttr {
    pub id: Option<i32>,
    pub raw_data: Option<Vec<u8>>,
}

/// One key/value entry of a map-valued attribute.
#[derive(Debug, Clone)]
pub struct RawMapEntry {
    pub key: Option<Vec<u8>>,
    pub value: Option<Vec<u8>>,
}

/// A map-valued attribute: an id with a list of raw key/value entries.
#[derive(Debug, Clone)]
pub struct RawMapAttr {
    pub id: Option<i32>,
    pub attrs: Vec<RawMapEntry>,
}

/// A collection of raw attributes as carried by protocol messages.
#[derive(Debug, Clone)]
pub struct AttrCollection {
    pub attrs: Vec<RawAttr>,
    pub map_attrs: Vec<RawMapAttr>,
}

/// Attribute id whose raw data holds a numeric identifier.
pub const ATTR_ID: i32 = 10;

/// Attribute id of the fixed cooldown reduction modifier.
pub const ATTR_SKILL_CD: i32 = 11750;

/// Attribute id of the percentage cooldown reduction modifier (per-10k units).
pub const ATTR_SKILL_CD_PCT: i32 = 11760;

/// Attribute id of the skill acceleration modifier (per-10k units).
pub const ATTR_CD_ACCELERATE_PCT: i32 = 11960;

} // verus!
