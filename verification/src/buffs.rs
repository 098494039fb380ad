//! Active-buff tracking.
//!
//! Buff deltas arrive as an ordered list of per-instance effect records,
//! each instance identified by a UUID (distinct from the buff's base id,
//! which may repeat). An "add" effect (re)inserts a full record, a "change"
//! effect patches individual fields of a known instance, and a terminal
//! remove marker deletes the instance. After all records are applied, the
//! monitored subset is projected out, sorted by (base id, creation time,
//! UUID) for deterministic output.

use vstd::prelude::*;

use crate::kvlist::{first_key_index, first_key_index_from, keys_unique, kv_get};
use crate::models::BuffUpdateState;

verus! {

broadcast use vstd::seq_lib::group_to_multiset_ensures;

/// One active buff instance, keyed by its per-instance UUID.
#[derive(Debug, Clone, Copy, PartialEq, Eq, Structural)]
pub struct ActiveBuff {
    pub buff_uuid: i32,
    pub base_id: i32,
    pub layer: i32,
    pub duration: i32,
    pub create_time: i64,
    pub source_config_id: i32,
}

/// Decoded fields of an "add" effect.
#[derive(Debug, Clone, Copy, PartialEq, Eq, Structural)]
pub struct BuffAddInfo {
    pub base_id: Option<i32>,
    pub layer: Option<i32>,
    pub duration: Option<i32>,
    pub create_time: Option<i64>,
    pub source_config_id: Option<i32>,
}

/// Decoded fields of a "change" effect; only present fields overwrite.
#[derive(Debug, Clone, Copy, PartialEq, Eq, Structural)]
pub struct BuffChangeInfo {
    pub layer: Option<i32>,
    pub duration: Option<i32>,
    pub create_time: Option<i64>,
}

/// One decoded logic effect of a buff instance. Effects of unknown type or
/// with an undecodable payload are carried as `Other` and skipped.
#[derive(Debug, Clone, Copy, PartialEq, Eq, Structural)]
pub enum BuffLogicEffect {
    Add(BuffAddInfo),
    Change(BuffChangeInfo),
    Other,
}

/// All decoded effects of one buff instance, with its terminal remove marker.
#[derive(Debug, Clone)]
pub struct BuffEffectRecord {
    pub buff_uuid: Option<i32>,
    pub effects: Vec<BuffLogicEffect>,
    pub is_remove: bool,
}

/// Pairwise-distinct instance UUIDs.
pub open spec fn buffs_unique(s: Seq<ActiveBuff>) -> bool {
    forall|i: int, j: int| 0 <= i < j < s.len() ==> s[i].buff_uuid != s[j].buff_uuid
}

/// Index of the first instance with the given UUID, or `-1`.
pub open spec fn buff_index_from(s: Seq<ActiveBuff>, uuid: i32, i: int) -> int
    decreases s.len() - i,
{
    if i < 0 || i >= s.len() {
        -1
    } else if s[i].buff_uuid == uuid {
        i
    } else {
        buff_index_from(s, uuid, i + 1)
    }
}

/// A scan that found no instance saw the UUID nowhere.
pub proof fn lemma_buff_index_none(s: Seq<ActiveBuff>, uuid: i32, i: int)
    requires
        0 <= i,
        buff_index_from(s, uuid, i) == -1,
    ensures
        forall|j: int| i <= j < s.len() ==> s[j].buff_uuid != uuid,
    decreases s.len() - i,
{
    if i < s.len() {
        lemma_buff_index_none(s, uuid, i + 1);
    }
}

pub open spec fn opt_or_i32(o: Option<i32>, d: i32) -> i32 {
    match o {
        Some(v) => v,
        None => d,
    }
}

pub open spec fn opt_or_i64(o: Option<i64>, d: i64) -> i64 {
    match o {
        Some(v) => v,
        None => d,
    }
}

/// The active set after an "add" effect: a full record is (re)inserted,
/// layer defaulting to 1, creation time to the time of receipt. An add
/// without a base id is skipped.
pub open spec fn spec_apply_add(
    s: Seq<ActiveBuff>,
    uuid: i32,
    a: BuffAddInfo,
    now: i64,
) -> Seq<ActiveBuff> {
    match a.base_id {
        None => s,
        Some(base_id) => {
            let nb = ActiveBuff {
                buff_uuid: uuid,
                base_id,
                layer: opt_or_i32(a.layer, 1),
                duration: opt_or_i32(a.duration, 0),
                create_time: opt_or_i64(a.create_time, now),
                source_config_id: opt_or_i32(a.source_config_id, 0),
            };
            let idx = buff_index_from(s, uuid, 0);
            if idx == -1 {
                s.push(nb)
            } else {
                s.update(idx, nb)
            }
        },
    }
}

/// The active set after a "change" effect: present fields overwrite those of
/// a known instance; an unknown instance makes it a no-op.
pub open spec fn spec_apply_change(
    s: Seq<ActiveBuff>,
    uuid: i32,
    c: BuffChangeInfo,
) -> Seq<ActiveBuff> {
    let idx = buff_index_from(s, uuid, 0);
    if idx == -1 {
        s
    } else {
        let b = s[idx];
        let nb = ActiveBuff {
            layer: opt_or_i32(c.layer, b.layer),
            duration: opt_or_i32(c.duration, b.duration),
            create_time: opt_or_i64(c.create_time, b.create_time),
            ..b
        };
        s.update(idx, nb)
    }
}

/// The active set after one logic effect.
pub open spec fn spec_apply_effect(
    s: Seq<ActiveBuff>,
    uuid: i32,
    e: BuffLogicEffect,
    now: i64,
) -> Seq<ActiveBuff> {
    match e {
        BuffLogicEffect::Add(a) => spec_apply_add(s, uuid, a, now),
        BuffLogicEffect::Change(c) => spec_apply_change(s, uuid, c),
        BuffLogicEffect::Other => s,
    }
}

/// The active set after the effects at or after index `i`, in order.
pub open spec fn spec_apply_effects(
    s: Seq<ActiveBuff>,
    uuid: i32,
    effects: Seq<BuffLogicEffect>,
    i: int,
    now: i64,
) -> Seq<ActiveBuff>
    decreases effects.len() - i,
{
    if i < 0 || i >= effects.len() {
        s
    } else {
        spec_apply_effects(spec_apply_effect(s, uuid, effects[i], now), uuid, effects, i + 1, now)
    }
}

/// The active set after the instance's UUID is removed, if present.
pub open spec fn spec_remove_buff(s: Seq<ActiveBuff>, uuid: i32) -> Seq<ActiveBuff> {
    let idx = buff_index_from(s, uuid, 0);
    if idx == -1 {
        s
    } else {
        s.remove(idx)
    }
}

/// The active set after one whole instance record: its effects in order,
/// then its terminal remove marker. A record without a UUID is skipped.
pub open spec fn spec_apply_record(
    s: Seq<ActiveBuff>,
    rec: BuffEffectRecord,
    now: i64,
) -> Seq<ActiveBuff> {
    match rec.buff_uuid {
        None => s,
        Some(uuid) => {
            let s2 = spec_apply_effects(s, uuid, rec.effects@, 0, now);
            if rec.is_remove {
                spec_remove_buff(s2, uuid)
            } else {
                s2
            }
        },
    }
}

/// The active set after the records at or after index `i`, in order.
pub open spec fn spec_apply_records(
    s: Seq<ActiveBuff>,
    recs: Seq<BuffEffectRecord>,
    i: int,
    now: i64,
) -> Seq<ActiveBuff>
    decreases recs.len() - i,
{
    if i < 0 || i >= recs.len() {
        s
    } else {
        spec_apply_records(spec_apply_record(s, recs[i], now), recs, i + 1, now)
    }
}

/// (Re)inserts a full instance record, keyed by its UUID.
fn buff_upsert(active: &mut Vec<ActiveBuff>, nb: ActiveBuff)
    requires
        buffs_unique(old(active)@),
    ensures
        buffs_unique(final(active)@),
        ({
            let idx = buff_index_from(old(active)@, nb.buff_uuid, 0);
            if idx == -1 {
                final(active)@ == old(active)@.push(nb)
            } else {
                final(active)@ == old(active)@.update(idx, nb)
            }
        }),
{
    let mut i: usize = 0;
    while i < active.len()
        invariant
            0 <= i <= active@.len(),
            active@ == old(active)@,
            buffs_unique(active@),
            buff_index_from(active@, nb.buff_uuid, 0) == buff_index_from(
                active@,
                nb.buff_uuid,
                i as int,
            ),
        decreases active@.len() - i,
    {
        if active[i].buff_uuid == nb.buff_uuid {
            active[i] = nb;
            proof {
                assert(buff_index_from(old(active)@, nb.buff_uuid, i as int) == i);
                assert forall|a: int, b: int| 0 <= a < b < active@.len() implies active@[a].buff_uuid
                    != active@[b].buff_uuid by {
                    assert(active@[a].buff_uuid == old(active)@[a].buff_uuid);
                    assert(active@[b].buff_uuid == old(active)@[b].buff_uuid);
                    assert(old(active)@[a].buff_uuid != old(active)@[b].buff_uuid);
                }
            }
            return ;
        }
        i = i + 1;
    }
    active.push(nb);
    proof {
        lemma_buff_index_none(old(active)@, nb.buff_uuid, 0);
        assert forall|a: int, b: int| 0 <= a < b < active@.len() implies active@[a].buff_uuid
            != active@[b].buff_uuid by {
            if b == active@.len() - 1 {
                assert(old(active)@[a].buff_uuid != nb.buff_uuid);
            }
        }
    }
}

/// Patches the instance with the given UUID; no-op when it is unknown.
fn buff_change(active: &mut Vec<ActiveBuff>, uuid: i32, c: BuffChangeInfo)
    requires
        buffs_unique(old(active)@),
    ensures
        buffs_unique(final(active)@),
        final(active)@ == spec_apply_change(old(active)@, uuid, c),
{
    let mut i: usize = 0;
    while i < active.len()
        invariant
            0 <= i <= active@.len(),
            active@ == old(active)@,
            buffs_unique(active@),
            buff_index_from(active@, uuid, 0) == buff_index_from(active@, uuid, i as int),
        decreases active@.len() - i,
    {
        if active[i].buff_uuid == uuid {
            let b = active[i];
            let nb = ActiveBuff {
                layer: match c.layer {
                    Some(v) => v,
                    None => b.layer,
                },
                duration: match c.duration {
                    Some(v) => v,
                    None => b.duration,
                },
                create_time: match c.create_time {
                    Some(v) => v,
                    None => b.create_time,
                },
                ..b
            };
            active[i] = nb;
            proof {
                assert(buff_index_from(old(active)@, uuid, i as int) == i);
                assert forall|a: int, bb: int| 0 <= a < bb < active@.len() implies
                    active@[a].buff_uuid != active@[bb].buff_uuid by {
                    assert(active@[a].buff_uuid == old(active)@[a].buff_uuid);
                    assert(active@[bb].buff_uuid == old(active)@[bb].buff_uuid);
                    assert(old(active)@[a].buff_uuid != old(active)@[bb].buff_uuid);
                }
            }
            return ;
        }
        i = i + 1;
    }
}

/// Removes the instance with the given UUID, if present.
fn buff_remove(active: &mut Vec<ActiveBuff>, uuid: i32)
    requires
        buffs_unique(old(active)@),
    ensures
        buffs_unique(final(active)@),
        final(active)@ == spec_remove_buff(old(active)@, uuid),
{
    let mut i: usize = 0;
    while i < active.len()
        invariant
            0 <= i <= active@.len(),
            active@ == old(active)@,
            buffs_unique(active@),
            buff_index_from(active@, uuid, 0) == buff_index_from(active@, uuid, i as int),
        decreases active@.len() - i,
    {
        if active[i].buff_uuid == uuid {
            active.remove(i);
            proof {
                assert(buff_index_from(old(active)@, uuid, i as int) == i);
                assert forall|a: int, b: int| 0 <= a < b < active@.len() implies active@[a].buff_uuid
                    != active@[b].buff_uuid by {
                    let s = old(active)@;
                    let a0: int = if a < i { a } else { a + 1 };
                    let b0: int = if b < i { b } else { b + 1 };
                    assert(active@[a] == s[a0]);
                    assert(active@[b] == s[b0]);
                    assert(s[a0].buff_uuid != s[b0].buff_uuid);
                }
            }
            return ;
        }
        i = i + 1;
    }
}

/// Applies every instance record, in the order given, to the active set.
pub fn apply_buff_records(active: &mut Vec<ActiveBuff>, records: &Vec<BuffEffectRecord>, now: i64)
    requires
        buffs_unique(old(active)@),
    ensures
        buffs_unique(final(active)@),
        final(active)@ == spec_apply_records(old(active)@, records@, 0, now),
{
    let mut k: usize = 0;
    while k < records.len()
        invariant
            0 <= k <= records@.len(),
            buffs_unique(active@),
            spec_apply_records(old(active)@, records@, 0, now) == spec_apply_records(
                active@,
                records@,
                k as int,
                now,
            ),
        decreases records@.len() - k,
    {
        let rec = &records[k];
        match rec.buff_uuid {
            Some(uuid) => {
                let ghost before = active@;
                let mut e: usize = 0;
                while e < rec.effects.len()
                    invariant
                        0 <= e <= rec.effects@.len(),
                        buffs_unique(active@),
                        spec_apply_effects(before, uuid, rec.effects@, 0, now)
                            == spec_apply_effects(active@, uuid, rec.effects@, e as int, now),
                    decreases rec.effects@.len() - e,
                {
                    match rec.effects[e] {
                        BuffLogicEffect::Add(a) => {
                            match a.base_id {
                                Some(base_id) => {
                                    let nb = ActiveBuff {
                                        buff_uuid: uuid,
                                        base_id,
                                        layer: match a.layer {
                                            Some(v) => v,
                                            None => 1,
                                        },
                                        duration: match a.duration {
                                            Some(v) => v,
                                            None => 0,
                                        },
                                        create_time: match a.create_time {
                                            Some(v) => v,
                                            None => now,
                                        },
                                        source_config_id: match a.source_config_id {
                                            Some(v) => v,
                                            None => 0,
                                        },
                                    };
                                    buff_upsert(active, nb);
                                },
                                None => {},
                            }
                        },
                        BuffLogicEffect::Change(c) => {
                            buff_change(active, uuid, c);
                        },
                        BuffLogicEffect::Other => {},
                    }
                    e = e + 1;
                }
                if rec.is_remove {
                    buff_remove(active, uuid);
                }
                proof {
                    assert(active@ == spec_apply_record(before, records@[k as int], now));
                }
            },
            None => {},
        }
        k = k + 1;
    }
}

/// Whether a buff belongs to the monitored projection: its base id is
/// directly monitored, everything is monitored, or its non-zero source
/// configuration id maps through the talent index to a monitored base id.
pub open spec fn spec_buff_monitored(
    b: ActiveBuff,
    monitored: Seq<i32>,
    monitor_all: bool,
    talent: Seq<(i32, Vec<i32>)>,
) -> bool {
    monitor_all || monitored.contains(b.base_id) || (b.source_config_id != 0 && match kv_get(
        talent,
        b.source_config_id,
    ) {
        Some(ids) => exists|j: int| 0 <= j < ids@.len() && monitored.contains(ids@[j]),
        None => false,
    })
}

/// The emitted row for one active buff.
pub open spec fn spec_to_update_state(b: ActiveBuff) -> BuffUpdateState {
    BuffUpdateState {
        buff_uuid: b.buff_uuid,
        base_id: b.base_id,
        layer: b.layer,
        duration_ms: b.duration,
        create_time_ms: b.create_time,
        source_config_id: b.source_config_id,
    }
}

/// The unsorted monitored projection of the active set, from index `i` on.
pub open spec fn spec_buff_payload(
    s: Seq<ActiveBuff>,
    monitored: Seq<i32>,
    monitor_all: bool,
    talent: Seq<(i32, Vec<i32>)>,
    i: int,
) -> Seq<BuffUpdateState>
    decreases s.len() - i,
{
    if i < 0 || i >= s.len() {
        Seq::empty()
    } else {
        let rest = spec_buff_payload(s, monitored, monitor_all, talent, i + 1);
        if spec_buff_monitored(s[i], monitored, monitor_all, talent) {
            seq![spec_to_update_state(s[i])] + rest
        } else {
            rest
        }
    }
}

/// The emission order: ascending by (base id, creation time, instance UUID).
pub open spec fn buff_le(a: BuffUpdateState, b: BuffUpdateState) -> bool {
    a.base_id < b.base_id || (a.base_id == b.base_id && (a.create_time_ms < b.create_time_ms || (
    a.create_time_ms == b.create_time_ms && a.buff_uuid <= b.buff_uuid)))
}

/// The payload is sorted in emission order.
pub open spec fn buffs_sorted(s: Seq<BuffUpdateState>) -> bool {
    forall|i: int, j: int| 0 <= i < j < s.len() ==> buff_le(s[i], s[j])
}

/// Whether a vector of ids contains `x`.
pub fn ids_contain(v: &Vec<i32>, x: i32) -> (r: bool)
    ensures
        r == v@.contains(x),
{
    let mut i: usize = 0;
    while i < v.len()
        invariant
            0 <= i <= v@.len(),
            forall|j: int| 0 <= j < i ==> v@[j] != x,
        decreases v@.len() - i,
    {
        if v[i] == x {
            return true;
        }
        i = i + 1;
    }
    false
}

/// Decides the monitored projection for one buff.
fn buff_monitored(
    b: &ActiveBuff,
    monitored: &Vec<i32>,
    monitor_all: bool,
    talent: &Vec<(i32, Vec<i32>)>,
) -> (r: bool)
    ensures
        r == spec_buff_monitored(*b, monitored@, monitor_all, talent@),
{
    if monitor_all {
        return true;
    }
    if ids_contain(monitored, b.base_id) {
        return true;
    }
    if b.source_config_id == 0 {
        return false;
    }
    proof {
        crate::kvlist::lemma_first_key_index_from(talent@, b.source_config_id, 0);
    }
    let found = crate::kvlist::kv_find_i32(talent, b.source_config_id);
    match found {
        Some(idx) => {
            let ids = &talent[idx].1;
            let mut j: usize = 0;
            while j < ids.len()
                invariant
                    0 <= j <= ids@.len(),
                    idx < talent@.len(),
                    b.source_config_id != 0,
                    *ids == talent@[idx as int].1,
                    kv_get(talent@, b.source_config_id) == Some(talent@[idx as int].1),
                    forall|jj: int| 0 <= jj < j ==> !monitored@.contains(ids@[jj]),
                decreases ids@.len() - j,
            {
                if ids_contain(monitored, ids[j]) {
                    proof {
                        let ids2 = kv_get(talent@, b.source_config_id)->Some_0;
                        assert(ids2@ == ids@);
                        assert(monitored@.contains(ids2@[j as int]));
                        assert(exists|jj: int|
                            0 <= jj < ids2@.len() && monitored@.contains(ids2@[jj]));
                    }
                    return true;
                }
                j = j + 1;
            }
            false
        },
        None => false,
    }
}

/// Builds the unsorted monitored projection of the active set.
fn build_buff_payload(
    active: &Vec<ActiveBuff>,
    monitored: &Vec<i32>,
    monitor_all: bool,
    talent: &Vec<(i32, Vec<i32>)>,
) -> (r: Vec<BuffUpdateState>)
    ensures
        r@ == spec_buff_payload(active@, monitored@, monitor_all, talent@, 0),
{
    let mut out: Vec<BuffUpdateState> = Vec::new();
    let mut i: usize = 0;
    while i < active.len()
        invariant
            0 <= i <= active@.len(),
            spec_buff_payload(active@, monitored@, monitor_all, talent@, 0) == out@
                + spec_buff_payload(active@, monitored@, monitor_all, talent@, i as int),
        decreases active@.len() - i,
    {
        let b = active[i];
        if buff_monitored(&b, monitored, monitor_all, talent) {
            out.push(
                BuffUpdateState {
                    buff_uuid: b.buff_uuid,
                    base_id: b.base_id,
                    layer: b.layer,
                    duration_ms: b.duration,
                    create_time_ms: b.create_time,
                    source_config_id: b.source_config_id,
                },
            );
        }
        i = i + 1;
    }
    proof {
        assert(out@ + spec_buff_payload(active@, monitored@, monitor_all, talent@, active@.len()
            as int) =~= out@);
    }
    out
}

/// Sorts the payload in emission order by repeatedly extracting a minimal
/// element; the result holds exactly the input rows.
pub fn sort_buff_payload(input: Vec<BuffUpdateState>) -> (r: Vec<BuffUpdateState>)
    ensures
        buffs_sorted(r@),
        r@.to_multiset() == input@.to_multiset(),
        r@.len() == input@.len(),
{
    let mut work = input;
    let mut out: Vec<BuffUpdateState> = Vec::new();
    while work.len() > 0
        invariant
            buffs_sorted(out@),
            out@.to_multiset().add(work@.to_multiset()) =~= input@.to_multiset(),
            out@.len() + work@.len() == input@.len(),
            forall|a: int, b: int|
                #![trigger out@[a], work@[b]]
                0 <= a < out@.len() && 0 <= b < work@.len() ==> buff_le(out@[a], work@[b]),
        decreases work@.len(),
    {
        // Find a minimal element of the remaining rows.
        let mut min_idx: usize = 0;
        let mut i: usize = 1;
        while i < work.len()
            invariant
                0 < work@.len(),
                0 <= min_idx < i <= work@.len(),
                forall|j: int| 0 <= j < i ==> buff_le(work@[min_idx as int], #[trigger] work@[j]),
            decreases work@.len() - i,
        {
            let wi = work[i];
            let wm = work[min_idx];
            let before = wi.base_id < wm.base_id || (wi.base_id == wm.base_id && (wi.create_time_ms
                < wm.create_time_ms || (wi.create_time_ms == wm.create_time_ms && wi.buff_uuid
                < wm.buff_uuid)));
            if before {
                min_idx = i;
            }
            i = i + 1;
        }
        let ghost prev = work@;
        let ghost prev_out = out@;
        let m = work.remove(min_idx);
        proof {
            assert(prev.remove(min_idx as int).to_multiset() =~= prev.to_multiset().remove(m));
        }
        out.push(m);
        proof {
            assert(out@.to_multiset() =~= prev_out.to_multiset().insert(m));
            assert(prev.to_multiset().count(m) > 0);
            assert(out@.to_multiset().add(work@.to_multiset()) =~= input@.to_multiset());
            assert forall|a: int, b: int|
                #![trigger out@[a], work@[b]]
                0 <= a < out@.len() && 0 <= b < work@.len() implies buff_le(out@[a], work@[b]) by {
                let b0: int = if b < min_idx { b } else { b + 1 };
                assert(work@[b] == prev[b0]);
                if a < out@.len() - 1 {
                    assert(out@[a] == prev_out[a]);
                    assert(buff_le(prev_out[a], prev[b0]));
                } else {
                    assert(out@[a] == m);
                    assert(buff_le(m, prev[b0]));
                }
            }
        }
    }
    proof {
        assert(out@.to_multiset() =~= input@.to_multiset());
        vstd::seq_lib::lemma_multiset_commutative(out@, work@);
    }
    out
}

/// Applies a decoded buff-delta and computes the monitored projection.
///
/// When no buff id is monitored and the monitor-all flag is off there is
/// nothing to do: the active set is untouched and no emission is owed.
/// Otherwise the records are applied in order and a payload is always
/// returned — an empty list is a valid, intentional signal that clears
/// stale rows.
pub fn process_buff_effects(
    active: &mut Vec<ActiveBuff>,
    records: &Vec<BuffEffectRecord>,
    monitored: &Vec<i32>,
    monitor_all: bool,
    talent: &Vec<(i32, Vec<i32>)>,
    now: i64,
) -> (r: Option<Vec<BuffUpdateState>>)
    requires
        buffs_unique(old(active)@),
        keys_unique(talent@),
    ensures
        buffs_unique(final(active)@),
        monitored@.len() == 0 && !monitor_all ==> r is None && final(active)@ == old(active)@,
        monitored@.len() > 0 || monitor_all ==> {
            &&& r is Some
            &&& final(active)@ == spec_apply_records(old(active)@, records@, 0, now)
            &&& buffs_sorted(r->Some_0@)
            &&& r->Some_0@.to_multiset() == spec_buff_payload(
                final(active)@,
                monitored@,
                monitor_all,
                talent@,
                0,
            ).to_multiset()
        },
{
    if monitored.len() == 0 && !monitor_all {
        return None;
    }
    apply_buff_records(active, records, now);
    let payload = build_buff_payload(active, monitored, monitor_all, talent);
    Some(sort_buff_payload(payload))
}

} // verus!
