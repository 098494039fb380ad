//! Heuristic scene-identifier recovery.
//!
//! The protocol does not document where the integer scene id lives inside the
//! scene attribute blobs, so the resolver scans a buffer with three
//! decreasing-confidence strategies — varint decoding at every offset,
//! 4-byte little/big-endian integers at every offset, and ASCII decimal runs
//! of two to six digits — and accepts a candidate only when it is a member of
//! the closed table of known scene ids. The first match, in strategy order,
//! wins.

use vstd::prelude::*;

use crate::kvlist::{first_key_index, first_key_index_from, keys_unique, kv_get};
use crate::models::{AttrCollection, RawAttr, ATTR_ID};
use crate::varint::{spec_varint, varint_decode_at};

verus! {

/// The closed table of known scene ids and their display names.
#[derive(Debug, Clone)]
pub struct SceneTable {
    pub entries: Vec<(i32, String)>,
}

impl SceneTable {
    /// Ids of the known scenes, in table order.
    pub open spec fn ids(&self) -> Seq<i32> {
        self.entries@.map_values(|p: (i32, String)| p.0)
    }

    /// The table maps each id to exactly one name.
    pub open spec fn well_formed(&self) -> bool {
        keys_unique(self.entries@)
    }

    /// Creates an empty table.
    pub fn new() -> (r: SceneTable)
        ensures
            r.well_formed(),
            r.ids().len() == 0,
    {
        let r = SceneTable { entries: Vec::new() };
        proof {
            assert(r.ids() =~= Seq::<i32>::empty());
        }
        r
    }

    /// Adds one scene, overwriting the name if the id is already present.
    pub fn add(&mut self, id: i32, name: String)
        requires
            old(self).well_formed(),
        ensures
            final(self).well_formed(),
            final(self).ids().contains(id),
            forall|id2: i32| #[trigger] final(self).ids().contains(id2) <==> (old(
                self,
            ).ids().contains(id2) || id2 == id),
            kv_get(final(self).entries@, id) == Some(name),
    {
        proof {
            crate::kvlist::lemma_first_key_index_from(self.entries@, id, 0);
        }
        let found = crate::kvlist::kv_find_i32(&self.entries, id);
        match found {
            Some(i) => {
                let e = &mut self.entries[i];
                e.1 = name;
                proof {
                    let oldv = old(self).entries@;
                    let newv = self.entries@;
                    assert(forall|j: int| 0 <= j < oldv.len() ==> oldv[j].0 == newv[j].0);
                    assert(self.ids() =~= old(self).ids());
                    assert(self.ids()[i as int] == id);
                    crate::kvlist::lemma_first_key_index_same_keys(oldv, newv, id, 0);
                }
            },
            None => {
                self.entries.push((id, name));
                proof {
                    let oldv = old(self).entries@;
                    let newv = self.entries@;
                    crate::kvlist::lemma_first_key_index_from(oldv, id, 0);
                    assert forall|i: int, j: int| 0 <= i < j < newv.len() implies newv[i].0
                        != newv[j].0 by {
                        if j == newv.len() - 1 {
                            assert(oldv[i].0 != id);
                        }
                    }
                    assert(self.ids() =~= old(self).ids().push(id));
                    assert(self.ids()[newv.len() - 1] == id);
                    crate::kvlist::lemma_first_key_index_push(oldv, id, (id, name), 0);
                    assert forall|id2: i32| #[trigger] self.ids().contains(id2) implies (old(
                        self,
                    ).ids().contains(id2) || id2 == id) by {
                        let w = choose|w: int| 0 <= w < self.ids().len() && self.ids()[w] == id2;
                        if w < oldv.len() {
                            assert(old(self).ids()[w] == id2);
                        }
                    }
                    assert forall|id2: i32| old(self).ids().contains(id2) implies self.ids(
                    ).contains(id2) by {
                        let w = choose|w: int|
                            0 <= w < old(self).ids().len() && old(self).ids()[w] == id2;
                        assert(self.ids()[w] == id2);
                    }
                }
            },
        }
    }

    /// Whether `id` is a known scene id.
    pub fn contains(&self, id: i32) -> (r: bool)
        ensures
            r == self.ids().contains(id),
    {
        let mut i: usize = 0;
        while i < self.entries.len()
            invariant
                0 <= i <= self.entries@.len(),
                forall|j: int| 0 <= j < i ==> self.entries@[j].0 != id,
            decreases self.entries@.len() - i,
        {
            if self.entries[i].0 == id {
                assert(self.ids()[i as int] == id);
                return true;
            }
            i = i + 1;
        }
        proof {
            assert forall|j: int| 0 <= j < self.ids().len() implies self.ids()[j] != id by {
                assert(self.entries@[j].0 != id);
            }
        }
        false
    }

    /// Display name of a known scene id.
    pub fn lookup(&self, id: i32) -> (r: Option<String>)
        ensures
            r == kv_get(self.entries@, id),
    {
        proof {
            crate::kvlist::lemma_first_key_index_from(self.entries@, id, 0);
        }
        let found = crate::kvlist::kv_find_i32(&self.entries, id);
        match found {
            Some(i) => Some(self.entries[i].1.clone()),
            None => None,
        }
    }
}

/// Strategy 1 candidate at one offset: a varint decoding to a known id that
/// fits a 32-bit signed integer.
pub open spec fn s1_hit(data: Seq<u8>, known: Seq<i32>, off: int) -> Option<i32> {
    match spec_varint(data, off) {
        Some(v) => if v <= i32::MAX as u64 && known.contains(v as i32) {
            Some(v as i32)
        } else {
            None
        },
        None => None,
    }
}

/// First strategy-1 candidate at or after `off`.
pub open spec fn s1_scan(data: Seq<u8>, known: Seq<i32>, off: int) -> Option<i32>
    decreases data.len() - off,
{
    if off < 0 || off >= data.len() {
        None
    } else if s1_hit(data, known, off) is Some {
        s1_hit(data, known, off)
    } else {
        s1_scan(data, known, off + 1)
    }
}

/// The 4-byte little-endian value at offset `i`.
pub open spec fn le32_at(data: Seq<u8>, i: int) -> u32 {
    ((data[i] as u32) + 256 * (data[i + 1] as u32) + 65536 * (data[i + 2] as u32) + 16777216 * (
    data[i + 3] as u32)) as u32
}

/// The 4-byte big-endian value at offset `i`.
pub open spec fn be32_at(data: Seq<u8>, i: int) -> u32 {
    ((data[i + 3] as u32) + 256 * (data[i + 2] as u32) + 65536 * (data[i + 1] as u32) + 16777216
        * (data[i] as u32)) as u32
}

/// Strategy 2 candidate at one offset: a positive known id as a 4-byte
/// little-endian integer, else as a big-endian one.
pub open spec fn s2_hit(data: Seq<u8>, known: Seq<i32>, i: int) -> Option<i32> {
    let le = le32_at(data, i);
    let be = be32_at(data, i);
    if 1 <= le && le <= i32::MAX as u32 && known.contains(le as i32) {
        Some(le as i32)
    } else if 1 <= be && be <= i32::MAX as u32 && known.contains(be as i32) {
        Some(be as i32)
    } else {
        None
    }
}

/// First strategy-2 candidate at or after `i`.
pub open spec fn s2_scan(data: Seq<u8>, known: Seq<i32>, i: int) -> Option<i32>
    decreases data.len() - i,
{
    if i < 0 || i + 4 > data.len() {
        None
    } else if s2_hit(data, known, i) is Some {
        s2_hit(data, known, i)
    } else {
        s2_scan(data, known, i + 1)
    }
}

/// An ASCII decimal digit.
pub open spec fn is_digit(b: u8) -> bool {
    48 <= b && b <= 57
}

/// End (exclusive) of the digit run starting at `i`.
pub open spec fn run_end(data: Seq<u8>, i: int) -> int
    decreases data.len() - i,
{
    if i < 0 || i >= data.len() {
        i
    } else if !is_digit(data[i]) {
        i
    } else {
        run_end(data, i + 1)
    }
}

/// Decimal value of the digits in `[start, end)`.
pub open spec fn digits_value(data: Seq<u8>, start: int, end: int) -> int
    decreases end - start,
{
    if start >= end {
        0
    } else {
        digits_value(data, start, end - 1) * 10 + (data[end - 1] - 48)
    }
}

/// `i` starts a maximal digit run.
pub open spec fn is_run_start(data: Seq<u8>, i: int) -> bool {
    0 <= i < data.len() && is_digit(data[i]) && (i == 0 || !is_digit(data[i - 1]))
}

/// Strategy 3 candidate for the run starting at `i`: a run of two to six
/// digits whose decimal value is a known id.
pub open spec fn s3_hit(data: Seq<u8>, known: Seq<i32>, i: int) -> Option<i32> {
    let end = run_end(data, i);
    let n = end - i;
    if 2 <= n && n <= 6 && known.contains(digits_value(data, i, end) as i32) {
        Some(digits_value(data, i, end) as i32)
    } else {
        None
    }
}

/// First strategy-3 candidate over the maximal digit runs at or after `i`.
pub open spec fn s3_scan(data: Seq<u8>, known: Seq<i32>, i: int) -> Option<i32>
    decreases data.len() - i,
{
    if i < 0 || i >= data.len() {
        None
    } else if is_run_start(data, i) && s3_hit(data, known, i) is Some {
        s3_hit(data, known, i)
    } else {
        s3_scan(data, known, i + 1)
    }
}

/// What the byte scan resolves to: the first candidate of the highest-
/// confidence strategy that has one.
pub open spec fn spec_resolve(data: Seq<u8>, known: Seq<i32>) -> Option<i32> {
    if s1_scan(data, known, 0) is Some {
        s1_scan(data, known, 0)
    } else if s2_scan(data, known, 0) is Some {
        s2_scan(data, known, 0)
    } else {
        s3_scan(data, known, 0)
    }
}

/// A strategy-1 scan that found nothing saw no candidate anywhere.
pub proof fn lemma_s1_scan_none(data: Seq<u8>, known: Seq<i32>, off: int)
    requires
        0 <= off,
        s1_scan(data, known, off) is None,
    ensures
        forall|j: int| off <= j < data.len() ==> s1_hit(data, known, j) is None,
    decreases data.len() - off,
{
    if off < data.len() {
        lemma_s1_scan_none(data, known, off + 1);
    }
}

/// A strategy-2 scan that found nothing saw no candidate anywhere.
pub proof fn lemma_s2_scan_none(data: Seq<u8>, known: Seq<i32>, off: int)
    requires
        0 <= off,
        s2_scan(data, known, off) is None,
    ensures
        forall|j: int| off <= j && j + 4 <= data.len() ==> s2_hit(data, known, j) is None,
    decreases data.len() - off,
{
    if off + 4 <= data.len() {
        lemma_s2_scan_none(data, known, off + 1);
    }
}

/// A strategy-3 scan that found nothing saw no run candidate anywhere.
pub proof fn lemma_s3_scan_none(data: Seq<u8>, known: Seq<i32>, off: int)
    requires
        0 <= off,
        s3_scan(data, known, off) is None,
    ensures
        forall|j: int| off <= j < data.len() && is_run_start(data, j) ==> s3_hit(data, known, j)
            is None,
    decreases data.len() - off,
{
    if off < data.len() {
        lemma_s3_scan_none(data, known, off + 1);
    }
}

/// A scan that starts at or before a candidate finds one.
proof fn lemma_s1_scan_finds(data: Seq<u8>, known: Seq<i32>, i: int, j: int)
    requires
        0 <= i <= j < data.len(),
        s1_hit(data, known, j) is Some,
    ensures
        s1_scan(data, known, i) is Some,
    decreases j - i,
{
    if i < j && s1_hit(data, known, i) is None {
        lemma_s1_scan_finds(data, known, i + 1, j);
    }
}

proof fn lemma_s2_scan_finds(data: Seq<u8>, known: Seq<i32>, i: int, j: int)
    requires
        0 <= i <= j,
        j + 4 <= data.len(),
        s2_hit(data, known, j) is Some,
    ensures
        s2_scan(data, known, i) is Some,
    decreases j - i,
{
    if i < j && s2_hit(data, known, i) is None {
        lemma_s2_scan_finds(data, known, i + 1, j);
    }
}

proof fn lemma_s3_scan_finds(data: Seq<u8>, known: Seq<i32>, i: int, j: int)
    requires
        0 <= i <= j < data.len(),
        is_run_start(data, j),
        s3_hit(data, known, j) is Some,
    ensures
        s3_scan(data, known, i) is Some,
    decreases j - i,
{
    if i < j && !(is_run_start(data, i) && s3_hit(data, known, i) is Some) {
        lemma_s3_scan_finds(data, known, i + 1, j);
    }
}

/// Whatever a strategy-1 scan finds is a known id.
proof fn lemma_s1_scan_known(data: Seq<u8>, known: Seq<i32>, i: int)
    requires
        0 <= i,
        s1_scan(data, known, i) is Some,
    ensures
        known.contains(s1_scan(data, known, i)->Some_0),
    decreases data.len() - i,
{
    if i < data.len() && s1_hit(data, known, i) is None {
        lemma_s1_scan_known(data, known, i + 1);
    }
}

proof fn lemma_s2_scan_known(data: Seq<u8>, known: Seq<i32>, i: int)
    requires
        0 <= i,
        s2_scan(data, known, i) is Some,
    ensures
        known.contains(s2_scan(data, known, i)->Some_0),
    decreases data.len() - i,
{
    if i + 4 <= data.len() && s2_hit(data, known, i) is None {
        lemma_s2_scan_known(data, known, i + 1);
    }
}

proof fn lemma_s3_scan_known(data: Seq<u8>, known: Seq<i32>, i: int)
    requires
        0 <= i,
        s3_scan(data, known, i) is Some,
    ensures
        known.contains(s3_scan(data, known, i)->Some_0),
    decreases data.len() - i,
{
    if i < data.len() && !(is_run_start(data, i) && s3_hit(data, known, i) is Some) {
        lemma_s3_scan_known(data, known, i + 1);
    }
}

/// The resolver finds every encoded known id: a buffer holding a known id as
/// a varint at some offset, as a 4-byte little- or big-endian integer at some
/// offset, or as a decimal run of two to six digits, resolves to a member of
/// the known set — and a buffer holding none resolves to nothing (the `None`
/// direction is part of `find_scene_id_in_bytes`' own contract).
pub proof fn lemma_resolver_finds_known_ids(data: Seq<u8>, known: Seq<i32>)
    requires
        (exists|j: int| 0 <= j < data.len() && (#[trigger] s1_hit(data, known, j)) is Some) || (
        exists|j: int|
            0 <= j && j + 4 <= data.len() && (#[trigger] s2_hit(data, known, j)) is Some) || (
        exists|j: int|
            0 <= j < data.len() && is_run_start(data, j) && (#[trigger] s3_hit(data, known, j))
                is Some),
    ensures
        spec_resolve(data, known) is Some,
        known.contains(spec_resolve(data, known)->Some_0),
{
    if exists|j: int| 0 <= j < data.len() && (#[trigger] s1_hit(data, known, j)) is Some {
        let j = choose|j: int| 0 <= j < data.len() && (#[trigger] s1_hit(data, known, j)) is Some;
        lemma_s1_scan_finds(data, known, 0, j);
        lemma_s1_scan_known(data, known, 0);
    } else if exists|j: int|
        0 <= j && j + 4 <= data.len() && (#[trigger] s2_hit(data, known, j)) is Some {
        let j = choose|j: int|
            0 <= j && j + 4 <= data.len() && (#[trigger] s2_hit(data, known, j)) is Some;
        lemma_s2_scan_finds(data, known, 0, j);
        if s1_scan(data, known, 0) is Some {
            lemma_s1_scan_known(data, known, 0);
        } else {
            lemma_s2_scan_known(data, known, 0);
        }
    } else {
        let j = choose|j: int|
            0 <= j < data.len() && is_run_start(data, j) && (#[trigger] s3_hit(data, known, j))
                is Some;
        lemma_s3_scan_finds(data, known, 0, j);
        if s1_scan(data, known, 0) is Some {
            lemma_s1_scan_known(data, known, 0);
        } else if s2_scan(data, known, 0) is Some {
            lemma_s2_scan_known(data, known, 0);
        } else {
            lemma_s3_scan_known(data, known, 0);
        }
    }
}

/// Upper bound of a digit run's decimal value: fewer than `10^(end-start)`.
pub proof fn lemma_digits_value_bound(data: Seq<u8>, start: int, end: int, bound: int)
    requires
        start <= end,
        bound >= 1,
        forall|j: int| start <= j < end ==> (48 <= #[trigger] data[j] <= 57),
        end - start <= 6,
    ensures
        0 <= digits_value(data, start, end),
        end - start == 0 ==> digits_value(data, start, end) == 0,
        end - start == 1 ==> digits_value(data, start, end) <= 9,
        end - start == 2 ==> digits_value(data, start, end) <= 99,
        end - start == 3 ==> digits_value(data, start, end) <= 999,
        end - start == 4 ==> digits_value(data, start, end) <= 9999,
        end - start == 5 ==> digits_value(data, start, end) <= 99999,
        end - start == 6 ==> digits_value(data, start, end) <= 999999,
    decreases end - start,
{
    if start < end {
        lemma_digits_value_bound(data, start, end - 1, bound);
    }
}

/// Scans a buffer for a known scene id using the three strategies in order.
pub fn find_scene_id_in_bytes(data: &Vec<u8>, scenes: &SceneTable) -> (r: Option<i32>)
    ensures
        r == spec_resolve(data@, scenes.ids()),
        r is Some ==> scenes.ids().contains(r->Some_0),
        r is None ==> forall|j: int| 0 <= j < data@.len() ==> s1_hit(data@, scenes.ids(), j)
            is None,
        r is None ==> forall|j: int| 0 <= j && j + 4 <= data@.len() ==> s2_hit(
            data@,
            scenes.ids(),
            j,
        ) is None,
        r is None ==> forall|j: int|
            0 <= j < data@.len() && is_run_start(data@, j) ==> s3_hit(data@, scenes.ids(), j)
                is None,
{
    let ghost known = scenes.ids();

    // Strategy 1: varint decoding at every offset.
    let mut off: usize = 0;
    while off < data.len()
        invariant
            0 <= off <= data@.len(),
            s1_scan(data@, known, 0) == s1_scan(data@, known, off as int),
            known == scenes.ids(),
        decreases data@.len() - off,
    {
        let dec = varint_decode_at(data, off);
        match dec {
            Some(v) => {
                if v <= i32::MAX as u64 {
                    let cand = v as i32;
                    if scenes.contains(cand) {
                        assert(s1_hit(data@, known, off as int) == Some(cand));
                        return Some(cand);
                    }
                }
            },
            None => {},
        }
        assert(s1_hit(data@, known, off as int) is None);
        off = off + 1;
    }
    proof {
        assert(s1_scan(data@, known, 0) is None);
        lemma_s1_scan_none(data@, known, 0);
    }

    // Strategy 2: 4-byte little- and big-endian integers at every offset.
    if data.len() >= 4 {
        let mut i: usize = 0;
        while i <= data.len() - 4
            invariant
                data@.len() >= 4,
                0 <= i,
                i <= data@.len() - 4 + 1,
                s2_scan(data@, known, 0) == s2_scan(data@, known, i as int),
                s1_scan(data@, known, 0) is None,
                known == scenes.ids(),
            decreases data@.len() - i,
        {
            let le: u32 = (data[i] as u32) + 256 * (data[i + 1] as u32) + 65536 * (data[i
                + 2] as u32) + 16777216 * (data[i + 3] as u32);
            assert(le == le32_at(data@, i as int));
            if 1 <= le && le <= i32::MAX as u32 {
                let cand = le as i32;
                if scenes.contains(cand) {
                    assert(s2_hit(data@, known, i as int) == Some(cand));
                    return Some(cand);
                }
            }
            let be: u32 = (data[i + 3] as u32) + 256 * (data[i + 2] as u32) + 65536 * (data[i
                + 1] as u32) + 16777216 * (data[i] as u32);
            assert(be == be32_at(data@, i as int));
            if 1 <= be && be <= i32::MAX as u32 {
                let cand = be as i32;
                if scenes.contains(cand) {
                    assert(s2_hit(data@, known, i as int) == Some(cand));
                    return Some(cand);
                }
            }
            assert(s2_hit(data@, known, i as int) is None);
            i = i + 1;
        }
        proof {
            assert(s2_scan(data@, known, i as int) is None);
        }
    }
    proof {
        assert(s2_scan(data@, known, 0) is None);
        lemma_s2_scan_none(data@, known, 0);
    }

    // Strategy 3: ASCII decimal runs of two to six digits.
    let mut i: usize = 0;
    while i < data.len()
        invariant
            0 <= i <= data@.len(),
            s3_scan(data@, known, 0) == s3_scan(data@, known, i as int),
            s1_scan(data@, known, 0) is None,
            s2_scan(data@, known, 0) is None,
            known == scenes.ids(),
        decreases data@.len() - i,
    {
        let b = data[i];
        let starts_run = 48 <= b && b <= 57 && (i == 0 || !(48 <= data[i - 1] && data[i - 1]
            <= 57));
        if starts_run {
            // Find the end of the maximal digit run.
            let mut end: usize = i;
            while end < data.len() && 48 <= data[end] && data[end] <= 57
                invariant
                    i <= end <= data@.len(),
                    forall|j: int| i <= j < end ==> is_digit(data@[j]),
                    run_end(data@, i as int) == run_end(data@, end as int),
                decreases data@.len() - end,
            {
                end = end + 1;
            }
            assert(run_end(data@, end as int) == end);
            let n = end - i;
            if 2 <= n && n <= 6 {
                proof {
                    lemma_digits_value_bound(data@, i as int, end as int, 1);
                }
                // Parse the run as a decimal number.
                let mut val: i32 = 0;
                let mut j: usize = i;
                while j < end
                    invariant
                        i <= j <= end <= data@.len(),
                        end - i <= 6,
                        forall|jj: int| i <= jj < end ==> is_digit(data@[jj]),
                        val == digits_value(data@, i as int, j as int),
                        0 <= val <= 999999,
                    decreases end - j,
                    {
                    proof {
                        lemma_digits_value_bound(data@, i as int, j as int, 1);
                        lemma_digits_value_bound(data@, i as int, j as int + 1, 1);
                    }
                    val = val * 10 + (data[j] - 48) as i32;
                    j = j + 1;
                }
                if scenes.contains(val) {
                    assert(s3_hit(data@, known, i as int) == Some(val));
                    assert(is_run_start(data@, i as int));
                    return Some(val);
                }
            }
            assert(s3_hit(data@, known, i as int) is None) by {
                if 2 <= n && n <= 6 {
                } else {
                    assert(run_end(data@, i as int) - i < 2 || run_end(data@, i as int) - i > 6);
                }
            }
        } else {
            assert(!is_run_start(data@, i as int));
        }
        i = i + 1;
    }
    proof {
        assert(s3_scan(data@, known, 0) is None);
        lemma_s1_scan_none(data@, known, 0);
        lemma_s2_scan_none(data@, known, 0);
        lemma_s3_scan_none(data@, known, 0);
    }
    None
}

/// What the fast path of the structured scan yields for one attribute: a
/// varint at the start of the blob when the attribute's declared type marks a
/// numeric identifier.
pub open spec fn attr_fast_hit(a: RawAttr, known: Seq<i32>) -> Option<i32> {
    if a.id == Some(ATTR_ID) && a.raw_data is Some {
        s1_hit(a.raw_data->Some_0@, known, 0)
    } else {
        None
    }
}

/// What one attribute resolves to: the fast path, else the byte scan of its
/// raw data.
pub open spec fn attr_hit(a: RawAttr, known: Seq<i32>) -> Option<i32> {
    match a.raw_data {
        Some(raw) => if attr_fast_hit(a, known) is Some {
            attr_fast_hit(a, known)
        } else {
            spec_resolve(raw@, known)
        },
        None => None,
    }
}

/// First attribute hit at or after index `i`.
pub open spec fn attrs_scan(attrs: Seq<RawAttr>, known: Seq<i32>, i: int) -> Option<i32>
    decreases attrs.len() - i,
{
    if i < 0 || i >= attrs.len() {
        None
    } else if attr_hit(attrs[i], known) is Some {
        attr_hit(attrs[i], known)
    } else {
        attrs_scan(attrs, known, i + 1)
    }
}

/// What one map entry resolves to: its value's byte scan, else its key's.
pub open spec fn map_entry_hit(e: crate::models::RawMapEntry, known: Seq<i32>) -> Option<i32> {
    let value_hit = match e.value {
        Some(v) => spec_resolve(v@, known),
        None => None,
    };
    if value_hit is Some {
        value_hit
    } else {
        match e.key {
            Some(k) => spec_resolve(k@, known),
            None => None,
        }
    }
}

/// First hit among one map attribute's entries at or after index `i`.
pub open spec fn map_entries_scan(
    entries: Seq<crate::models::RawMapEntry>,
    known: Seq<i32>,
    i: int,
) -> Option<i32>
    decreases entries.len() - i,
{
    if i < 0 || i >= entries.len() {
        None
    } else if map_entry_hit(entries[i], known) is Some {
        map_entry_hit(entries[i], known)
    } else {
        map_entries_scan(entries, known, i + 1)
    }
}

/// First hit among the map attributes at or after index `i`.
pub open spec fn map_attrs_scan(
    mas: Seq<crate::models::RawMapAttr>,
    known: Seq<i32>,
    i: int,
) -> Option<i32>
    decreases mas.len() - i,
{
    if i < 0 || i >= mas.len() {
        None
    } else if map_entries_scan(mas[i].attrs@, known, 0) is Some {
        map_entries_scan(mas[i].attrs@, known, 0)
    } else {
        map_attrs_scan(mas, known, i + 1)
    }
}

/// What a whole attribute collection resolves to: the plain attributes in
/// order, then the map-valued ones.
pub open spec fn spec_extract_scene_id(attrs: AttrCollection, known: Seq<i32>) -> Option<i32> {
    if attrs_scan(attrs.attrs@, known, 0) is Some {
        attrs_scan(attrs.attrs@, known, 0)
    } else {
        map_attrs_scan(attrs.map_attrs@, known, 0)
    }
}

/// Extracts a known scene id from an attribute collection by scanning its
/// plain attributes (identifier-typed ones on a fast path) and then its
/// map-valued attributes.
pub fn extract_scene_id_from_attr_collection(attrs: &AttrCollection, scenes: &SceneTable) -> (r:
    Option<i32>)
    ensures
        r == spec_extract_scene_id(*attrs, scenes.ids()),
        r is Some ==> scenes.ids().contains(r->Some_0),
{
    let ghost known = scenes.ids();

    let mut i: usize = 0;
    while i < attrs.attrs.len()
        invariant
            0 <= i <= attrs.attrs@.len(),
            attrs_scan(attrs.attrs@, known, 0) == attrs_scan(attrs.attrs@, known, i as int),
            known == scenes.ids(),
        decreases attrs.attrs@.len() - i,
    {
        let a = &attrs.attrs[i];
        match &a.raw_data {
            Some(raw) => {
                let mut fast_hit: Option<i32> = None;
                let is_id_attr = match a.id {
                    Some(x) => x == ATTR_ID,
                    None => false,
                };
                if is_id_attr {
                    let dec = varint_decode_at(raw, 0);
                    match dec {
                        Some(v) => {
                            if v <= i32::MAX as u64 {
                                let cand = v as i32;
                                if scenes.contains(cand) {
                                    fast_hit = Some(cand);
                                }
                            }
                        },
                        None => {},
                    }
                }
                assert(fast_hit == attr_fast_hit(attrs.attrs@[i as int], known));
                match fast_hit {
                    Some(v) => {
                        assert(attr_hit(attrs.attrs@[i as int], known) == Some(v));
                        return Some(v);
                    },
                    None => {
                        let scanned = find_scene_id_in_bytes(raw, scenes);
                        match scanned {
                            Some(v) => {
                                assert(attr_hit(attrs.attrs@[i as int], known) == Some(v));
                                return Some(v);
                            },
                            None => {
                                assert(attr_hit(attrs.attrs@[i as int], known) is None);
                            },
                        }
                    },
                }
            },
            None => {
                assert(attr_hit(attrs.attrs@[i as int], known) is None);
            },
        }
        i = i + 1;
    }
    assert(attrs_scan(attrs.attrs@, known, 0) is None);

    let mut m: usize = 0;
    while m < attrs.map_attrs.len()
        invariant
            0 <= m <= attrs.map_attrs@.len(),
            map_attrs_scan(attrs.map_attrs@, known, 0) == map_attrs_scan(
                attrs.map_attrs@,
                known,
                m as int,
            ),
            attrs_scan(attrs.attrs@, known, 0) is None,
            known == scenes.ids(),
        decreases attrs.map_attrs@.len() - m,
    {
        let ma = &attrs.map_attrs[m];
        let mut e: usize = 0;
        while e < ma.attrs.len()
            invariant
                0 <= e <= ma.attrs@.len(),
                m < attrs.map_attrs@.len(),
                *ma == attrs.map_attrs@[m as int],
                map_entries_scan(ma.attrs@, known, 0) == map_entries_scan(
                    ma.attrs@,
                    known,
                    e as int,
                ),
                map_attrs_scan(attrs.map_attrs@, known, 0) == map_attrs_scan(
                    attrs.map_attrs@,
                    known,
                    m as int,
                ),
                attrs_scan(attrs.attrs@, known, 0) is None,
                known == scenes.ids(),
            decreases ma.attrs@.len() - e,
        {
            let kv = &ma.attrs[e];
            match &kv.value {
                Some(v) => {
                    let scanned = find_scene_id_in_bytes(v, scenes);
                    match scanned {
                        Some(cand) => {
                            assert(map_entry_hit(ma.attrs@[e as int], known) == Some(cand));
                            assert(map_entries_scan(ma.attrs@, known, e as int) == Some(cand));
                            assert(map_attrs_scan(attrs.map_attrs@, known, m as int) == Some(
                                cand,
                            ));
                            return Some(cand);
                        },
                        None => {},
                    }
                },
                None => {},
            }
            match &kv.key {
                Some(k) => {
                    let scanned = find_scene_id_in_bytes(k, scenes);
                    match scanned {
                        Some(cand) => {
                            assert(map_entry_hit(ma.attrs@[e as int], known) == Some(cand));
                            assert(map_entries_scan(ma.attrs@, known, e as int) == Some(cand));
                            assert(map_attrs_scan(attrs.map_attrs@, known, m as int) == Some(
                                cand,
                            ));
                            return Some(cand);
                        },
                        None => {},
                    }
                },
                None => {},
            }
            assert(map_entry_hit(ma.attrs@[e as int], known) is None);
            e = e + 1;
        }
        assert(map_entries_scan(ma.attrs@, known, 0) is None);
        m = m + 1;
    }
    assert(map_attrs_scan(attrs.map_attrs@, known, 0) is None);
    None
}

} // verus!
