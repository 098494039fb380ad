//! Skill-cooldown state and recalculation.
//!
//! The server reports raw cooldown durations per fine-grained skill-level id
//! (coarse skill id = level id divided by 100). Three global modifiers and a
//! keyed set of temporary modifiers influence the effective duration; the
//! exact numeric combination rule is a domain-configuration detail, so this
//! crate fixes one concrete rule and pins the observable invariants: a base
//! duration of zero or less passes through unchanged with a zero acceleration
//! rate, and a positive base duration yields an effective duration between
//! zero and the base.

use vstd::prelude::*;

use vstd::arithmetic::div_mod::{
    lemma_div_by_multiple, lemma_div_is_ordered, lemma_div_pos_is_pos,
};

verus! {

/// Cached cooldown state of one fine-grained skill-level id.
#[derive(Debug, Clone, Copy, PartialEq, Eq, Structural)]
pub struct SkillCdState {
    /// The skill level ID.
    pub skill_level_id: i32,
    /// The cooldown begin timestamp.
    pub begin_time: i64,
    /// The total raw duration of the cooldown in milliseconds;
    /// -1 indicates a charge/resource style entry.
    pub duration: i32,
    /// The cooldown type enum value.
    pub skill_cd_type: i32,
    /// The server-reported valid cooldown time in milliseconds.
    pub valid_cd_time: i32,
    /// Local timestamp when this cooldown state was received.
    pub received_at: i64,
    /// Duration after applying the fixed/percentage reductions and the
    /// temp-attribute rules.
    pub calculated_duration: i32,
    /// Acceleration rate for this skill, in per-10k units.
    pub cd_accelerate_rate: i32,
}

/// Payload of a `skill-cd-update` emission.
#[derive(Debug, Clone)]
pub struct SkillCdUpdatePayload {
    pub skill_cds: Vec<SkillCdState>,
}

/// Sum of the values of the temp-attribute entries at or after index `i`.
pub open spec fn temp_total_from(s: Seq<(i32, i32)>, i: int) -> int
    decreases s.len() - i,
{
    if i < 0 || i >= s.len() {
        0
    } else {
        s[i].1 + temp_total_from(s, i + 1)
    }
}

/// Sum of all temp-attribute values.
pub open spec fn temp_total(s: Seq<(i32, i32)>) -> int {
    temp_total_from(s, 0)
}

/// The suffix sum is bounded by the number of remaining entries.
pub proof fn lemma_temp_total_bound(s: Seq<(i32, i32)>, i: int)
    requires
        0 <= i <= s.len(),
    ensures
        -(s.len() - i) * 0x8000_0000 <= temp_total_from(s, i) <= (s.len() - i) * 0x8000_0000,
    decreases s.len() - i,
{
    if i < s.len() {
        lemma_temp_total_bound(s, i + 1);
    }
}

/// Clamps an integer into `[lo, hi]`.
pub open spec fn spec_clamp(x: int, lo: int, hi: int) -> int {
    if x < lo {
        lo
    } else if x > hi {
        hi
    } else {
        x
    }
}

/// The cooldown combination rule of this build: the percentage reduction
/// (per-10k, clamped into `[0, 10000]`) scales the base duration, the fixed
/// reduction (clamped at zero) is subtracted with a floor of zero, and the
/// acceleration rate (global modifier plus the sum of all temp-attribute
/// values, clamped into `[0, 1000000]`) divides the remainder.
pub open spec fn spec_calculate_skill_cd(
    base_duration: i32,
    temp_attrs: Seq<(i32, i32)>,
    attr_skill_cd: i32,
    attr_skill_cd_pct: i32,
    attr_cd_accelerate_pct: i32,
) -> (int, int) {
    if base_duration <= 0 {
        (base_duration as int, 0)
    } else {
        let pct = spec_clamp(attr_skill_cd_pct as int, 0, 10000);
        let rate = spec_clamp(attr_cd_accelerate_pct + temp_total(temp_attrs), 0, 1000000);
        let after_pct = base_duration * (10000 - pct) / 10000;
        let fixed = spec_clamp(attr_skill_cd as int, 0, after_pct);
        let after_fixed = after_pct - fixed;
        let effective = after_fixed * 10000 / (10000 + rate);
        (effective, rate)
    }
}

/// Computes the effective duration and acceleration rate of one cooldown.
///
/// A base duration of zero or less (the upstream signal for charge-style
/// entries is -1) is returned unchanged with a zero rate, whatever the
/// modifiers hold. A positive base duration yields an effective duration
/// between zero and the base.
pub fn calculate_skill_cd(
    base_duration: i32,
    skill_level_id: i32,
    temp_attrs: &Vec<(i32, i32)>,
    attr_skill_cd: i32,
    attr_skill_cd_pct: i32,
    attr_cd_accelerate_pct: i32,
) -> (r: (i32, i32))
    ensures
        (r.0 as int, r.1 as int) == spec_calculate_skill_cd(
            base_duration,
            temp_attrs@,
            attr_skill_cd,
            attr_skill_cd_pct,
            attr_cd_accelerate_pct,
        ),
        base_duration <= 0 ==> r == (base_duration, 0i32),
        base_duration > 0 ==> 0 <= r.0 <= base_duration && 0 <= r.1 <= 1000000,
{
    // The skill-level id selects no per-skill term in this build's rule; it
    // stays in the signature because callers key their caches by it.
    let _ = skill_level_id;
    if base_duration <= 0 {
        return (base_duration, 0);
    }

    // Sum the temp-attribute values.
    let mut total: i128 = 0;
    let mut i: usize = 0;
    while i < temp_attrs.len()
        invariant
            0 <= i <= temp_attrs@.len(),
            temp_total(temp_attrs@) == total + temp_total_from(temp_attrs@, i as int),
            -(i as int) * 0x8000_0000 <= total <= (i as int) * 0x8000_0000,
        decreases temp_attrs@.len() - i,
    {
        proof {
            lemma_temp_total_bound(temp_attrs@, i as int);
            lemma_temp_total_bound(temp_attrs@, i as int + 1);
        }
        total = total + (temp_attrs[i].1 as i128);
        i = i + 1;
    }
    assert(total == temp_total(temp_attrs@));

    // Clamp the modifiers into their working ranges.
    let pct: u64 = if attr_skill_cd_pct < 0 {
        0
    } else if attr_skill_cd_pct > 10000 {
        10000
    } else {
        attr_skill_cd_pct as u64
    };
    let rate_wide: i128 = (attr_cd_accelerate_pct as i128) + total;
    let rate: u64 = if rate_wide < 0 {
        0
    } else if rate_wide > 1000000 {
        1000000
    } else {
        rate_wide as u64
    };

    let base = base_duration as u64;
    proof {
        assert(base * (10000 - pct) <= 0x7fffffffu64 * 10000) by (nonlinear_arith)
            requires
                0 <= base <= 0x7fffffff,
                0 <= pct <= 10000,
        ;
    }
    let after_pct: u64 = base * (10000 - pct) / 10000;
    proof {
        assert(base as int * (10000 - pct as int) <= base as int * 10000) by (nonlinear_arith)
            requires
                0 <= base,
                0 <= pct <= 10000,
        ;
        lemma_div_pos_is_pos(base as int * (10000 - pct as int), 10000);
        lemma_div_is_ordered(base as int * (10000 - pct as int), base as int * 10000, 10000);
        lemma_div_by_multiple(base as int, 10000);
    }
    assert(after_pct <= base);
    let fixed: u64 = if attr_skill_cd < 0 {
        0
    } else if attr_skill_cd as u64 > after_pct {
        after_pct
    } else {
        attr_skill_cd as u64
    };
    let after_fixed: u64 = after_pct - fixed;
    proof {
        assert(after_fixed * 10000 <= 0x7fffffffu64 * 10000) by (nonlinear_arith)
            requires
                0 <= after_fixed <= 0x7fffffff,
        ;
    }
    let effective: u64 = after_fixed * 10000 / (10000 + rate);
    proof {
        assert(after_fixed as int * 10000 <= after_fixed as int * (10000 + rate as int))
            by (nonlinear_arith)
            requires
                0 <= after_fixed,
                0 <= rate,
        ;
        lemma_div_pos_is_pos(after_fixed as int * 10000, 10000 + rate as int);
        lemma_div_is_ordered(
            after_fixed as int * 10000,
            after_fixed as int * (10000 + rate as int),
            10000 + rate as int,
        );
        lemma_div_by_multiple(after_fixed as int, 10000 + rate as int);
    }
    assert(effective <= after_fixed);
    (effective as i32, rate as i32)
}

/// Pairwise-distinct skill-level ids in a cooldown cache.
pub open spec fn cds_unique(s: Seq<SkillCdState>) -> bool {
    forall|i: int, j: int| 0 <= i < j < s.len() ==> s[i].skill_level_id != s[j].skill_level_id
}

/// One cache entry after a recalculation pass.
pub open spec fn spec_recalced(
    cd: SkillCdState,
    temp_attrs: Seq<(i32, i32)>,
    attr_skill_cd: i32,
    attr_skill_cd_pct: i32,
    attr_cd_accelerate_pct: i32,
) -> SkillCdState {
    if cd.duration > 0 {
        let r = spec_calculate_skill_cd(
            cd.duration,
            temp_attrs,
            attr_skill_cd,
            attr_skill_cd_pct,
            attr_cd_accelerate_pct,
        );
        SkillCdState { calculated_duration: r.0 as i32, cd_accelerate_rate: r.1 as i32, ..cd }
    } else {
        SkillCdState { calculated_duration: cd.duration, cd_accelerate_rate: 0, ..cd }
    }
}

/// Recomputes the derived duration and rate of every cached entry from the
/// current modifier state, leaving every raw field unchanged.
pub fn recalculate_cached_skill_cds(
    cds: &mut Vec<SkillCdState>,
    temp_attrs: &Vec<(i32, i32)>,
    attr_skill_cd: i32,
    attr_skill_cd_pct: i32,
    attr_cd_accelerate_pct: i32,
)
    ensures
        final(cds)@.len() == old(cds)@.len(),
        forall|i: int| 0 <= i < old(cds)@.len() ==> final(cds)@[i] == spec_recalced(
            old(cds)@[i],
            temp_attrs@,
            attr_skill_cd,
            attr_skill_cd_pct,
            attr_cd_accelerate_pct,
        ),
{
    let mut i: usize = 0;
    while i < cds.len()
        invariant
            0 <= i <= cds@.len(),
            cds@.len() == old(cds)@.len(),
            forall|j: int| i <= j < cds@.len() ==> cds@[j] == old(cds)@[j],
            forall|j: int| 0 <= j < i ==> cds@[j] == spec_recalced(
                old(cds)@[j],
                temp_attrs@,
                attr_skill_cd,
                attr_skill_cd_pct,
                attr_cd_accelerate_pct,
            ),
        decreases cds@.len() - i,
    {
        let cd = cds[i];
        if cd.duration > 0 {
            let r = calculate_skill_cd(
                cd.duration,
                cd.skill_level_id,
                temp_attrs,
                attr_skill_cd,
                attr_skill_cd_pct,
                attr_cd_accelerate_pct,
            );
            let e = &mut cds[i];
            e.calculated_duration = r.0;
            e.cd_accelerate_rate = r.1;
        } else {
            let e = &mut cds[i];
            e.calculated_duration = cd.duration;
            e.cd_accelerate_rate = 0;
        }
        i = i + 1;
    }
}

/// Index of the first cache entry with the given skill-level id, or `-1`.
pub open spec fn cd_index_from(s: Seq<SkillCdState>, id: i32, i: int) -> int
    decreases s.len() - i,
{
    if i < 0 || i >= s.len() {
        -1
    } else if s[i].skill_level_id == id {
        i
    } else {
        cd_index_from(s, id, i + 1)
    }
}

/// Inserts or overwrites the cache entry for `entry.skill_level_id`.
pub fn upsert_skill_cd(cds: &mut Vec<SkillCdState>, entry: SkillCdState)
    requires
        cds_unique(old(cds)@),
    ensures
        cds_unique(final(cds)@),
        ({
            let idx = cd_index_from(old(cds)@, entry.skill_level_id, 0);
            if idx == -1 {
                final(cds)@ == old(cds)@.push(entry)
            } else {
                final(cds)@ == old(cds)@.update(idx, entry)
            }
        }),
{
    let mut i: usize = 0;
    while i < cds.len()
        invariant
            0 <= i <= cds@.len(),
            cds@ == old(cds)@,
            cds_unique(cds@),
            cd_index_from(cds@, entry.skill_level_id, 0) == cd_index_from(
                cds@,
                entry.skill_level_id,
                i as int,
            ),
        decreases cds@.len() - i,
    {
        if cds[i].skill_level_id == entry.skill_level_id {
            cds[i] = entry;
            proof {
                assert(cd_index_from(old(cds)@, entry.skill_level_id, i as int) == i);
                assert forall|a: int, b: int| 0 <= a < b < cds@.len() implies cds@[a].skill_level_id
                    != cds@[b].skill_level_id by {
                    assert(cds@[a].skill_level_id == old(cds)@[a].skill_level_id);
                    assert(cds@[b].skill_level_id == old(cds)@[b].skill_level_id);
                    assert(old(cds)@[a].skill_level_id != old(cds)@[b].skill_level_id);
                }
            }
            return ;
        }
        i = i + 1;
    }
    cds.push(entry);
    proof {
        lemma_cd_index_none(old(cds)@, entry.skill_level_id, 0);
        assert forall|a: int, b: int| 0 <= a < b < cds@.len() implies cds@[a].skill_level_id
            != cds@[b].skill_level_id by {
            if b == cds@.len() - 1 {
                assert(old(cds)@[a].skill_level_id != entry.skill_level_id);
            }
        }
    }
}

/// A cache scan that found no entry saw the id nowhere.
pub proof fn lemma_cd_index_none(s: Seq<SkillCdState>, id: i32, i: int)
    requires
        0 <= i,
        cd_index_from(s, id, i) == -1,
    ensures
        forall|j: int| i <= j < s.len() ==> s[j].skill_level_id != id,
    decreases s.len() - i,
{
    if i < s.len() {
        lemma_cd_index_none(s, id, i + 1);
    }
}

/// Coarse skill id of a fine-grained skill-level id: division by 100,
/// truncated toward zero.
pub open spec fn spec_coarse_skill_id(id: i32) -> int {
    if id >= 0 {
        id as int / 100
    } else {
        -((-(id as int)) / 100)
    }
}

/// Computes the coarse skill id (level id divided by 100, truncated).
pub fn coarse_skill_id(id: i32) -> (r: i32)
    ensures
        r as int == spec_coarse_skill_id(id),
{
    if id >= 0 {
        ((id as u32) / 100) as i32
    } else {
        let m = (-(id as i64)) as u64;
        let q = (m / 100) as i64;
        (-q) as i32
    }
}

/// The cache entry for coarse id `m` with the latest receipt timestamp among
/// the entries at or after index `i`, the earliest such entry winning ties,
/// folded against the best seen so far.
pub open spec fn best_cd_from(
    cds: Seq<SkillCdState>,
    m: i32,
    i: int,
    best: Option<SkillCdState>,
) -> Option<SkillCdState>
    decreases cds.len() - i,
{
    if i < 0 || i >= cds.len() {
        best
    } else {
        let cur = cds[i];
        let take = spec_coarse_skill_id(cur.skill_level_id) == m && (best is None
            || cur.received_at > best->Some_0.received_at);
        best_cd_from(cds, m, i + 1, if take {
            Some(cur)
        } else {
            best
        })
    }
}

/// The filtered cooldown list: for each monitored coarse id at or after
/// index `k`, the freshest cache entry belonging to it, if any.
pub open spec fn spec_filtered_skill_cds(
    cds: Seq<SkillCdState>,
    monitored: Seq<i32>,
    k: int,
) -> Seq<SkillCdState>
    decreases monitored.len() - k,
{
    if k < 0 || k >= monitored.len() {
        Seq::empty()
    } else {
        let rest = spec_filtered_skill_cds(cds, monitored, k + 1);
        match best_cd_from(cds, monitored[k], 0, None) {
            Some(e) => seq![e] + rest,
            None => rest,
        }
    }
}

/// Builds the emitted cooldown list: one entry per monitored coarse skill id
/// — the cached entry with the most recent receipt timestamp among that id's
/// fine-grained variants — with ids that have no cached entry omitted. An
/// empty monitored list yields an empty result.
pub fn build_filtered_skill_cds(cds: &Vec<SkillCdState>, monitored: &Vec<i32>) -> (r: Vec<
    SkillCdState,
>)
    ensures
        r@ == spec_filtered_skill_cds(cds@, monitored@, 0),
        monitored@.len() == 0 ==> r@.len() == 0,
{
    let mut result: Vec<SkillCdState> = Vec::new();
    let mut k: usize = 0;
    while k < monitored.len()
        invariant
            0 <= k <= monitored@.len(),
            spec_filtered_skill_cds(cds@, monitored@, 0) == result@ + spec_filtered_skill_cds(
                cds@,
                monitored@,
                k as int,
            ),
        decreases monitored@.len() - k,
    {
        let m = monitored[k];
        let mut best: Option<SkillCdState> = None;
        let mut i: usize = 0;
        while i < cds.len()
            invariant
                0 <= i <= cds@.len(),
                best_cd_from(cds@, m, 0, None) == best_cd_from(cds@, m, i as int, best),
            decreases cds@.len() - i,
        {
            let cur = cds[i];
            let take = coarse_skill_id(cur.skill_level_id) == m && (match best {
                Option::None => true,
                Option::Some(b) => cur.received_at > b.received_at,
            });
            if take {
                best = Some(cur);
            }
            i = i + 1;
        }
        match best {
            Some(e) => {
                result.push(e);
            },
            None => {},
        }
        proof {
            assert(spec_filtered_skill_cds(cds@, monitored@, 0) == result@
                + spec_filtered_skill_cds(cds@, monitored@, k as int + 1));
        }
        k = k + 1;
    }
    proof {
        assert(result@ + spec_filtered_skill_cds(cds@, monitored@, monitored@.len() as int)
            =~= result@);
    }
    result
}

} // verus!
