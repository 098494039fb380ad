//! The module-optimizer front end.
//!
//! The combinatorial search itself runs in a separate native subsystem; this
//! module owns the value model around it — parsing-adjacent record types, the
//! conversions to and from the search subsystem's record layout, the
//! prefilter that caps the search space, and the combat-power formula used to
//! rescore the returned solutions.

use vstd::prelude::*;
use vstd::string::StringExecFns;

use crate::kvlist::{first_key_index, first_key_index_from, keys_unique, kv_get};

verus! {

broadcast use vstd::seq_lib::group_to_multiset_ensures;

/// One attribute line of a module.
#[derive(Debug, Clone)]
pub struct ModulePart {
    pub id: i32,
    pub name: String,
    pub value: i32,
}

/// One owned module.
#[derive(Debug, Clone)]
pub struct ModuleInfo {
    pub name: String,
    pub config_id: i32,
    pub uuid: i32,
    pub quality: i32,
    pub parts: Vec<ModulePart>,
}

/// One attribute total of a solution.
#[derive(Debug, Clone)]
pub struct AttrBreakdownEntry {
    pub name: String,
    pub value: i32,
}

/// One candidate solution: four modules and their aggregate score.
#[derive(Debug, Clone)]
pub struct ModuleSolution {
    pub modules: Vec<ModuleInfo>,
    pub score: i32,
    /// Per-attribute totals, read as an association list in the order the
    /// search subsystem reported them; entries are carried as given, so a
    /// repeated name keeps every occurrence rather than collapsing to the
    /// last one.
    pub attr_breakdown: Vec<AttrBreakdownEntry>,
}

/// Options of one optimization request.
#[derive(Debug, Clone)]
pub struct OptimizeOptions {
    pub target_attributes: Vec<i32>,
    pub exclude_attributes: Vec<i32>,
    pub min_attr_requirements: Vec<(i32, i32)>,
    pub max_solutions: i32,
    pub max_workers: i32,
    pub use_gpu: bool,
}

/// GPU backend availability.
#[derive(Debug, Clone, Copy, PartialEq, Eq, Structural)]
pub struct GpuSupport {
    pub cuda_available: bool,
    pub opencl_available: bool,
}

/// The search subsystem's layout of one module part.
#[derive(Debug, Clone)]
pub struct ModulePartFfi {
    pub id: i32,
    pub name: String,
    pub value: i32,
}

/// The search subsystem's layout of one module.
#[derive(Debug, Clone)]
pub struct ModuleInfoFfi {
    pub name: String,
    pub config_id: i32,
    pub uuid: i32,
    pub quality: i32,
    pub parts: Vec<ModulePartFfi>,
}

/// The search subsystem's layout of one solution.
#[derive(Debug, Clone)]
pub struct ModuleSolutionFfi {
    pub modules: Vec<ModuleInfoFfi>,
    pub score: i32,
    pub attr_breakdown: Vec<AttrBreakdownEntry>,
}

/// The search subsystem's GPU availability report.
#[derive(Debug, Clone, Copy, PartialEq, Eq, Structural)]
pub struct GpuSupportInfo {
    pub cuda_available: bool,
    pub opencl_available: bool,
}

/// The search subsystem's progress report.
#[derive(Debug, Clone, Copy, PartialEq, Eq, Structural)]
pub struct ProgressInfoFfi {
    pub processed: u64,
    pub total: u64,
}

/// Default cap on returned solutions.
pub fn default_max_solutions() -> (r: i32)
    ensures
        r == 60,
{
    60
}

/// Default worker count.
pub fn default_max_workers() -> (r: i32)
    ensures
        r == 8,
{
    8
}

/// Whether the GPU path is preferred by default.
pub fn default_use_gpu() -> (r: bool)
    ensures
        r,
{
    true
}

impl Default for OptimizeOptions {
    /// No targets, no exclusions, no minimums, default caps, GPU preferred.
    fn default() -> (r: OptimizeOptions)
        ensures
            r.target_attributes@.len() == 0,
            r.exclude_attributes@.len() == 0,
            r.min_attr_requirements@.len() == 0,
            r.max_solutions == 60,
            r.max_workers == 8,
            r.use_gpu,
    {
        OptimizeOptions {
            target_attributes: Vec::new(),
            exclude_attributes: Vec::new(),
            min_attr_requirements: Vec::new(),
            max_solutions: default_max_solutions(),
            max_workers: default_max_workers(),
            use_gpu: default_use_gpu(),
        }
    }
}

/// The per-attribute totals after the parts of one module at or after index
/// `j` are absorbed.
pub open spec fn spec_accum_parts(acc: Seq<(i32, int)>, parts: Seq<ModulePart>, j: int) -> Seq<(
    i32,
    int,
)>
    decreases parts.len() - j,
{
    if j < 0 || j >= parts.len() {
        acc
    } else {
        let id = parts[j].id;
        let idx = first_key_index(acc, id);
        let acc2 = if idx == -1 {
            acc.push((id, parts[j].value as int))
        } else {
            acc.update(idx, (id, acc[idx].1 + parts[j].value))
        };
        spec_accum_parts(acc2, parts, j + 1)
    }
}

/// The per-attribute totals after the modules at or after index `i`.
pub open spec fn spec_accum_modules(acc: Seq<(i32, int)>, modules: Seq<ModuleInfo>, i: int) -> Seq<
    (i32, int),
>
    decreases modules.len() - i,
{
    if i < 0 || i >= modules.len() {
        acc
    } else {
        spec_accum_modules(spec_accum_parts(acc, modules[i].parts@, 0), modules, i + 1)
    }
}

/// How many of the activation thresholds 1, 4, 8, 12, 16, 20 a total meets.
pub open spec fn spec_threshold_level(v: int) -> int {
    if v >= 20 {
        6
    } else if v >= 16 {
        5
    } else if v >= 12 {
        4
    } else if v >= 8 {
        3
    } else if v >= 4 {
        2
    } else if v >= 1 {
        1
    } else {
        0
    }
}

/// The attribute ids whose activations use the special power scale.
pub open spec fn spec_special_attr(id: i32) -> bool {
    id == 2104 || id == 2105 || id == 2204 || id == 2205 || id == 2404 || id == 2405 || id == 2406
        || id == 2304
}

/// The activation power one attribute total contributes.
pub open spec fn spec_threshold_power(id: i32, v: int) -> int {
    let level = spec_threshold_level(v);
    if level == 0 {
        0
    } else if spec_special_attr(id) {
        if level == 1 {
            14
        } else if level == 2 {
            29
        } else if level == 3 {
            59
        } else if level == 4 {
            89
        } else if level == 5 {
            298
        } else {
            448
        }
    } else {
        if level == 1 {
            7
        } else if level == 2 {
            14
        } else if level == 3 {
            29
        } else if level == 4 {
            44
        } else if level == 5 {
            167
        } else {
            254
        }
    }
}

/// Computes the activation power of one attribute total.
pub fn threshold_power(id: i32, v: i64) -> (r: i64)
    ensures
        r as int == spec_threshold_power(id, v as int),
        0 <= r <= 448,
{
    let level: i64 = if v >= 20 {
        6
    } else if v >= 16 {
        5
    } else if v >= 12 {
        4
    } else if v >= 8 {
        3
    } else if v >= 4 {
        2
    } else if v >= 1 {
        1
    } else {
        0
    };
    let special = id == 2104 || id == 2105 || id == 2204 || id == 2205 || id == 2404 || id == 2405
        || id == 2406 || id == 2304;
    if level == 0 {
        0
    } else if special {
        if level == 1 {
            14
        } else if level == 2 {
            29
        } else if level == 3 {
            59
        } else if level == 4 {
            89
        } else if level == 5 {
            298
        } else {
            448
        }
    } else {
        if level == 1 {
            7
        } else if level == 2 {
            14
        } else if level == 3 {
            29
        } else if level == 4 {
            44
        } else if level == 5 {
            167
        } else {
            254
        }
    }
}

/// The power granted for the clamped sum of all attribute totals.
pub open spec fn spec_total_attr_power_table() -> Seq<i32> {
    seq![
        0, 5, 11, 17, 23, 29, 34, 40, 46, 52, 58, 64,
        69, 75, 81, 87, 93, 99, 104, 110, 116, 122, 128, 133,
        139, 145, 151, 157, 163, 168, 174, 180, 186, 192, 198, 203,
        209, 215, 221, 227, 233, 238, 244, 250, 256, 262, 267, 273,
        279, 285, 291, 297, 302, 308, 314, 320, 326, 332, 337, 343,
        349, 355, 361, 366, 372, 378, 384, 390, 396, 401, 407, 413,
        419, 425, 431, 436, 442, 448, 454, 460, 466, 471, 477, 483,
        489, 495, 500, 506, 512, 518, 524, 530, 535, 541, 547, 553,
        559, 565, 570, 576, 582, 588, 594, 599, 605, 611, 617, 623,
        629, 634, 640, 646, 652, 658, 664, 669, 675, 681, 687, 693,
        699
    ]
}

/// The combined-total power: the table entry at the total clamped into
/// `[0, 120]` (a negative total reads as the top entry, matching a wrapped
/// unsigned index).
pub open spec fn spec_total_attr_power(total: int) -> int {
    let idx = if total < 0 || total > 120 {
        120
    } else {
        total
    };
    spec_total_attr_power_table()[idx] as int
}

/// Looks up the combined-total power.
pub fn total_attr_power(total: i64) -> (r: i32)
    ensures
        r as int == spec_total_attr_power(total as int),
        0 <= r <= 699,
{
    let table: Vec<i32> = vec![
        0, 5, 11, 17, 23, 29, 34, 40, 46, 52, 58, 64,
        69, 75, 81, 87, 93, 99, 104, 110, 116, 122, 128, 133,
        139, 145, 151, 157, 163, 168, 174, 180, 186, 192, 198, 203,
        209, 215, 221, 227, 233, 238, 244, 250, 256, 262, 267, 273,
        279, 285, 291, 297, 302, 308, 314, 320, 326, 332, 337, 343,
        349, 355, 361, 366, 372, 378, 384, 390, 396, 401, 407, 413,
        419, 425, 431, 436, 442, 448, 454, 460, 466, 471, 477, 483,
        489, 495, 500, 506, 512, 518, 524, 530, 535, 541, 547, 553,
        559, 565, 570, 576, 582, 588, 594, 599, 605, 611, 617, 623,
        629, 634, 640, 646, 652, 658, 664, 669, 675, 681, 687, 693,
        699
    ];
    proof {
        assert(table@ =~= spec_total_attr_power_table());
    }
    let idx: usize = if total < 0 || total > 120 {
        120
    } else {
        total as usize
    };
    table[idx]
}

/// The sum of every attribute total.
pub open spec fn spec_value_sum(acc: Seq<(i32, int)>, k: int) -> int
    decreases acc.len() - k,
{
    if k < 0 || k >= acc.len() {
        0
    } else {
        acc[k].1 + spec_value_sum(acc, k + 1)
    }
}

/// The sum of every attribute's activation power.
pub open spec fn spec_threshold_sum(acc: Seq<(i32, int)>, k: int) -> int
    decreases acc.len() - k,
{
    if k < 0 || k >= acc.len() {
        0
    } else {
        spec_threshold_power(acc[k].0, acc[k].1) + spec_threshold_sum(acc, k + 1)
    }
}

/// Total number of parts across the modules.
pub open spec fn spec_parts_count(modules: Seq<ModuleInfo>, i: int) -> int
    decreases modules.len() - i,
{
    if i < 0 || i >= modules.len() {
        0
    } else {
        modules[i].parts@.len() + spec_parts_count(modules, i + 1)
    }
}

/// The combat power of a set of modules: per-attribute totals grant
/// threshold activation power, and the combined total grants a table-driven
/// bonus.
pub open spec fn spec_combat_power(modules: Seq<ModuleInfo>) -> int {
    let acc = spec_accum_modules(Seq::empty(), modules, 0);
    spec_threshold_sum(acc, 0) + spec_total_attr_power(spec_value_sum(acc, 0))
}

/// Absolute-value sum of the attribute totals at or after index `k`.
pub open spec fn spec_abs_sum(acc: Seq<(i32, int)>, k: int) -> int
    decreases acc.len() - k,
{
    if k < 0 || k >= acc.len() {
        0
    } else {
        (if acc[k].1 >= 0 {
            acc[k].1
        } else {
            -acc[k].1
        }) + spec_abs_sum(acc, k + 1)
    }
}




/// Activation power is within its scale.
proof fn lemma_threshold_sum_bounds(acc: Seq<(i32, int)>, k: int)
    requires
        0 <= k <= acc.len(),
    ensures
        0 <= spec_threshold_sum(acc, k) <= (acc.len() - k) * 448,
    decreases acc.len() - k,
{
    if k < acc.len() {
        lemma_threshold_sum_bounds(acc, k + 1);
    }
}

/// Suffix part counts are non-negative.
proof fn lemma_parts_count_nonneg(modules: Seq<ModuleInfo>, i: int)
    requires
        0 <= i <= modules.len(),
    ensures
        spec_parts_count(modules, i) >= 0,
    decreases modules.len() - i,
{
    if i < modules.len() {
        lemma_parts_count_nonneg(modules, i + 1);
    }
}

/// Computes the combat power of a set of modules: each attribute's summed
/// value grants threshold activation power on the basic or special scale,
/// and the clamped sum of all values grants the table-driven bonus.
pub fn calculate_combat_power(modules: &Vec<ModuleInfo>) -> (r: i32)
    requires
        spec_parts_count(modules@, 0) <= i32::MAX as int,
        spec_combat_power(modules@) <= i32::MAX as int,
    ensures
        r as int == spec_combat_power(modules@),
        r >= 0,
{
    let ghost total_parts = spec_parts_count(modules@, 0);
    let mut acc: Vec<(i32, i64)> = Vec::new();
    let ghost mut sacc: Seq<(i32, int)> = Seq::empty();
    let ghost mut p: int = 0;

    proof {
        lemma_parts_count_nonneg(modules@, 0);
    }
    let mut i: usize = 0;
    while i < modules.len()
        invariant
            0 <= i <= modules@.len(),
            total_parts == spec_parts_count(modules@, 0),
            total_parts <= i32::MAX as int,
            p == total_parts - spec_parts_count(modules@, i as int),
            0 <= p <= total_parts,
            acc@.len() == sacc.len(),
            forall|j: int|
                0 <= j < sacc.len() ==> (#[trigger] acc@[j]).0 == sacc[j].0 && acc@[j].1 as int
                    == sacc[j].1,
            spec_abs_sum(sacc, 0) <= p * 0x8000_0000,
            sacc.len() <= p,
            spec_accum_modules(Seq::empty(), modules@, 0) == spec_accum_modules(
                sacc,
                modules@,
                i as int,
            ),
        decreases modules@.len() - i,
    {
        let parts = &modules[i].parts;
        proof {
            lemma_parts_count_nonneg(modules@, i as int + 1);
        }
        let mut j: usize = 0;
        while j < parts.len()
            invariant
                0 <= j <= parts@.len(),
                i < modules@.len(),
                *parts == modules@[i as int].parts,
                total_parts == spec_parts_count(modules@, 0),
                total_parts <= i32::MAX as int,
                p == total_parts - spec_parts_count(modules@, i as int + 1) - (parts@.len() - j),
                0 <= p <= total_parts,
                acc@.len() == sacc.len(),
                forall|jj: int|
                    0 <= jj < sacc.len() ==> (#[trigger] acc@[jj]).0 == sacc[jj].0 && acc@[jj].1
                        as int == sacc[jj].1,
                spec_abs_sum(sacc, 0) <= p * 0x8000_0000,
                sacc.len() <= p,
                spec_accum_modules(Seq::empty(), modules@, 0) == spec_accum_modules(
                    spec_accum_parts(sacc, parts@, j as int),
                    modules@,
                    i as int + 1,
                ),
            decreases parts@.len() - j,
        {
            proof {
                lemma_parts_count_nonneg(modules@, i as int + 1);
            }
            let id = parts[j].id;
            let value = parts[j].value;
            let found = crate::kvlist::kv_find_i32(&acc, id);
            let ghost old_sacc = sacc;
            proof {
                crate::kvlist::lemma_first_key_index_same_keys(acc@, sacc, id, 0);
                crate::kvlist::lemma_first_key_index_from(acc@, id, 0);
            }
            match found {
                Some(idx) => {
                    proof {
                        lemma_abs_sum_entry(sacc, idx as int);
                        lemma_abs_nonneg(sacc, 0);
                        assert(p * 0x8000_0000 <= 0x7fff_ffffi64 * 0x8000_0000)
                            by (nonlinear_arith)
                            requires
                                0 <= p <= 0x7fff_ffff,
                        ;
                    }
                    let prev = acc[idx].1;
                    let e = &mut acc[idx];
                    e.1 = prev + (value as i64);
                    proof {
                        sacc = sacc.update(idx as int, (id, sacc[idx as int].1 + value));
                        assert(sacc[idx as int].0 == id) by {
                            assert(old_sacc[idx as int].0 == acc@[idx as int].0);
                        }
                        lemma_abs_sum_update(old_sacc, idx as int, value as int);
                    }
                },
                None => {
                    acc.push((id, value as i64));
                    proof {
                        sacc = sacc.push((id, value as int));
                        lemma_abs_sum_push(old_sacc, id, value as int);
                    }
                },
            }
            proof {
                p = p + 1;
            }
            j = j + 1;
        }
        i = i + 1;
    }
    proof {
        assert(spec_accum_modules(Seq::empty(), modules@, 0) == sacc);
        assert(p * 0x8000_0000 <= 0x7fff_ffffi64 * 0x8000_0000) by (nonlinear_arith)
            requires
                0 <= p <= 0x7fff_ffff,
        ;
    }

    proof {
        lemma_abs_nonneg(sacc, 0);
    }

    // Sum the totals and the activation powers.
    let mut threshold_sum: i64 = 0;
    let mut value_sum: i64 = 0;
    let mut k: usize = 0;
    while k < acc.len()
        invariant
            0 <= k <= acc@.len(),
            acc@.len() == sacc.len(),
            sacc.len() <= 0x7fff_ffff,
            forall|j: int|
                0 <= j < sacc.len() ==> (#[trigger] acc@[j]).0 == sacc[j].0 && acc@[j].1 as int
                    == sacc[j].1,
            spec_abs_sum(sacc, 0) <= 0x7fff_ffffi64 * 0x8000_0000,
            threshold_sum as int == spec_threshold_sum(sacc, 0) - spec_threshold_sum(
                sacc,
                k as int,
            ),
            0 <= threshold_sum <= (k as int) * 448,
            value_sum as int == spec_value_sum(sacc, 0) - spec_value_sum(sacc, k as int),
            -spec_abs_sum(sacc, 0) <= value_sum as int <= spec_abs_sum(sacc, 0),
        decreases acc@.len() - k,
    {
        proof {
            lemma_threshold_sum_bounds(sacc, 0);
            lemma_threshold_sum_bounds(sacc, k as int);
            lemma_threshold_sum_bounds(sacc, k as int + 1);
            lemma_prefix_sums(sacc, k as int);
            lemma_prefix_sums(sacc, k as int + 1);
            assert(sacc.len() * 448 <= 0x7fff_ffffi64 * 448) by (nonlinear_arith)
                requires
                    sacc.len() <= 0x7fff_ffff,
            ;
        }
        let entry_id = acc[k].0;
        let entry_val = acc[k].1;
        let tp = threshold_power(entry_id, entry_val);
        threshold_sum = threshold_sum + tp;
        value_sum = value_sum + entry_val;
        k = k + 1;
    }
    proof {
        lemma_threshold_sum_bounds(sacc, 0);
        lemma_prefix_sums(sacc, sacc.len() as int);
    }

    let bonus = total_attr_power(value_sum);
    let result: i64 = threshold_sum + (bonus as i64);
    result as i32
}

/// The consumed prefix of the plain sum is bounded by the consumed prefix of
/// the absolute-value sum.
proof fn lemma_prefix_sums(acc: Seq<(i32, int)>, k: int)
    requires
        0 <= k <= acc.len(),
    ensures
        spec_abs_sum(acc, k) >= 0,
        spec_abs_sum(acc, k) <= spec_abs_sum(acc, 0),
        -(spec_abs_sum(acc, 0) - spec_abs_sum(acc, k)) <= spec_value_sum(acc, 0) - spec_value_sum(
            acc,
            k,
        ) <= spec_abs_sum(acc, 0) - spec_abs_sum(acc, k),
    decreases k,
{
    lemma_abs_nonneg(acc, k);
    if k > 0 {
        lemma_prefix_sums(acc, k - 1);
        assert(spec_abs_sum(acc, k - 1) == (if acc[k - 1].1 >= 0 {
            acc[k - 1].1
        } else {
            -acc[k - 1].1
        }) + spec_abs_sum(acc, k));
        assert(spec_value_sum(acc, k - 1) == acc[k - 1].1 + spec_value_sum(acc, k));
    }
}

/// Splitting the absolute-value sum at one entry.
proof fn lemma_abs_sum_entry(acc: Seq<(i32, int)>, idx: int)
    requires
        0 <= idx < acc.len(),
    ensures
        (if acc[idx].1 >= 0 {
            acc[idx].1
        } else {
            -acc[idx].1
        }) <= spec_abs_sum(acc, 0),
    decreases idx,
{
    lemma_abs_sum_entry_from(acc, 0, idx);
}

proof fn lemma_abs_sum_entry_from(acc: Seq<(i32, int)>, j: int, idx: int)
    requires
        0 <= j <= idx < acc.len(),
    ensures
        (if acc[idx].1 >= 0 {
            acc[idx].1
        } else {
            -acc[idx].1
        }) <= spec_abs_sum(acc, j),
    decreases idx - j,
{
    lemma_abs_nonneg(acc, j + 1);
    if j < idx {
        lemma_abs_sum_entry_from(acc, j + 1, idx);
    }
}

proof fn lemma_abs_nonneg(acc: Seq<(i32, int)>, k: int)
    ensures
        spec_abs_sum(acc, k) >= 0,
    decreases acc.len() - k,
{
    if 0 <= k < acc.len() {
        lemma_abs_nonneg(acc, k + 1);
    }
}

/// Updating one entry moves the absolute-value sum by at most the delta.
proof fn lemma_abs_sum_update(acc: Seq<(i32, int)>, idx: int, delta: int)
    requires
        0 <= idx < acc.len(),
    ensures
        spec_abs_sum(acc.update(idx, (acc[idx].0, acc[idx].1 + delta)), 0) <= spec_abs_sum(acc, 0)
            + (if delta >= 0 {
            delta
        } else {
            -delta
        }),
    decreases acc.len(),
{
    lemma_abs_sum_update_from(acc, 0, idx, delta);
}

proof fn lemma_abs_sum_update_from(acc: Seq<(i32, int)>, j: int, idx: int, delta: int)
    requires
        0 <= j <= acc.len(),
        0 <= idx < acc.len(),
    ensures
        j > idx ==> spec_abs_sum(acc.update(idx, (acc[idx].0, acc[idx].1 + delta)), j)
            == spec_abs_sum(acc, j),
        j <= idx ==> spec_abs_sum(acc.update(idx, (acc[idx].0, acc[idx].1 + delta)), j)
            <= spec_abs_sum(acc, j) + (if delta >= 0 {
            delta
        } else {
            -delta
        }),
    decreases acc.len() - j,
{
    let upd = acc.update(idx, (acc[idx].0, acc[idx].1 + delta));
    assert(upd.len() == acc.len());
    if j < acc.len() {
        lemma_abs_sum_update_from(acc, j + 1, idx, delta);
        if j != idx {
            assert(upd[j] == acc[j]);
        } else {
            assert(upd[j] == (acc[idx].0, acc[idx].1 + delta));
        }
    } else {
        assert(spec_abs_sum(upd, j) == 0);
        assert(spec_abs_sum(acc, j) == 0);
    }
}

/// Appending one entry adds at most its absolute value.
proof fn lemma_abs_sum_push(acc: Seq<(i32, int)>, id: i32, v: int)
    ensures
        spec_abs_sum(acc.push((id, v)), 0) <= spec_abs_sum(acc, 0) + (if v >= 0 {
            v
        } else {
            -v
        }),
{
    lemma_abs_sum_push_from(acc, 0, id, v);
}

proof fn lemma_abs_sum_push_from(acc: Seq<(i32, int)>, j: int, id: i32, v: int)
    requires
        0 <= j <= acc.len(),
    ensures
        spec_abs_sum(acc.push((id, v)), j) <= spec_abs_sum(acc, j) + (if v >= 0 {
            v
        } else {
            -v
        }),
    decreases acc.len() - j,
{
    let ext = acc.push((id, v));
    if j < acc.len() {
        assert(ext[j] == acc[j]);
        lemma_abs_sum_push_from(acc, j + 1, id, v);
    } else {
        assert(ext[j] == (id, v));
        assert(spec_abs_sum(ext, j + 1) == 0);
    }
}

/// The prefilter score of one module: the sum of its part values, counting
/// only targeted attributes when a target set is given, from part `j` on.
pub open spec fn spec_module_score(m: ModuleInfo, targets: Seq<i32>, j: int) -> int
    decreases m.parts@.len() - j,
{
    if j < 0 || j >= m.parts@.len() {
        0
    } else {
        let take = targets.len() == 0 || targets.contains(m.parts@[j].id);
        (if take {
            m.parts@[j].value as int
        } else {
            0
        }) + spec_module_score(m, targets, j + 1)
    }
}

/// The running score is bounded by the number of parts left.
proof fn lemma_module_score_bound(m: ModuleInfo, targets: Seq<i32>, j: int)
    requires
        0 <= j <= m.parts@.len(),
    ensures
        -(m.parts@.len() - j) * 0x8000_0000 <= spec_module_score(m, targets, j) <= (m.parts@.len()
            - j) * 0x8000_0000,
    decreases m.parts@.len() - j,
{
    if j < m.parts@.len() {
        lemma_module_score_bound(m, targets, j + 1);
    }
}

impl ModulePart {
    /// A field-for-field copy.
    pub fn clone_part(&self) -> (r: ModulePart)
        ensures
            r == *self,
    {
        ModulePart { id: self.id, name: self.name.clone(), value: self.value }
    }
}

/// The module appears (field for field) somewhere in the list.
pub open spec fn module_appears(m: ModuleInfo, modules: Seq<ModuleInfo>) -> bool {
    exists|j: int| 0 <= j < modules.len() && module_like(m, #[trigger] modules[j])
}

/// Two modules with the same fields, their part lists compared as sequences.
pub open spec fn module_like(a: ModuleInfo, b: ModuleInfo) -> bool {
    a.name == b.name && a.config_id == b.config_id && a.uuid == b.uuid && a.quality == b.quality
        && a.parts@ == b.parts@
}

/// The prefilter score reads only the part list.
proof fn lemma_module_score_like(a: ModuleInfo, b: ModuleInfo, targets: Seq<i32>, j: int)
    requires
        a.parts@ == b.parts@,
    ensures
        spec_module_score(a, targets, j) == spec_module_score(b, targets, j),
    decreases a.parts@.len() - j,
{
    if 0 <= j < a.parts@.len() {
        lemma_module_score_like(a, b, targets, j + 1);
    }
}

impl ModuleInfo {
    /// A field-for-field copy.
    pub fn clone_module(&self) -> (r: ModuleInfo)
        ensures
            module_like(r, *self),
    {
        let mut parts: Vec<ModulePart> = Vec::new();
        let mut j: usize = 0;
        while j < self.parts.len()
            invariant
                0 <= j <= self.parts@.len(),
                parts@.len() == j,
                forall|k: int| 0 <= k < j ==> parts@[k] == self.parts@[k],
            decreases self.parts@.len() - j,
        {
            parts.push(self.parts[j].clone_part());
            j = j + 1;
        }
        proof {
            assert(parts@ =~= self.parts@);
        }
        ModuleInfo {
            name: self.name.clone(),
            config_id: self.config_id,
            uuid: self.uuid,
            quality: self.quality,
            parts,
        }
    }
}

/// Computes the prefilter score of one module.
fn module_score(m: &ModuleInfo, targets: &Vec<i32>) -> (r: i128)
    ensures
        r as int == spec_module_score(*m, targets@, 0),
{
    let mut acc: i128 = 0;
    let mut j: usize = 0;
    while j < m.parts.len()
        invariant
            0 <= j <= m.parts@.len(),
            spec_module_score(*m, targets@, 0) == acc + spec_module_score(*m, targets@, j as int),
            -(j as int) * 0x8000_0000 <= acc <= (j as int) * 0x8000_0000,
        decreases m.parts@.len() - j,
    {
        let take = targets.len() == 0 || crate::buffs::ids_contain(targets, m.parts[j].id);
        if take {
            acc = acc + (m.parts[j].value as i128);
        }
        j = j + 1;
    }
    acc
}

/// Whether a module list is large enough to optimize over: the search
/// commands demand at least four modules and return their error otherwise.
pub fn meets_module_minimum(modules: &Vec<ModuleInfo>) -> (r: bool)
    ensures
        r == (modules@.len() >= 4),
{
    modules.len() >= 4
}

/// The result is a top selection from the input: `chosen` names pairwise
/// distinct input positions, the result copies them field for field, and
/// every input module left out scores no higher than any kept one.
pub open spec fn spec_top_selection(
    r: Seq<ModuleInfo>,
    modules: Seq<ModuleInfo>,
    targets: Seq<i32>,
    chosen: Seq<int>,
) -> bool {
    &&& chosen.no_duplicates()
    &&& chosen.len() == r.len()
    &&& (forall|i: int|
        0 <= i < r.len() ==> 0 <= #[trigger] chosen[i] < modules.len() && module_like(
            r[i],
            modules[chosen[i]],
        ))
    &&& (forall|i: int, j: int|
        #![trigger r[i], modules[j]]
        0 <= i < r.len() && 0 <= j < modules.len() && !chosen.contains(j) ==> spec_module_score(
            modules[j],
            targets,
            0,
        ) <= spec_module_score(r[i], targets, 0))
}

/// Keeps the `max_count` highest-scoring modules (sum of targeted part
/// values), highest first; ties fall in either order. The kept modules
/// dominate the omitted ones: some duplicate-free choice of `min(max_count,
/// len)` input positions backs the result, and nothing outside it scores
/// higher.
pub fn prefilter_modules_by_total_scores(
    modules: &Vec<ModuleInfo>,
    target_attributes: &Vec<i32>,
    max_count: usize,
) -> (r: Vec<ModuleInfo>)
    ensures
        r@.len() == if max_count < modules@.len() {
            max_count as int
        } else {
            modules@.len() as int
        },
        forall|i: int| 0 <= i < r@.len() ==> module_appears(#[trigger] r@[i], modules@),
        forall|a: int, b: int|
            0 <= a < b < r@.len() ==> spec_module_score(#[trigger] r@[a], target_attributes@, 0)
                >= spec_module_score(#[trigger] r@[b], target_attributes@, 0),
        exists|chosen: Seq<int>| spec_top_selection(r@, modules@, target_attributes@, chosen),
{
    // Score every module by index.
    let mut scored: Vec<(usize, i128)> = Vec::new();
    let mut i: usize = 0;
    while i < modules.len()
        invariant
            0 <= i <= modules@.len(),
            scored@.len() == i,
            forall|k: int|
                0 <= k < i ==> (#[trigger] scored@[k]).0 == k && scored@[k].0 < modules@.len()
                    && scored@[k].1 as int == spec_module_score(
                    modules@[k],
                    target_attributes@,
                    0,
                ),
        decreases modules@.len() - i,
    {
        let sc = module_score(&modules[i], target_attributes);
        scored.push((i, sc));
        i = i + 1;
    }

    let ghost scored0 = scored@;
    proof {
        assert(forall|k: int|
            0 <= k < scored0.len() ==> (#[trigger] scored0[k]).0 == k);
        assert(keys_unique(scored0));
    }

    // Extraction sort, highest score first.
    let mut work = scored;
    let mut out: Vec<(usize, i128)> = Vec::new();
    while work.len() > 0
        invariant
            forall|k: int|
                0 <= k < out@.len() ==> (#[trigger] out@[k]).0 < modules@.len() && out@[k].1 as int
                    == spec_module_score(modules@[out@[k].0 as int], target_attributes@, 0),
            forall|k: int|
                0 <= k < work@.len() ==> (#[trigger] work@[k]).0 < modules@.len() && work@[k].1
                    as int == spec_module_score(
                    modules@[work@[k].0 as int],
                    target_attributes@,
                    0,
                ),
            forall|a: int, b: int| 0 <= a < b < out@.len() ==> (#[trigger] out@[a]).1 >= (
            #[trigger] out@[b]).1,
            forall|a: int, b: int|
                #![trigger out@[a], work@[b]]
                0 <= a < out@.len() && 0 <= b < work@.len() ==> out@[a].1 >= work@[b].1,
            out@.len() + work@.len() == modules@.len(),
            keys_unique(out@),
            keys_unique(work@),
            forall|a: int, b: int|
                #![trigger out@[a].0, work@[b].0]
                0 <= a < out@.len() && 0 <= b < work@.len() ==> out@[a].0 != work@[b].0,
            out@.to_multiset().add(work@.to_multiset()) =~= scored0.to_multiset(),
        decreases work@.len(),
    {
        let mut best: usize = 0;
        let mut k: usize = 1;
        while k < work.len()
            invariant
                0 < work@.len(),
                0 <= best < k <= work@.len(),
                forall|j: int| 0 <= j < k ==> work@[best as int].1 >= (#[trigger] work@[j]).1,
            decreases work@.len() - k,
        {
            if work[k].1 > work[best].1 {
                best = k;
            }
            k = k + 1;
        }
        let ghost prev = work@;
        let ghost prev_out = out@;
        let m = work.remove(best);
        out.push(m);
        proof {
            assert(prev.remove(best as int).to_multiset() =~= prev.to_multiset().remove(m));
            assert(out@.to_multiset() =~= prev_out.to_multiset().insert(m));
            assert(prev.to_multiset().count(m) > 0);
            assert(out@.to_multiset().add(work@.to_multiset()) =~= scored0.to_multiset());
            assert forall|b: int| 0 <= b < work@.len() implies (#[trigger] work@[b]).0
                < modules@.len() && work@[b].1 as int == spec_module_score(
                modules@[work@[b].0 as int],
                target_attributes@,
                0,
            ) && m.1 >= work@[b].1 by {
                let b0: int = if b < best { b } else { b + 1 };
                assert(work@[b] == prev[b0]);
            }
            assert forall|a: int, b: int| 0 <= a < b < work@.len() implies work@[a].0
                != work@[b].0 by {
                let a0: int = if a < best { a } else { a + 1 };
                let b0: int = if b < best { b } else { b + 1 };
                assert(work@[a] == prev[a0]);
                assert(work@[b] == prev[b0]);
            }
            assert forall|a: int, b: int| 0 <= a < b < out@.len() implies out@[a].0
                != out@[b].0 by {
                if b == out@.len() - 1 {
                    assert(out@[a] == prev_out[a]);
                    assert(out@[b] == m && m == prev[best as int]);
                }
            }
            assert forall|a: int, b: int|
                #![trigger out@[a].0, work@[b].0]
                0 <= a < out@.len() && 0 <= b < work@.len() implies out@[a].0 != work@[b].0 by {
                let b0: int = if b < best { b } else { b + 1 };
                assert(work@[b] == prev[b0]);
                if a < out@.len() - 1 {
                    assert(out@[a] == prev_out[a]);
                } else {
                    assert(out@[a] == prev[best as int]);
                }
            }
        }
    }

    proof {
        assert(work@.to_multiset() =~= Seq::<(usize, i128)>::empty().to_multiset());
        assert(out@.to_multiset() =~= scored0.to_multiset());
    }

    // Take the highest-scoring prefix.
    let keep = if max_count < out.len() {
        max_count
    } else {
        out.len()
    };
    let mut r: Vec<ModuleInfo> = Vec::new();
    let mut t: usize = 0;
    while t < keep
        invariant
            0 <= t <= keep,
            keep <= out@.len(),
            out@.len() == modules@.len(),
            forall|k: int|
                0 <= k < out@.len() ==> (#[trigger] out@[k]).0 < modules@.len() && out@[k].1 as int
                    == spec_module_score(modules@[out@[k].0 as int], target_attributes@, 0),
            forall|a: int, b: int| 0 <= a < b < out@.len() ==> (#[trigger] out@[a]).1 >= (
            #[trigger] out@[b]).1,
            keys_unique(out@),
            out@.to_multiset() =~= scored0.to_multiset(),
            r@.len() == t,
            forall|k: int| 0 <= k < t ==> module_like(#[trigger] r@[k], modules@[out@[k].0 as int]),
        decreases keep - t,
    {
        let idx = out[t].0;
        r.push(modules[idx].clone_module());
        t = t + 1;
    }
    proof {
        assert forall|i2: int| 0 <= i2 < r@.len() implies module_appears(
            #[trigger] r@[i2],
            modules@,
        ) by {
            let w: int = out@[i2].0 as int;
            assert(module_like(r@[i2], modules@[w]));
        }
        assert forall|a: int, b: int|
            0 <= a < b < r@.len() implies spec_module_score(
            #[trigger] r@[a],
            target_attributes@,
            0,
        ) >= spec_module_score(#[trigger] r@[b], target_attributes@, 0) by {
            assert(module_like(r@[a], modules@[out@[a].0 as int]));
            assert(module_like(r@[b], modules@[out@[b].0 as int]));
            lemma_module_score_like(r@[a], modules@[out@[a].0 as int], target_attributes@, 0);
            lemma_module_score_like(r@[b], modules@[out@[b].0 as int], target_attributes@, 0);
            assert(out@[a].1 >= out@[b].1);
        }

        // The first `keep` positions of the sorted order back the result;
        // every other input index sits further down the order, so it scores
        // no higher than anything kept.
        let chosen = Seq::new(r@.len() as nat, |i: int| out@[i].0 as int);
        assert forall|a: int, b: int|
            0 <= a < chosen.len() && 0 <= b < chosen.len() && a != b implies chosen[a]
            != chosen[b] by {
            assert(out@[a].0 != out@[b].0);
        }
        assert(chosen.no_duplicates());
        assert forall|i2: int|
            0 <= i2 < r@.len() implies 0 <= #[trigger] chosen[i2] < modules@.len() && module_like(
            r@[i2],
            modules@[chosen[i2]],
        ) by {
            assert(out@[i2].0 < modules@.len());
        }
        assert forall|i2: int, j: int|
            #![trigger r@[i2], modules@[j]]
            0 <= i2 < r@.len() && 0 <= j < modules@.len() && !chosen.contains(j) implies
            spec_module_score(modules@[j], target_attributes@, 0) <= spec_module_score(
            r@[i2],
            target_attributes@,
            0,
        ) by {
            assert(scored0[j] == (j as usize, scored0[j].1));
            assert(scored0.to_multiset().count(scored0[j]) > 0);
            assert(out@.to_multiset().count(scored0[j]) > 0);
            assert(out@.contains(scored0[j]));
            let p = choose|p: int| 0 <= p < out@.len() && out@[p] == scored0[j];
            assert(out@[p].0 == j as usize);
            if p < r@.len() {
                assert(chosen[p] == j);
                assert(false);
            }
            assert(out@[i2].1 >= out@[p].1);
            assert(out@[p].1 as int == spec_module_score(modules@[j], target_attributes@, 0));
            lemma_module_score_like(r@[i2], modules@[out@[i2].0 as int], target_attributes@, 0);
        }
        assert(spec_top_selection(r@, modules@, target_attributes@, chosen));
    }
    r
}

/// One part in the search subsystem's layout, field for field.
pub open spec fn spec_part_to_ffi(p: ModulePart, q: ModulePartFfi) -> bool {
    q.id == p.id && q.name == p.name && q.value == p.value
}

/// One module in the search subsystem's layout, field for field.
pub open spec fn spec_module_to_ffi(m: ModuleInfo, f: ModuleInfoFfi) -> bool {
    &&& f.name == m.name
    &&& f.config_id == m.config_id
    &&& f.uuid == m.uuid
    &&& f.quality == m.quality
    &&& f.parts@.len() == m.parts@.len()
    &&& forall|j: int| 0 <= j < m.parts@.len() ==> spec_part_to_ffi(m.parts@[j], #[trigger] f.parts@[j])
}

/// Converts modules into the search subsystem's record layout.
pub fn to_ffi_modules(modules: &Vec<ModuleInfo>) -> (r: Vec<ModuleInfoFfi>)
    ensures
        r@.len() == modules@.len(),
        forall|i: int| 0 <= i < modules@.len() ==> spec_module_to_ffi(modules@[i], #[trigger] r@[i]),
{
    let mut r: Vec<ModuleInfoFfi> = Vec::new();
    let mut i: usize = 0;
    while i < modules.len()
        invariant
            0 <= i <= modules@.len(),
            r@.len() == i,
            forall|k: int| 0 <= k < i ==> spec_module_to_ffi(modules@[k], #[trigger] r@[k]),
        decreases modules@.len() - i,
    {
        let m = &modules[i];
        let mut parts: Vec<ModulePartFfi> = Vec::new();
        let mut j: usize = 0;
        while j < m.parts.len()
            invariant
                0 <= j <= m.parts@.len(),
                parts@.len() == j,
                forall|k: int| 0 <= k < j ==> spec_part_to_ffi(m.parts@[k], #[trigger] parts@[k]),
            decreases m.parts@.len() - j,
        {
            let p = &m.parts[j];
            parts.push(ModulePartFfi { id: p.id, name: p.name.clone(), value: p.value });
            j = j + 1;
        }
        r.push(
            ModuleInfoFfi {
                name: m.name.clone(),
                config_id: m.config_id,
                uuid: m.uuid,
                quality: m.quality,
                parts,
            },
        );
        i = i + 1;
    }
    r
}

/// One solution converted back from the search subsystem's layout.
pub open spec fn spec_solution_from_ffi(s: ModuleSolutionFfi, o: ModuleSolution) -> bool {
    &&& o.score == s.score
    &&& o.attr_breakdown == s.attr_breakdown
    &&& o.modules@.len() == s.modules@.len()
    &&& forall|j: int|
        0 <= j < s.modules@.len() ==> spec_module_to_ffi(#[trigger] o.modules@[j], s.modules@[j])
}

/// Converts solutions back from the search subsystem's record layout.
pub fn from_ffi_solutions(solutions: Vec<ModuleSolutionFfi>) -> (r: Vec<ModuleSolution>)
    ensures
        r@.len() == solutions@.len(),
        forall|i: int|
            0 <= i < solutions@.len() ==> spec_solution_from_ffi(solutions@[i], #[trigger] r@[i]),
{
    let ghost sols = solutions@;
    let mut rest = solutions;
    let mut r: Vec<ModuleSolution> = Vec::new();
    while rest.len() > 0
        invariant
            r@.len() + rest@.len() == sols.len(),
            forall|k: int| 0 <= k < rest@.len() ==> #[trigger] rest@[k] == sols[r@.len() + k],
            forall|k: int| 0 <= k < r@.len() ==> spec_solution_from_ffi(
                sols[k],
                #[trigger] r@[k],
            ),
        decreases rest@.len(),
    {
        let s = rest.remove(0);
        let mut modules: Vec<ModuleInfo> = Vec::new();
        let ghost smods = s.modules@;
        let mut ms = s.modules;
        while ms.len() > 0
            invariant
                modules@.len() + ms@.len() == smods.len(),
                forall|k: int| 0 <= k < ms@.len() ==> #[trigger] ms@[k] == smods[modules@.len() + k],
                forall|k: int|
                    0 <= k < modules@.len() ==> spec_module_to_ffi(
                        #[trigger] modules@[k],
                        smods[k],
                    ),
            decreases ms@.len(),
        {
            let fm = ms.remove(0);
            let mut parts: Vec<ModulePart> = Vec::new();
            let ghost fparts = fm.parts@;
            let mut ps = fm.parts;
            while ps.len() > 0
                invariant
                    parts@.len() + ps@.len() == fparts.len(),
                    forall|k: int| 0 <= k < ps@.len() ==> #[trigger] ps@[k] == fparts[parts@.len()
                        + k],
                    forall|k: int|
                        0 <= k < parts@.len() ==> spec_part_to_ffi(
                            #[trigger] parts@[k],
                            fparts[k],
                        ),
                decreases ps@.len(),
            {
                let p = ps.remove(0);
                parts.push(ModulePart { id: p.id, name: p.name, value: p.value });
            }
            modules.push(
                ModuleInfo {
                    name: fm.name,
                    config_id: fm.config_id,
                    uuid: fm.uuid,
                    quality: fm.quality,
                    parts,
                },
            );
        }
        r.push(
            ModuleSolution { modules, score: s.score, attr_breakdown: s.attr_breakdown },
        );
    }
    r
}

/// Whether a module carries any targeted attribute.
pub open spec fn spec_module_targeted(m: ModuleInfo, targets: Seq<i32>) -> bool {
    exists|j: int| 0 <= j < m.parts@.len() && targets.contains((#[trigger] m.parts@[j]).id)
}

/// The modules kept for an optimization request: all of them when no target
/// is given, else those carrying at least one targeted attribute.
pub open spec fn spec_filter_targeted(
    modules: Seq<ModuleInfo>,
    targets: Seq<i32>,
    i: int,
) -> Seq<ModuleInfo>
    decreases modules.len() - i,
{
    if i < 0 || i >= modules.len() {
        Seq::empty()
    } else {
        let rest = spec_filter_targeted(modules, targets, i + 1);
        if targets.len() == 0 || spec_module_targeted(modules[i], targets) {
            seq![modules[i]] + rest
        } else {
            rest
        }
    }
}

/// Keeps the modules that carry a targeted attribute (all of them when the
/// target list is empty).
pub fn filter_modules_by_targets(modules: Vec<ModuleInfo>, targets: &Vec<i32>) -> (r: Vec<
    ModuleInfo,
>)
    ensures
        r@ == spec_filter_targeted(modules@, targets@, 0),
{
    let ghost all = modules@;
    let mut rest = modules;
    let mut r: Vec<ModuleInfo> = Vec::new();
    let ghost mut consumed: int = 0;
    while rest.len() > 0
        invariant
            0 <= consumed <= all.len(),
            consumed + rest@.len() == all.len(),
            forall|k: int| 0 <= k < rest@.len() ==> #[trigger] rest@[k] == all[consumed + k],
            spec_filter_targeted(all, targets@, 0) == r@ + spec_filter_targeted(
                all,
                targets@,
                consumed,
            ),
        decreases rest@.len(),
    {
        let ghost c0 = consumed;
        let ghost rb = r@;
        let m = rest.remove(0);
        let mut hit = targets.len() == 0;
        let mut j: usize = 0;
        while j < m.parts.len() && !hit
            invariant
                0 <= j <= m.parts@.len(),
                targets@.len() == 0 ==> hit,
                hit ==> targets@.len() == 0 || spec_module_targeted(m, targets@),
                !hit ==> forall|k: int| 0 <= k < j ==> !targets@.contains(
                    (#[trigger] m.parts@[k]).id,
                ),
            decreases m.parts@.len() - j + (if hit {
                0int
            } else {
                1int
            }),
        {
            if crate::buffs::ids_contain(targets, m.parts[j].id) {
                hit = true;
            } else {
                j = j + 1;
            }
        }
        proof {
            assert(m == all[c0]);
        }
        if hit {
            r.push(m);
            proof {
                assert(spec_filter_targeted(all, targets@, c0) == seq![all[c0]]
                    + spec_filter_targeted(all, targets@, c0 + 1));
                assert(r@ =~= rb + seq![all[c0]]);
                assert(rb + (seq![all[c0]] + spec_filter_targeted(all, targets@, c0 + 1)) =~= (rb
                    + seq![all[c0]]) + spec_filter_targeted(all, targets@, c0 + 1));
            }
        } else {
            proof {
                assert(!spec_module_targeted(m, targets@));
                assert(spec_filter_targeted(all, targets@, c0) == spec_filter_targeted(
                    all,
                    targets@,
                    c0 + 1,
                ));
            }
        }
        proof {
            consumed = consumed + 1;
        }
    }
    proof {
        assert(r@ + spec_filter_targeted(all, targets@, all.len() as int) =~= r@);
    }
    r
}

/// Caps a solution list at ten entries and rescores each kept solution with
/// the combat-power formula.
pub fn finalize_solutions(solutions: Vec<ModuleSolution>) -> (r: Vec<ModuleSolution>)
    requires
        forall|i: int|
            0 <= i < solutions@.len() && i < 10 ==> spec_parts_count(
                (#[trigger] solutions@[i]).modules@,
                0,
            ) <= i32::MAX as int && spec_combat_power(solutions@[i].modules@) <= i32::MAX as int,
    ensures
        r@.len() == if solutions@.len() < 10 {
            solutions@.len() as int
        } else {
            10int
        },
        forall|i: int|
            0 <= i < r@.len() ==> (#[trigger] r@[i]).modules == solutions@[i].modules
                && r@[i].attr_breakdown == solutions@[i].attr_breakdown && r@[i].score as int
                == spec_combat_power(solutions@[i].modules@),
{
    let ghost sols = solutions@;
    let mut rest = solutions;
    let mut r: Vec<ModuleSolution> = Vec::new();
    while rest.len() > 0 && r.len() < 10
        invariant
            r@.len() + rest@.len() == sols.len() || r@.len() == 10,
            r@.len() <= 10,
            r@.len() <= sols.len(),
            forall|k: int| 0 <= k < rest@.len() ==> #[trigger] rest@[k] == sols[r@.len() + k],
            forall|i: int|
                0 <= i < sols.len() && i < 10 ==> spec_parts_count(
                    (#[trigger] sols[i]).modules@,
                    0,
                ) <= i32::MAX as int && spec_combat_power(sols[i].modules@) <= i32::MAX as int,
            forall|k: int|
                0 <= k < r@.len() ==> (#[trigger] r@[k]).modules == sols[k].modules
                    && r@[k].attr_breakdown == sols[k].attr_breakdown && r@[k].score as int
                    == spec_combat_power(sols[k].modules@),
        decreases rest@.len(),
    {
        let mut s = rest.remove(0);
        let power = calculate_combat_power(&s.modules);
        s.score = power;
        r.push(s);
    }
    r
}

/// One inventory item carrying module attributes, as decoded from the
/// character-serialization blob.
#[derive(Debug, Clone)]
pub struct CharItem {
    pub key: i64,
    pub config_id: Option<i32>,
    pub uuid: Option<i32>,
    pub quality: Option<i32>,
    pub mod_parts: Vec<i32>,
}

/// The module-bearing slice of one character-serialization blob: the
/// per-item attribute values keyed by item key, and the items of every
/// package, flattened.
#[derive(Debug, Clone)]
pub struct CharData {
    pub has_mod_infos: bool,
    pub mod_infos: Vec<(i64, Vec<i32>)>,
    pub items: Vec<CharItem>,
}

/// The display name of a known module configuration id.
pub open spec fn spec_module_name(config_id: i32) -> Option<Seq<char>> {
    if config_id == 5500101 {
        Some("基础攻击"@)
    } else if config_id == 5500102 {
        Some("高性能攻击"@)
    } else if config_id == 5500103 {
        Some("卓越攻击"@)
    } else if config_id == 5500104 {
        Some("卓越攻击-优选"@)
    } else if config_id == 5500201 {
        Some("基础治疗"@)
    } else if config_id == 5500202 {
        Some("高性能治疗"@)
    } else if config_id == 5500203 {
        Some("卓越辅助"@)
    } else if config_id == 5500204 {
        Some("卓越辅助-优选"@)
    } else if config_id == 5500301 {
        Some("基础防护"@)
    } else if config_id == 5500302 {
        Some("高性能守护"@)
    } else if config_id == 5500303 {
        Some("卓越守护"@)
    } else if config_id == 5500304 {
        Some("卓越守护-优选"@)
    } else {
        None
    }
}

/// Looks up the display name of a module configuration id.
fn module_name_for(config_id: i32) -> (r: Option<&'static str>)
    ensures
        r is Some <==> spec_module_name(config_id) is Some,
        r matches Some(s) ==> s@ == spec_module_name(config_id)->Some_0,
{
    if config_id == 5500101 {
        Some("基础攻击")
    } else if config_id == 5500102 {
        Some("高性能攻击")
    } else if config_id == 5500103 {
        Some("卓越攻击")
    } else if config_id == 5500104 {
        Some("卓越攻击-优选")
    } else if config_id == 5500201 {
        Some("基础治疗")
    } else if config_id == 5500202 {
        Some("高性能治疗")
    } else if config_id == 5500203 {
        Some("卓越辅助")
    } else if config_id == 5500204 {
        Some("卓越辅助-优选")
    } else if config_id == 5500301 {
        Some("基础防护")
    } else if config_id == 5500302 {
        Some("高性能守护")
    } else if config_id == 5500303 {
        Some("卓越守护")
    } else if config_id == 5500304 {
        Some("卓越守护-优选")
    } else {
        None
    }
}

/// The display name of a module attribute id, with an explicit unknown
/// marker.
pub open spec fn spec_attr_name(attr_id: i32) -> Seq<char> {
    if attr_id == 1110 {
        "力量加持"@
    } else if attr_id == 1111 {
        "敏捷加持"@
    } else if attr_id == 1112 {
        "智力加持"@
    } else if attr_id == 1113 {
        "特攻伤害"@
    } else if attr_id == 1114 {
        "精英打击"@
    } else if attr_id == 1205 {
        "特攻治疗加持"@
    } else if attr_id == 1206 {
        "专精治疗加持"@
    } else if attr_id == 1407 {
        "施法专注"@
    } else if attr_id == 1408 {
        "攻速专注"@
    } else if attr_id == 1409 {
        "暴击专注"@
    } else if attr_id == 1410 {
        "幸运专注"@
    } else if attr_id == 1307 {
        "抵御魔法"@
    } else if attr_id == 1308 {
        "抵御物理"@
    } else if attr_id == 2104 {
        "极-伤害叠加"@
    } else if attr_id == 2105 {
        "极-灵活身法"@
    } else if attr_id == 2204 {
        "极-生命凝聚"@
    } else if attr_id == 2205 {
        "极-急救措施"@
    } else if attr_id == 2404 {
        "极-生命波动"@
    } else if attr_id == 2405 {
        "极-生命汲取"@
    } else if attr_id == 2406 {
        "极-全队幸暴"@
    } else if attr_id == 2304 {
        "极-绝境守护"@
    } else {
        "未知属性"@
    }
}

/// Looks up the display name of a module attribute id.
fn attr_name_for(attr_id: i32) -> (r: &'static str)
    ensures
        r@ == spec_attr_name(attr_id),
{
    if attr_id == 1110 {
        "力量加持"
    } else if attr_id == 1111 {
        "敏捷加持"
    } else if attr_id == 1112 {
        "智力加持"
    } else if attr_id == 1113 {
        "特攻伤害"
    } else if attr_id == 1114 {
        "精英打击"
    } else if attr_id == 1205 {
        "特攻治疗加持"
    } else if attr_id == 1206 {
        "专精治疗加持"
    } else if attr_id == 1407 {
        "施法专注"
    } else if attr_id == 1408 {
        "攻速专注"
    } else if attr_id == 1409 {
        "暴击专注"
    } else if attr_id == 1410 {
        "幸运专注"
    } else if attr_id == 1307 {
        "抵御魔法"
    } else if attr_id == 1308 {
        "抵御物理"
    } else if attr_id == 2104 {
        "极-伤害叠加"
    } else if attr_id == 2105 {
        "极-灵活身法"
    } else if attr_id == 2204 {
        "极-生命凝聚"
    } else if attr_id == 2205 {
        "极-急救措施"
    } else if attr_id == 2404 {
        "极-生命波动"
    } else if attr_id == 2405 {
        "极-生命汲取"
    } else if attr_id == 2406 {
        "极-全队幸暴"
    } else if attr_id == 2304 {
        "极-绝境守护"
    } else {
        "未知属性"
    }
}

/// Whether the item at index `j` yields a module: it has attribute parts,
/// a known module configuration id, and per-item attribute values.
pub open spec fn item_kept(d: CharData, j: int) -> bool {
    let item = d.items@[j];
    &&& item.mod_parts@.len() > 0
    &&& spec_module_name(crate::buffs::opt_or_i32(item.config_id, 0)) is Some
    &&& kv_get(d.mod_infos@, item.key) is Some
}

/// How many of the first `j` items yield modules.
pub open spec fn kept_before(d: CharData, j: int) -> int
    decreases j,
{
    if j <= 0 {
        0
    } else {
        kept_before(d, j - 1) + if item_kept(d, j - 1) {
            1int
        } else {
            0int
        }
    }
}

/// The kept count grows along the items, strictly past each kept one.
proof fn lemma_kept_before_mono(d: CharData, a: int, b: int)
    requires
        0 <= a <= b,
    ensures
        kept_before(d, a) <= kept_before(d, b),
        a < b && item_kept(d, a) ==> kept_before(d, a) + 1 <= kept_before(d, b),
    decreases b - a,
{
    if a < b {
        lemma_kept_before_mono(d, a + 1, b);
    }
}

/// The module parsed from one kept item: identity fields default to zero,
/// each attribute part pairs its id with the item's value at the same
/// position, and the shorter of the two lists decides the part count.
pub open spec fn spec_module_of_item(m: ModuleInfo, item: CharItem, infos: Seq<(i64, Vec<i32>)>) -> bool {
    let config_id = crate::buffs::opt_or_i32(item.config_id, 0);
    let init = kv_get(infos, item.key)->Some_0;
    let n = if item.mod_parts@.len() <= init@.len() {
        item.mod_parts@.len() as int
    } else {
        init@.len() as int
    };
    &&& m.config_id == config_id
    &&& m.name@ == spec_module_name(config_id)->Some_0
    &&& m.uuid == crate::buffs::opt_or_i32(item.uuid, 0)
    &&& m.quality == crate::buffs::opt_or_i32(item.quality, 0)
    &&& m.parts@.len() == n
    &&& forall|p: int|
        0 <= p < n ==> (#[trigger] m.parts@[p]).id == item.mod_parts@[p] && m.parts@[p].value
            == init@[p] && m.parts@[p].name@ == spec_attr_name(item.mod_parts@[p])
}

/// Parses the owned modules out of a character-serialization blob: items
/// without attribute parts, with an unknown module configuration id, or
/// without per-item attribute values are skipped; the rest become modules in
/// item order. A blob without the module table yields nothing.
pub fn parse_modules_from_vdata(v_data: &CharData) -> (r: Vec<ModuleInfo>)
    ensures
        !v_data.has_mod_infos ==> r@.len() == 0,
        v_data.has_mod_infos ==> {
            &&& r@.len() == kept_before(*v_data, v_data.items@.len() as int)
            &&& forall|j: int|
                0 <= j < v_data.items@.len() && item_kept(*v_data, j) ==> spec_module_of_item(
                    #[trigger] r@[kept_before(*v_data, j)],
                    v_data.items@[j],
                    v_data.mod_infos@,
                )
        },
{
    let mut r: Vec<ModuleInfo> = Vec::new();
    if !v_data.has_mod_infos {
        return r;
    }
    let mut j: usize = 0;
    while j < v_data.items.len()
        invariant
            0 <= j <= v_data.items@.len(),
            r@.len() == kept_before(*v_data, j as int),
            forall|jj: int|
                0 <= jj < j && item_kept(*v_data, jj) ==> spec_module_of_item(
                    #[trigger] r@[kept_before(*v_data, jj)],
                    v_data.items@[jj],
                    v_data.mod_infos@,
                ),
        decreases v_data.items@.len() - j,
    {
        let ghost r0 = r@;
        let item = &v_data.items[j];
        if item.mod_parts.len() > 0 {
            let config_id = match item.config_id {
                Some(c) => c,
                None => 0,
            };
            let name_opt = module_name_for(config_id);
            match name_opt {
                Some(module_name) => {
                    proof {
                        crate::kvlist::lemma_first_key_index_from(
                            v_data.mod_infos@,
                            item.key,
                            0,
                        );
                    }
                    let found = crate::kvlist::kv_find_i64(&v_data.mod_infos, item.key);
                    match found {
                        Some(idx) => {
                            let init = &v_data.mod_infos[idx].1;
                            let n = if item.mod_parts.len() <= init.len() {
                                item.mod_parts.len()
                            } else {
                                init.len()
                            };
                            let mut parts: Vec<ModulePart> = Vec::new();
                            let mut p: usize = 0;
                            while p < n
                                invariant
                                    0 <= p <= n,
                                    j < v_data.items@.len(),
                                    item == &v_data.items@[j as int],
                                    idx < v_data.mod_infos@.len(),
                                    init == &v_data.mod_infos@[idx as int].1,
                                    kv_get(v_data.mod_infos@, item.key) == Some(
                                        v_data.mod_infos@[idx as int].1,
                                    ),
                                    n as int == if item.mod_parts@.len() <= init@.len() {
                                        item.mod_parts@.len() as int
                                    } else {
                                        init@.len() as int
                                    },
                                    parts@.len() == p,
                                    forall|pp: int|
                                        0 <= pp < p ==> (#[trigger] parts@[pp]).id
                                            == item.mod_parts@[pp] && parts@[pp].value
                                            == init@[pp] && parts@[pp].name@ == spec_attr_name(
                                            item.mod_parts@[pp],
                                        ),
                                decreases n - p,
                            {
                                let attr_id = item.mod_parts[p];
                                let attr_name = attr_name_for(attr_id);
                                parts.push(
                                    ModulePart {
                                        id: attr_id,
                                        name: String::from_str(attr_name),
                                        value: init[p],
                                    },
                                );
                                p = p + 1;
                            }
                            let uuid = match item.uuid {
                                Some(u) => u,
                                None => 0,
                            };
                            let quality = match item.quality {
                                Some(q) => q,
                                None => 0,
                            };
                            r.push(
                                ModuleInfo {
                                    name: String::from_str(module_name),
                                    config_id,
                                    uuid,
                                    quality,
                                    parts,
                                },
                            );
                            proof {
                                assert(item_kept(*v_data, j as int));
                                assert(spec_module_of_item(
                                    r@[kept_before(*v_data, j as int)],
                                    v_data.items@[j as int],
                                    v_data.mod_infos@,
                                ));
                            }
                        },
                        None => {
                            proof {
                                assert(!item_kept(*v_data, j as int));
                            }
                        },
                    }
                },
                None => {
                    proof {
                        assert(!item_kept(*v_data, j as int));
                    }
                },
            }
        } else {
            proof {
                assert(!item_kept(*v_data, j as int));
            }
        }
        proof {
            assert(kept_before(*v_data, j as int + 1) == kept_before(*v_data, j as int)
                + if item_kept(*v_data, j as int) {
                1int
            } else {
                0int
            });
            assert forall|jj: int| 0 <= jj < j + 1 && item_kept(*v_data, jj) implies
                spec_module_of_item(
                #[trigger] r@[kept_before(*v_data, jj)],
                v_data.items@[jj],
                v_data.mod_infos@,
            ) by {
                if jj < j {
                    lemma_kept_before_mono(*v_data, jj, j as int);
                    assert(r0.len() == kept_before(*v_data, j as int));
                    assert(kept_before(*v_data, jj) >= 0) by {
                        lemma_kept_before_mono(*v_data, 0, jj);
                    }
                    assert(0 <= kept_before(*v_data, jj) < r0.len());
                    assert(spec_module_of_item(
                        r0[kept_before(*v_data, jj)],
                        v_data.items@[jj],
                        v_data.mod_infos@,
                    ));
                    assert(r@[kept_before(*v_data, jj)] == r0[kept_before(*v_data, jj)]);
                }
            }
        }
        j = j + 1;
    }
    r
}

} // verus!
