//! Buff and talent name catalog.
//!
//! A read-mostly table mapping buff base ids to display metadata, plus a
//! derived reverse index from talent source-configuration ids to the related
//! buff base ids. The surrounding process parses the data files and hands the
//! raw rows in; everything from the rows to the lookups is computed here.

use vstd::prelude::*;

use crate::kvlist::{
    first_key_index, first_key_index_from, keys_unique, kv_get, lemma_first_key_index_from,
    lemma_first_key_index_push, lemma_first_key_index_same_keys,
};

verus! {

broadcast use vstd::seq_lib::group_to_multiset_ensures;

/// One raw row of the buff-name data file.
#[derive(Debug, Clone)]
pub struct BuffRow {
    pub id: i32,
    pub icon: Option<String>,
    pub name: Option<String>,
    pub sprite_file: Option<String>,
}

/// One raw row of the talent data file.
#[derive(Debug, Clone)]
pub struct TalentRow {
    pub id: i32,
    pub buff_ids: Vec<i32>,
    pub des: String,
    pub talent_icon: String,
    pub sprite_file: String,
}

/// Display metadata of one buff base id.
#[derive(Debug, Clone)]
pub struct BuffNameEntry {
    pub name: String,
    pub icon: String,
    pub sprite_file: Option<String>,
    pub talent_name: Option<String>,
    pub talent_sprite_file: Option<String>,
}

/// One buff offered to the sprite-based selection list.
#[derive(Debug, Clone)]
pub struct BuffSpriteEntry {
    pub base_id: i32,
    pub name: String,
    pub sprite_file: String,
    pub talent_name: Option<String>,
    pub talent_sprite_file: Option<String>,
}

/// The catalog: buff metadata keyed by base id, and the talent reverse index.
#[derive(Debug, Clone)]
pub struct BuffCatalog {
    pub entries: Vec<(i32, BuffNameEntry)>,
    pub talent_map: Vec<(i32, Vec<i32>)>,
}

impl BuffCatalog {
    /// Both tables map each key to exactly one value.
    pub open spec fn well_formed(&self) -> bool {
        keys_unique(self.entries@) && keys_unique(self.talent_map@)
    }

    /// Creates an empty catalog.
    pub fn new() -> (r: BuffCatalog)
        ensures
            r.well_formed(),
            r.entries@.len() == 0,
            r.talent_map@.len() == 0,
    {
        BuffCatalog { entries: Vec::new(), talent_map: Vec::new() }
    }
}

/// Returns the display name for the given buff id.
pub fn lookup_name(catalog: &BuffCatalog, buff_id: i32) -> (r: Option<String>)
    ensures
        r == match kv_get(catalog.entries@, buff_id) {
            Some(e) => Some(e.name),
            None => None::<String>,
        },
{
    proof {
        lemma_first_key_index_from(catalog.entries@, buff_id, 0);
    }
    let found = crate::kvlist::kv_find_i32(&catalog.entries, buff_id);
    match found {
        Some(i) => Some(catalog.entries[i].1.name.clone()),
        None => None,
    }
}

/// Returns true when the buff exists in the catalog.
pub fn is_valid(catalog: &BuffCatalog, buff_id: i32) -> (r: bool)
    ensures
        r == (kv_get(catalog.entries@, buff_id) is Some),
{
    let found = crate::kvlist::kv_find_i32(&catalog.entries, buff_id);
    found.is_some()
}

/// Returns the sprite file name when available.
pub fn lookup_sprite(catalog: &BuffCatalog, buff_id: i32) -> (r: Option<String>)
    ensures
        r == match kv_get(catalog.entries@, buff_id) {
            Some(e) => e.sprite_file,
            None => None::<String>,
        },
{
    proof {
        lemma_first_key_index_from(catalog.entries@, buff_id, 0);
    }
    let found = crate::kvlist::kv_find_i32(&catalog.entries, buff_id);
    match found {
        Some(i) => match &catalog.entries[i].1.sprite_file {
            Some(s) => Some(s.clone()),
            None => None,
        },
        None => None,
    }
}

/// Returns the related buff base ids for a given source config id.
pub fn get_related_base_ids(catalog: &BuffCatalog, source_config_id: i32) -> (r: Vec<i32>)
    ensures
        match kv_get(catalog.talent_map@, source_config_id) {
            Some(ids) => r@ == ids@,
            None => r@.len() == 0,
        },
{
    proof {
        lemma_first_key_index_from(catalog.talent_map@, source_config_id, 0);
    }
    let found = crate::kvlist::kv_find_i32(&catalog.talent_map, source_config_id);
    match found {
        Some(i) => {
            let ids = &catalog.talent_map[i].1;
            let mut out: Vec<i32> = Vec::new();
            let mut j: usize = 0;
            while j < ids.len()
                invariant
                    0 <= j <= ids@.len(),
                    out@ == ids@.take(j as int),
                decreases ids@.len() - j,
            {
                out.push(ids[j]);
                j = j + 1;
            }
            proof {
                assert(out@ =~= ids@);
            }
            out
        },
        None => Vec::new(),
    }
}

/// Strictly ascending first components.
pub open spec fn keys_strictly_sorted<T>(s: Seq<(i32, T)>) -> bool {
    forall|i: int, j: int| 0 <= i < j < s.len() ==> s[i].0 < s[j].0
}

/// Sorts a pair vector with pairwise-distinct `i32` keys into strictly
/// ascending key order; the result holds exactly the input pairs.
pub fn sort_by_i32_key<T>(input: Vec<(i32, T)>) -> (r: Vec<(i32, T)>)
    requires
        keys_unique(input@),
    ensures
        keys_strictly_sorted(r@),
        keys_unique(r@),
        r@.to_multiset() == input@.to_multiset(),
        r@.len() == input@.len(),
{
    let mut work = input;
    let mut out: Vec<(i32, T)> = Vec::new();
    while work.len() > 0
        invariant
            keys_strictly_sorted(out@),
            keys_unique(work@),
            out@.to_multiset().add(work@.to_multiset()) =~= input@.to_multiset(),
            out@.len() + work@.len() == input@.len(),
            forall|a: int, b: int|
                #![trigger out@[a], work@[b]]
                0 <= a < out@.len() && 0 <= b < work@.len() ==> out@[a].0 < work@[b].0,
        decreases work@.len(),
    {
        // Find the pair with the smallest key.
        let mut min_idx: usize = 0;
        let mut i: usize = 1;
        while i < work.len()
            invariant
                0 < work@.len(),
                0 <= min_idx < i <= work@.len(),
                forall|j: int| 0 <= j < i ==> work@[min_idx as int].0 <= #[trigger] work@[j].0,
            decreases work@.len() - i,
        {
            if work[i].0 < work[min_idx].0 {
                min_idx = i;
            }
            i = i + 1;
        }
        let ghost prev = work@;
        let ghost prev_out = out@;
        let m = work.remove(min_idx);
        proof {
            assert(prev.remove(min_idx as int).to_multiset() =~= prev.to_multiset().remove(m));
            assert forall|a: int, b: int| 0 <= a < b < work@.len() implies work@[a].0
                != work@[b].0 by {
                let a0: int = if a < min_idx { a } else { a + 1 };
                let b0: int = if b < min_idx { b } else { b + 1 };
                assert(work@[a] == prev[a0]);
                assert(work@[b] == prev[b0]);
            }
        }
        out.push(m);
        proof {
            assert(out@.to_multiset() =~= prev_out.to_multiset().insert(m));
            assert(prev.to_multiset().count(m) > 0);
            assert(out@.to_multiset().add(work@.to_multiset()) =~= input@.to_multiset());
            assert forall|a: int, b: int|
                #![trigger out@[a], work@[b]]
                0 <= a < out@.len() && 0 <= b < work@.len() implies out@[a].0 < work@[b].0 by {
                let b0: int = if b < min_idx { b } else { b + 1 };
                assert(work@[b] == prev[b0]);
                if a < out@.len() - 1 {
                    assert(out@[a] == prev_out[a]);
                    assert(prev_out[a].0 < prev[b0].0);
                } else {
                    assert(out@[a] == m);
                    assert(m.0 <= prev[b0].0);
                    if b0 == min_idx {
                    } else {
                        assert(prev[min_idx as int].0 != prev[b0].0);
                    }
                }
            }
            assert forall|a: int, b: int| 0 <= a < b < out@.len() implies out@[a].0
                < out@[b].0 by {
                if b < out@.len() - 1 {
                    assert(prev_out[a].0 < prev_out[b].0);
                }
            }
        }
    }
    proof {
        assert(out@.to_multiset() =~= input@.to_multiset());
        vstd::seq_lib::lemma_multiset_commutative(out@, work@);
    }
    out
}

/// The sprite selection row derived from one catalog entry.
pub open spec fn spec_sprite_entry(id: i32, e: BuffNameEntry) -> BuffSpriteEntry {
    BuffSpriteEntry {
        base_id: id,
        name: e.name,
        sprite_file: e.sprite_file->Some_0,
        talent_name: e.talent_name,
        talent_sprite_file: e.talent_sprite_file,
    }
}

/// The sprite-bearing entries, keyed, in catalog order, from index `i` on.
pub open spec fn spec_sprite_pairs(s: Seq<(i32, BuffNameEntry)>, i: int) -> Seq<(
    i32,
    BuffSpriteEntry,
)>
    decreases s.len() - i,
{
    if i < 0 || i >= s.len() {
        Seq::empty()
    } else {
        let rest = spec_sprite_pairs(s, i + 1);
        if s[i].1.sprite_file is Some {
            seq![(s[i].0, spec_sprite_entry(s[i].0, s[i].1))] + rest
        } else {
            rest
        }
    }
}

/// The filtered pairs keep pairwise-distinct keys.
proof fn lemma_sprite_pairs_unique(s: Seq<(i32, BuffNameEntry)>, i: int)
    requires
        keys_unique(s),
        0 <= i,
    ensures
        keys_unique(spec_sprite_pairs(s, i)),
        forall|k: int|
            0 <= k < spec_sprite_pairs(s, i).len() ==> exists|j: int|
                i <= j < s.len() && s[j].0 == #[trigger] spec_sprite_pairs(s, i)[k].0,
    decreases s.len() - i,
{
    if i < s.len() {
        lemma_sprite_pairs_unique(s, i + 1);
        let cur = spec_sprite_pairs(s, i);
        let rest = spec_sprite_pairs(s, i + 1);
        if s[i].1.sprite_file is Some {
            assert forall|a: int, b: int| 0 <= a < b < cur.len() implies cur[a].0 != cur[b].0 by {
                if a == 0 {
                    let j = choose|j: int| i + 1 <= j < s.len() && s[j].0 == rest[b - 1].0;
                    assert(s[i].0 != s[j].0);
                } else {
                    assert(rest[a - 1].0 != rest[b - 1].0);
                }
            }
            assert forall|k: int| 0 <= k < cur.len() implies exists|j: int|
                i <= j < s.len() && s[j].0 == #[trigger] cur[k].0 by {
                if k == 0 {
                    assert(s[i].0 == cur[0].0);
                } else {
                    let j = choose|j: int| i + 1 <= j < s.len() && s[j].0 == rest[k - 1].0;
                    assert(s[j].0 == cur[k].0);
                }
            }
        }
    }
}

/// Returns all buffs that have a sprite file, in ascending base-id order.
pub fn get_buffs_with_sprites(catalog: &BuffCatalog) -> (r: Vec<BuffSpriteEntry>)
    requires
        catalog.well_formed(),
    ensures
        ({
            let pairs = spec_sprite_pairs(catalog.entries@, 0);
            &&& r@.len() == pairs.len()
            &&& forall|i: int, j: int| 0 <= i < j < r@.len() ==> r@[i].base_id < r@[j].base_id
            &&& forall|i: int| 0 <= i < r@.len() ==> pairs.to_multiset().count(
                (#[trigger] r@[i].base_id, r@[i]),
            ) > 0
        }),
{
    let mut pairs: Vec<(i32, BuffSpriteEntry)> = Vec::new();
    let mut i: usize = 0;
    while i < catalog.entries.len()
        invariant
            0 <= i <= catalog.entries@.len(),
            spec_sprite_pairs(catalog.entries@, 0) == pairs@ + spec_sprite_pairs(
                catalog.entries@,
                i as int,
            ),
        decreases catalog.entries@.len() - i,
    {
        let p = &catalog.entries[i];
        match &p.1.sprite_file {
            Some(sprite) => {
                pairs.push(
                    (
                        p.0,
                        BuffSpriteEntry {
                            base_id: p.0,
                            name: p.1.name.clone(),
                            sprite_file: sprite.clone(),
                            talent_name: match &p.1.talent_name {
                                Some(t) => Some(t.clone()),
                                None => None,
                            },
                            talent_sprite_file: match &p.1.talent_sprite_file {
                                Some(t) => Some(t.clone()),
                                None => None,
                            },
                        },
                    ),
                );
            },
            None => {},
        }
        i = i + 1;
    }
    proof {
        assert(pairs@ + spec_sprite_pairs(catalog.entries@, catalog.entries@.len() as int)
            =~= pairs@);
        lemma_sprite_pairs_unique(catalog.entries@, 0);
    }
    let sorted = sort_by_i32_key(pairs);
    let ghost sorted_view = sorted@;
    let mut out: Vec<BuffSpriteEntry> = Vec::new();
    let mut k: usize = 0;
    while k < sorted.len()
        invariant
            0 <= k <= sorted@.len(),
            sorted@ == sorted_view,
            out@.len() == k,
            forall|j: int| 0 <= j < k ==> out@[j] == sorted@[j].1,
        decreases sorted@.len() - k,
    {
        let e = sorted[k].1.clone_entry();
        out.push(e);
        k = k + 1;
    }
    proof {
        let pairs0 = spec_sprite_pairs(catalog.entries@, 0);
        assert forall|a: int| 0 <= a < out@.len() implies pairs0.to_multiset().count(
            (#[trigger] out@[a].base_id, out@[a]),
        ) > 0 by {
            assert(out@[a] == sorted_view[a].1);
            assert(sorted_view.to_multiset().count(sorted_view[a]) > 0);
            assert(pairs0.to_multiset().count(sorted_view[a]) > 0);
            let w = choose|w: int| 0 <= w < pairs0.len() && pairs0[w] == sorted_view[a];
            lemma_sprite_pair_shape(catalog.entries@, 0, w);
            assert(pairs0[w].0 == pairs0[w].1.base_id);
        }
        assert forall|a: int, b: int| 0 <= a < b < out@.len() implies out@[a].base_id
            < out@[b].base_id by {
            assert(sorted_view[a].0 < sorted_view[b].0);
            assert(sorted_view.to_multiset().count(sorted_view[a]) > 0);
            assert(sorted_view.to_multiset().count(sorted_view[b]) > 0);
            let pairs0 = spec_sprite_pairs(catalog.entries@, 0);
            let wa = choose|w: int| 0 <= w < pairs0.len() && pairs0[w] == sorted_view[a];
            let wb = choose|w: int| 0 <= w < pairs0.len() && pairs0[w] == sorted_view[b];
            lemma_sprite_pair_shape(catalog.entries@, 0, wa);
            lemma_sprite_pair_shape(catalog.entries@, 0, wb);
        }
    }
    out
}

/// Every filtered pair carries its own key inside the row.
proof fn lemma_sprite_pair_shape(s: Seq<(i32, BuffNameEntry)>, i: int, k: int)
    requires
        0 <= i,
        0 <= k < spec_sprite_pairs(s, i).len(),
    ensures
        spec_sprite_pairs(s, i)[k].0 == spec_sprite_pairs(s, i)[k].1.base_id,
    decreases s.len() - i,
{
    if i < s.len() {
        if s[i].1.sprite_file is Some {
            if k > 0 {
                lemma_sprite_pair_shape(s, i + 1, k - 1);
            }
        } else {
            lemma_sprite_pair_shape(s, i + 1, k);
        }
    }
}

impl BuffSpriteEntry {
    /// A field-for-field copy.
    fn clone_entry(&self) -> (r: BuffSpriteEntry)
        ensures
            r == *self,
    {
        BuffSpriteEntry {
            base_id: self.base_id,
            name: self.name.clone(),
            sprite_file: self.sprite_file.clone(),
            talent_name: match &self.talent_name {
                Some(t) => Some(t.clone()),
                None => None,
            },
            talent_sprite_file: match &self.talent_sprite_file {
                Some(t) => Some(t.clone()),
                None => None,
            },
        }
    }
}

impl BuffNameEntry {
    /// A field-for-field copy.
    fn clone_entry(&self) -> (r: BuffNameEntry)
        ensures
            r == *self,
    {
        BuffNameEntry {
            name: self.name.clone(),
            icon: self.icon.clone(),
            sprite_file: match &self.sprite_file {
                Some(s) => Some(s.clone()),
                None => None,
            },
            talent_name: match &self.talent_name {
                Some(t) => Some(t.clone()),
                None => None,
            },
            talent_sprite_file: match &self.talent_sprite_file {
                Some(t) => Some(t.clone()),
                None => None,
            },
        }
    }
}

/// Lowercase mapping of a character sequence, as `str::to_lowercase`
/// computes it.
pub uninterp spec fn lower_of(s: Seq<char>) -> Seq<char>;

/// Whitespace-trimmed form of a character sequence, as `str::trim` computes
/// it.
pub uninterp spec fn trim_of(s: Seq<char>) -> Seq<char>;

/// Relies on str::to_lowercase: the result is a function of the characters
/// alone, and an empty string stays empty.
#[verifier::external_body]
fn lowercase(s: &str) -> (r: String)
    ensures
        r@ == lower_of(s@),
        s@.len() == 0 ==> r@.len() == 0,
{
    s.to_lowercase()
}

/// Relies on str::trim: the result is a function of the characters alone,
/// and an empty string stays empty.
#[verifier::external_body]
fn trim(s: &str) -> (r: &str)
    ensures
        r@ == trim_of(s@),
        s@.len() == 0 ==> r@.len() == 0,
{
    s.trim()
}

/// `needle` occurs contiguously inside `hay`.
pub open spec fn spec_contains_sub(hay: Seq<char>, needle: Seq<char>) -> bool {
    exists|i: int|
        0 <= i <= hay.len() - needle.len() && #[trigger] hay.subrange(i, i + needle.len() as int)
            == needle
}

/// Whether `needle` matches `hay` at position `i`.
fn match_at(hay: &str, needle: &str, i: usize, hay_len: usize, needle_len: usize) -> (r: bool)
    requires
        hay_len == hay@.len(),
        needle_len == needle@.len(),
        i + needle_len <= hay_len,
    ensures
        r == (hay@.subrange(i as int, i as int + needle@.len() as int) == needle@),
{
    let mut j: usize = 0;
    while j < needle_len
        invariant
            0 <= j <= needle_len,
            hay_len == hay@.len(),
            needle_len == needle@.len(),
            i + needle_len <= hay_len,
            forall|k: int| 0 <= k < j ==> hay@[i + k] == needle@[k],
        decreases needle_len - j,
    {
        let hc = hay.get_char(i + j);
        let nc = needle.get_char(j);
        if hc != nc {
            proof {
                let sub = hay@.subrange(i as int, i as int + needle@.len() as int);
                assert(sub[j as int] == hay@[i + j]);
            }
            return false;
        }
        j = j + 1;
    }
    proof {
        assert(hay@.subrange(i as int, i as int + needle@.len() as int) =~= needle@);
    }
    true
}

/// Whether `needle` occurs contiguously inside `hay`.
fn contains_sub(hay: &str, needle: &str) -> (r: bool)
    ensures
        r == spec_contains_sub(hay@, needle@),
{
    let hay_len = hay.unicode_len();
    let needle_len = needle.unicode_len();
    if needle_len > hay_len {
        return false;
    }
    if needle_len == 0 {
        proof {
            assert(spec_contains_sub(hay@, needle@)) by {
                assert(hay@.subrange(0, 0 + needle@.len() as int) =~= needle@);
            }
        }
        return true;
    }
    let mut i: usize = 0;
    while i <= hay_len - needle_len
        invariant
            1 <= needle_len <= hay_len,
            hay_len == hay@.len(),
            needle_len == needle@.len(),
            0 <= i <= hay_len - needle_len + 1,
            forall|k: int|
                0 <= k < i ==> #[trigger] hay@.subrange(k, k + needle@.len() as int) != needle@,
        decreases hay_len - needle_len - i + 1,
    {
        if match_at(hay, needle, i, hay_len, needle_len) {
            return true;
        }
        i = i + 1;
    }
    false
}

/// Whether one catalog entry matches a search needle: the lowercase display
/// name contains it, or the lowercase talent name does.
pub open spec fn spec_search_hit(e: BuffNameEntry, needle: Seq<char>) -> bool {
    spec_contains_sub(lower_of(e.name@), needle) || match e.talent_name {
        Some(t) => spec_contains_sub(lower_of(t@), needle),
        None => false,
    }
}

/// The matching catalog pairs, in catalog order, from index `i` on.
pub open spec fn spec_search_hits(
    s: Seq<(i32, BuffNameEntry)>,
    needle: Seq<char>,
    i: int,
) -> Seq<(i32, BuffNameEntry)>
    decreases s.len() - i,
{
    if i < 0 || i >= s.len() {
        Seq::empty()
    } else {
        let rest = spec_search_hits(s, needle, i + 1);
        if spec_search_hit(s[i].1, needle) {
            seq![s[i]] + rest
        } else {
            rest
        }
    }
}

/// The filtered hit pairs keep pairwise-distinct keys.
proof fn lemma_search_hits_unique(s: Seq<(i32, BuffNameEntry)>, needle: Seq<char>, i: int)
    requires
        keys_unique(s),
        0 <= i,
    ensures
        keys_unique(spec_search_hits(s, needle, i)),
        forall|k: int|
            0 <= k < spec_search_hits(s, needle, i).len() ==> exists|j: int|
                i <= j < s.len() && s[j] == #[trigger] spec_search_hits(s, needle, i)[k],
    decreases s.len() - i,
{
    if i < s.len() {
        lemma_search_hits_unique(s, needle, i + 1);
        let cur = spec_search_hits(s, needle, i);
        let rest = spec_search_hits(s, needle, i + 1);
        if spec_search_hit(s[i].1, needle) {
            assert forall|a: int, b: int| 0 <= a < b < cur.len() implies cur[a].0 != cur[b].0 by {
                if a == 0 {
                    let j = choose|j: int| i + 1 <= j < s.len() && s[j] == rest[b - 1];
                    assert(s[i].0 != s[j].0);
                } else {
                    assert(rest[a - 1].0 != rest[b - 1].0);
                }
            }
            assert forall|k: int| 0 <= k < cur.len() implies exists|j: int|
                i <= j < s.len() && s[j] == #[trigger] cur[k] by {
                if k == 0 {
                    assert(s[i] == cur[0]);
                } else {
                    let j = choose|j: int| i + 1 <= j < s.len() && s[j] == rest[k - 1];
                    assert(s[j] == cur[k]);
                }
            }
        }
    }
}

/// Searches the catalog by display and talent name, case-insensitively.
///
/// An all-whitespace keyword yields nothing. Otherwise the result holds the
/// matching (id, entry) pairs in strictly ascending id order, truncated to
/// `limit` entries; every matching id beyond the cut is larger than the last
/// returned one.
pub fn search_buffs_by_name(catalog: &BuffCatalog, keyword: &str, limit: usize) -> (r: Vec<
    (i32, BuffNameEntry),
>)
    requires
        catalog.well_formed(),
    ensures
        ({
            let needle = lower_of(trim_of(keyword@));
            let hits = spec_search_hits(catalog.entries@, needle, 0);
            &&& (needle.len() == 0 ==> r@.len() == 0)
            &&& (needle.len() > 0 ==> {
                &&& r@.len() == if hits.len() < limit {
                    hits.len() as int
                } else {
                    limit as int
                }
                &&& keys_strictly_sorted(r@)
                &&& forall|i: int| 0 <= i < r@.len() ==> hits.to_multiset().count(#[trigger] r@[i])
                    > 0
                &&& forall|p: (i32, BuffNameEntry)|
                    hits.to_multiset().count(p) > 0 ==> r@.contains(p) || (r@.len() == limit && (
                    limit == 0 || p.0 > r@[limit - 1].0))
            })
        }),
{
    let trimmed = trim(keyword);
    let needle = lowercase(trimmed);
    if needle.as_str().is_empty() {
        return Vec::new();
    }
    let ghost needle_view = lower_of(trim_of(keyword@));

    // Collect the hits in catalog order.
    let mut hits: Vec<(i32, BuffNameEntry)> = Vec::new();
    let mut i: usize = 0;
    while i < catalog.entries.len()
        invariant
            0 <= i <= catalog.entries@.len(),
            needle@ == needle_view,
            spec_search_hits(catalog.entries@, needle_view, 0) == hits@ + spec_search_hits(
                catalog.entries@,
                needle_view,
                i as int,
            ),
        decreases catalog.entries@.len() - i,
    {
        let e = &catalog.entries[i];
        let name_low = lowercase(e.1.name.as_str());
        let mut hit = contains_sub(name_low.as_str(), needle.as_str());
        if !hit {
            match &e.1.talent_name {
                Some(t) => {
                    let t_low = lowercase(t.as_str());
                    if contains_sub(t_low.as_str(), needle.as_str()) {
                        hit = true;
                    }
                },
                None => {},
            }
        }
        proof {
            assert(hit == spec_search_hit(catalog.entries@[i as int].1, needle_view));
        }
        if hit {
            hits.push((e.0, e.1.clone_entry()));
            proof {
                assert(hits@.last() == catalog.entries@[i as int]);
                assert(hits@.drop_last() + spec_search_hits(
                    catalog.entries@,
                    needle_view,
                    i as int,
                ) =~= hits@ + spec_search_hits(catalog.entries@, needle_view, i as int + 1));
            }
        }
        i = i + 1;
    }
    proof {
        assert(hits@ + spec_search_hits(
            catalog.entries@,
            needle_view,
            catalog.entries@.len() as int,
        ) =~= hits@);
        lemma_search_hits_unique(catalog.entries@, needle_view, 0);
    }

    // Sort ascending by id and truncate.
    let sorted = sort_by_i32_key(hits);
    let ghost full = sorted@;
    let mut r = sorted;
    r.truncate(limit);
    proof {
        let hits_spec = spec_search_hits(catalog.entries@, needle_view, 0);
        assert(r@ == full.subrange(0, if limit as int <= full.len() as int {
            limit as int
        } else {
            full.len() as int
        }));
        assert forall|i2: int| 0 <= i2 < r@.len() implies hits_spec.to_multiset().count(
            #[trigger] r@[i2],
        ) > 0 by {
            assert(r@[i2] == full[i2]);
            assert(full.to_multiset().count(full[i2]) > 0);
        }
        assert forall|p: (i32, BuffNameEntry)| hits_spec.to_multiset().count(p) > 0 implies
            r@.contains(p) || (r@.len() == limit && (limit == 0 || p.0 > r@[limit - 1].0)) by {
            assert(full.to_multiset().count(p) > 0);
            assert(full.contains(p));
            let k = choose|k: int| 0 <= k < full.len() && full[k] == p;
            if k < r@.len() {
                assert(r@[k] == p);
            } else {
                assert(full.len() > limit);
                assert(r@.len() == limit);
                if limit > 0 {
                    assert(r@[limit - 1] == full[limit - 1]);
                    assert(full[limit - 1].0 < full[k].0);
                }
            }
        }
    }
    r
}

/// One raw buff row is usable: it has a non-empty display name.
pub open spec fn row_valid(row: BuffRow) -> bool {
    row.name matches Some(n) && n@.len() > 0
}

/// One catalog pair is what some usable row says: same id, the row's name,
/// the row's icon (empty when absent), the row's non-empty sprite file, and
/// no talent marks yet.
pub open spec fn entry_from_rows(p: (i32, BuffNameEntry), rows: Seq<BuffRow>) -> bool {
    exists|j: int|
        0 <= j < rows.len() && {
            let row = #[trigger] rows[j];
            &&& row.id == p.0
            &&& row_valid(row)
            &&& p.1.name == row.name->Some_0
            &&& (match row.icon {
                Some(ic) => p.1.icon == ic,
                None => p.1.icon@.len() == 0,
            })
            &&& p.1.sprite_file == (match row.sprite_file {
                Some(sp) => if sp@.len() > 0 {
                    Some(sp)
                } else {
                    None
                },
                None => None,
            })
            &&& p.1.talent_name is None
            &&& p.1.talent_sprite_file is None
        }
}

/// Inserts or overwrites one catalog pair.
fn entry_upsert(entries: &mut Vec<(i32, BuffNameEntry)>, id: i32, entry: BuffNameEntry)
    requires
        keys_unique(old(entries)@),
    ensures
        keys_unique(final(entries)@),
        final(entries)@ == crate::kvlist::kv_upsert(old(entries)@, id, entry),
        first_key_index(final(entries)@, id) != -1,
        forall|k2: i32| k2 != id ==> first_key_index(final(entries)@, k2) == first_key_index(
            old(entries)@,
            k2,
        ),
{
    proof {
        lemma_first_key_index_from(entries@, id, 0);
    }
    let found = crate::kvlist::kv_find_i32(entries, id);
    match found {
        Some(i) => {
            entries[i] = (id, entry);
            proof {
                let oldv = old(entries)@;
                let newv = entries@;
                assert(oldv[i as int].0 == id);
                assert(forall|j: int| 0 <= j < oldv.len() ==> oldv[j].0 == newv[j].0);
                assert forall|k2: i32| first_key_index(newv, k2) == first_key_index(
                    oldv,
                    k2,
                ) by {
                    lemma_first_key_index_same_keys(oldv, newv, k2, 0);
                }
                assert forall|a: int, b: int| 0 <= a < b < newv.len() implies newv[a].0
                    != newv[b].0 by {
                    assert(newv[a].0 == oldv[a].0 && newv[b].0 == oldv[b].0);
                }
            }
        },
        None => {
            proof {
                lemma_first_key_index_from(entries@, id, 0);
            }
            entries.push((id, entry));
            proof {
                let oldv = old(entries)@;
                let newv = entries@;
                lemma_first_key_index_push(oldv, id, (id, entry), 0);
                assert forall|k2: i32| k2 != id implies first_key_index(newv, k2)
                    == first_key_index(oldv, k2) by {
                    lemma_first_key_index_push(oldv, k2, (id, entry), 0);
                    lemma_first_key_index_from(oldv, k2, 0);
                }
                assert forall|a: int, b: int| 0 <= a < b < newv.len() implies newv[a].0
                    != newv[b].0 by {
                    if b == newv.len() - 1 {
                        lemma_first_key_index_from(oldv, id, 0);
                        assert(oldv[a].0 != id);
                    }
                }
            }
        },
    }
}

/// Builds the catalog pairs from the raw buff-name rows: rows without a
/// display name are skipped, an absent icon reads as empty, an empty sprite
/// file reads as none, and a repeated id overwrites its entry.
pub fn build_buff_entries(rows: &Vec<BuffRow>) -> (r: Vec<(i32, BuffNameEntry)>)
    ensures
        keys_unique(r@),
        forall|i: int| 0 <= i < r@.len() ==> entry_from_rows(#[trigger] r@[i], rows@),
        forall|j: int|
            0 <= j < rows@.len() && row_valid(#[trigger] rows@[j]) ==> first_key_index(
                r@,
                rows@[j].id,
            ) != -1,
{
    let mut r: Vec<(i32, BuffNameEntry)> = Vec::new();
    let mut i: usize = 0;
    while i < rows.len()
        invariant
            0 <= i <= rows@.len(),
            keys_unique(r@),
            forall|k: int| 0 <= k < r@.len() ==> entry_from_rows(#[trigger] r@[k], rows@),
            forall|j: int|
                0 <= j < i && row_valid(#[trigger] rows@[j]) ==> first_key_index(r@, rows@[j].id)
                    != -1,
        decreases rows@.len() - i,
    {
        let row = &rows[i];
        let usable = match &row.name {
            Some(n) => !n.as_str().is_empty(),
            None => false,
        };
        if usable {
            let name = match &row.name {
                Some(n) => n.clone(),
                None => String::new(),
            };
            let icon = match &row.icon {
                Some(ic) => ic.clone(),
                None => String::new(),
            };
            let sprite_file = match &row.sprite_file {
                Some(sp) => if sp.as_str().is_empty() {
                    None
                } else {
                    Some(sp.clone())
                },
                None => None,
            };
            let entry = BuffNameEntry {
                name,
                icon,
                sprite_file,
                talent_name: None,
                talent_sprite_file: None,
            };
            let ghost before = r@;
            let ghost pushed = (row.id, entry);
            entry_upsert(&mut r, row.id, entry);
            proof {
                let newv = r@;
                let id0 = rows@[i as int].id;
                assert(id0 == pushed.0);
                assert(newv == crate::kvlist::kv_upsert(before, id0, entry));
                lemma_first_key_index_from(before, id0, 0);
                let idx = first_key_index(before, id0);
                assert(entry_from_rows(pushed, rows@)) by {
                    assert(row_valid(rows@[i as int]));
                }
                if idx == -1 {
                    assert(newv == before.push(pushed));
                    assert forall|k: int| 0 <= k < newv.len() implies entry_from_rows(
                        #[trigger] newv[k],
                        rows@,
                    ) by {
                        if k < before.len() {
                            assert(newv[k] == before.push(pushed)[k]);
                            assert(newv[k] == before[k]);
                        } else {
                            assert(newv[k] == before.push(pushed)[k]);
                            assert(newv[k] == pushed);
                        }
                    }
                } else {
                    assert(newv == before.update(idx, pushed));
                    assert forall|k: int| 0 <= k < newv.len() implies entry_from_rows(
                        #[trigger] newv[k],
                        rows@,
                    ) by {
                        if k != idx {
                            assert(newv[k] == before.update(idx, pushed)[k]);
                            assert(newv[k] == before[k]);
                        } else {
                            assert(newv[k] == pushed);
                        }
                    }
                }
            }
        }
        i = i + 1;
    }
    r
}

/// Two entry tables agree on ids and sprite presence (the inputs of the
/// talent association rules).
pub open spec fn entry_shape_eq(a: Seq<(i32, BuffNameEntry)>, b: Seq<(i32, BuffNameEntry)>) -> bool {
    a.len() == b.len() && forall|j: int|
        0 <= j < a.len() ==> (#[trigger] a[j]).0 == b[j].0 && a[j].1.sprite_file
            == b[j].1.sprite_file
}

/// The related buff ids of one talent buff id: the candidates within five of
/// it, in ascending offset order, that exist in the table with a sprite.
pub open spec fn spec_related_ids(
    entries0: Seq<(i32, BuffNameEntry)>,
    buff_id: i32,
    o: int,
) -> Seq<i32>
    decreases 6 - o,
{
    if o > 5 {
        Seq::empty()
    } else {
        let cand = buff_id as int + o;
        let rest = spec_related_ids(entries0, buff_id, o + 1);
        if i32::MIN as int <= cand && cand <= i32::MAX as int && {
            let idx = first_key_index(entries0, cand as i32);
            idx != -1 && entries0[idx].1.sprite_file is Some
        } {
            seq![cand as i32] + rest
        } else {
            rest
        }
    }
}

/// The reverse index as id-to-id-sequence pairs.
pub open spec fn map_view(m: Seq<(i32, Vec<i32>)>) -> Seq<(i32, Seq<i32>)> {
    m.map_values(|p: (i32, Vec<i32>)| (p.0, p.1@))
}

/// The reverse index after one binding is inserted or overwritten.
pub open spec fn spec_map_upsert_ids(m: Seq<(i32, Seq<i32>)>, k: i32, ids: Seq<i32>) -> Seq<(
    i32,
    Seq<i32>,
)> {
    let i = first_key_index(m, k);
    if i == -1 {
        m.push((k, ids))
    } else {
        m.update(i, (k, ids))
    }
}

/// The reverse index after one talent's buff ids at or after index `j`.
pub open spec fn spec_apply_talent(
    mv: Seq<(i32, Seq<i32>)>,
    entries0: Seq<(i32, BuffNameEntry)>,
    t: TalentRow,
    j: int,
) -> Seq<(i32, Seq<i32>)>
    decreases t.buff_ids@.len() - j,
{
    if j < 0 || j >= t.buff_ids@.len() {
        mv
    } else {
        let bid = t.buff_ids@[j];
        let rel = spec_related_ids(entries0, bid, -5);
        let mv2 = if rel.len() == 0 {
            mv
        } else {
            spec_map_upsert_ids(mv, bid, rel)
        };
        spec_apply_talent(mv2, entries0, t, j + 1)
    }
}

/// The reverse index after the talents at or after index `k`.
pub open spec fn spec_talent_map(
    mv: Seq<(i32, Seq<i32>)>,
    entries0: Seq<(i32, BuffNameEntry)>,
    talents: Seq<TalentRow>,
    k: int,
) -> Seq<(i32, Seq<i32>)>
    decreases talents.len() - k,
{
    if k < 0 || k >= talents.len() {
        mv
    } else {
        spec_talent_map(
            spec_apply_talent(mv, entries0, talents[k], 0),
            entries0,
            talents,
            k + 1,
        )
    }
}

/// Computes the related buff ids of one talent buff id against the current
/// table, whose ids and sprites match the reference table.
fn related_ids(
    entries: &Vec<(i32, BuffNameEntry)>,
    buff_id: i32,
    Ghost(entries0): Ghost<Seq<(i32, BuffNameEntry)>>,
) -> (r: Vec<i32>)
    requires
        entry_shape_eq(entries@, entries0),
    ensures
        r@ == spec_related_ids(entries0, buff_id, -5),
{
    let mut out: Vec<i32> = Vec::new();
    let mut o: usize = 0;
    while o < 11
        invariant
            0 <= o <= 11,
            entry_shape_eq(entries@, entries0),
            spec_related_ids(entries0, buff_id, -5) == out@ + spec_related_ids(
                entries0,
                buff_id,
                o as int - 5,
            ),
        decreases 11 - o,
    {
        let cand_wide: i64 = (buff_id as i64) + (o as i64) - 5;
        let mut hit = false;
        if i32::MIN as i64 <= cand_wide && cand_wide <= i32::MAX as i64 {
            let cand = cand_wide as i32;
            let found = crate::kvlist::kv_find_i32(entries, cand);
            proof {
                lemma_first_key_index_same_keys(entries@, entries0, cand, 0);
            }
            match found {
                Some(idx) => {
                    if entries[idx].1.sprite_file.is_some() {
                        out.push(cand);
                        hit = true;
                        proof {
                            assert(entries@[idx as int].1.sprite_file
                                == entries0[idx as int].1.sprite_file);
                            assert(out@.drop_last() + spec_related_ids(
                                entries0,
                                buff_id,
                                o as int - 5,
                            ) =~= out@ + spec_related_ids(entries0, buff_id, o as int - 4));
                        }
                    }
                },
                None => {},
            }
        }
        proof {
            if !hit {
                assert(spec_related_ids(entries0, buff_id, o as int - 5) == spec_related_ids(
                    entries0,
                    buff_id,
                    o as int - 4,
                ));
            }
        }
        o = o + 1;
    }
    proof {
        assert(out@ + spec_related_ids(entries0, buff_id, 6) =~= out@);
    }
    out
}

/// Inserts or overwrites one reverse-index binding.
fn talent_map_upsert(map: &mut Vec<(i32, Vec<i32>)>, k: i32, ids: Vec<i32>)
    requires
        keys_unique(old(map)@),
    ensures
        keys_unique(final(map)@),
        map_view(final(map)@) == spec_map_upsert_ids(map_view(old(map)@), k, ids@),
{
    proof {
        lemma_first_key_index_from(map@, k, 0);
        lemma_first_key_index_same_keys(map@, map_view(map@), k, 0);
    }
    let found = crate::kvlist::kv_find_i32(map, k);
    match found {
        Some(i) => {
            map[i] = (k, ids);
            proof {
                let oldv = old(map)@;
                let newv = map@;
                assert(oldv[i as int].0 == k);
                assert forall|a: int, b: int| 0 <= a < b < newv.len() implies newv[a].0
                    != newv[b].0 by {
                    assert(newv[a].0 == oldv[a].0 && newv[b].0 == oldv[b].0);
                }
                assert(map_view(newv) =~= spec_map_upsert_ids(map_view(oldv), k, newv[
                    i as int].1@));
            }
        },
        None => {
            proof {
                lemma_first_key_index_from(map@, k, 0);
            }
            map.push((k, ids));
            proof {
                let oldv = old(map)@;
                let newv = map@;
                assert forall|a: int, b: int| 0 <= a < b < newv.len() implies newv[a].0
                    != newv[b].0 by {
                    if b == newv.len() - 1 {
                        assert(oldv[a].0 != k);
                    }
                }
                assert(map_view(newv) =~= spec_map_upsert_ids(map_view(oldv), k, newv[newv.len()
                    - 1].1@));
            }
        },
    }
}

/// One entry after one related id is offered a talent mark: a known id whose
/// entry has no mark yet receives the talent's description and, when
/// non-empty, its sprite file; everything else is untouched.
pub open spec fn spec_mark_one(
    entries: Seq<(i32, BuffNameEntry)>,
    rid: i32,
    des: String,
    sprite: String,
) -> Seq<(i32, BuffNameEntry)> {
    let idx = first_key_index(entries, rid);
    if idx == -1 {
        entries
    } else if entries[idx].1.talent_name is Some {
        entries
    } else {
        let e = entries[idx].1;
        entries.update(
            idx,
            (
                entries[idx].0,
                BuffNameEntry {
                    talent_name: Some(des),
                    talent_sprite_file: if sprite@.len() > 0 {
                        Some(sprite)
                    } else {
                        e.talent_sprite_file
                    },
                    ..e
                },
            ),
        )
    }
}

/// The table after the related ids at or after index `m` are offered a mark.
pub open spec fn spec_mark_all(
    entries: Seq<(i32, BuffNameEntry)>,
    rel: Seq<i32>,
    m: int,
    des: String,
    sprite: String,
) -> Seq<(i32, BuffNameEntry)>
    decreases rel.len() - m,
{
    if m < 0 || m >= rel.len() {
        entries
    } else {
        spec_mark_all(spec_mark_one(entries, rel[m], des, sprite), rel, m + 1, des, sprite)
    }
}

/// The table after one talent's buff ids at or after index `j` are processed.
pub open spec fn spec_mark_talent(
    entries: Seq<(i32, BuffNameEntry)>,
    entries0: Seq<(i32, BuffNameEntry)>,
    t: TalentRow,
    j: int,
) -> Seq<(i32, BuffNameEntry)>
    decreases t.buff_ids@.len() - j,
{
    if j < 0 || j >= t.buff_ids@.len() {
        entries
    } else {
        let rel = spec_related_ids(entries0, t.buff_ids@[j], -5);
        let e2 = if rel.len() == 0 {
            entries
        } else {
            spec_mark_all(entries, rel, 0, t.des, t.sprite_file)
        };
        spec_mark_talent(e2, entries0, t, j + 1)
    }
}

/// The table after the talents at or after index `k` are processed: the
/// first talent claiming an entry marks it, later talents never overwrite.
pub open spec fn spec_mark_talents(
    entries: Seq<(i32, BuffNameEntry)>,
    entries0: Seq<(i32, BuffNameEntry)>,
    talents: Seq<TalentRow>,
    k: int,
) -> Seq<(i32, BuffNameEntry)>
    decreases talents.len() - k,
{
    if k < 0 || k >= talents.len() {
        entries
    } else {
        spec_mark_talents(
            spec_mark_talent(entries, entries0, talents[k], 0),
            entries0,
            talents,
            k + 1,
        )
    }
}

/// Derives the talent reverse index and marks the related entries.
///
/// For each buff id of each talent, the table entries within five of it that
/// carry a sprite become its related ids; when any exist, the binding is
/// recorded (later talents overwrite), and each related entry that has no
/// talent mark yet receives the talent's description and, when non-empty,
/// its sprite file. Ids, names, icons and sprite files of the table are
/// never changed, and existing talent marks are never overwritten.
pub fn build_talent_associations(
    entries: &mut Vec<(i32, BuffNameEntry)>,
    talents: &Vec<TalentRow>,
) -> (map: Vec<(i32, Vec<i32>)>)
    requires
        keys_unique(old(entries)@),
    ensures
        keys_unique(final(entries)@),
        keys_unique(map@),
        entry_shape_eq(final(entries)@, old(entries)@),
        forall|j: int|
            0 <= j < old(entries)@.len() ==> {
                let a = (#[trigger] final(entries)@[j]).1;
                let b = old(entries)@[j].1;
                a.name == b.name && a.icon == b.icon && a.sprite_file == b.sprite_file && (
                b.talent_name is Some ==> a.talent_name == b.talent_name && a.talent_sprite_file
                    == b.talent_sprite_file)
            },
        final(entries)@ == spec_mark_talents(old(entries)@, old(entries)@, talents@, 0),
        map_view(map@) == spec_talent_map(Seq::empty(), old(entries)@, talents@, 0),
{
    let ghost entries0 = entries@;
    let mut map: Vec<(i32, Vec<i32>)> = Vec::new();
    proof {
        assert(map_view(map@) =~= Seq::<(i32, Seq<i32>)>::empty());
    }
    let mut k: usize = 0;
    while k < talents.len()
        invariant
            0 <= k <= talents@.len(),
            keys_unique(entries@),
            keys_unique(map@),
            entry_shape_eq(entries@, entries0),
            forall|j: int|
                0 <= j < entries0.len() ==> {
                    let a = (#[trigger] entries@[j]).1;
                    let b = entries0[j].1;
                    a.name == b.name && a.icon == b.icon && a.sprite_file == b.sprite_file && (
                    b.talent_name is Some ==> a.talent_name == b.talent_name
                        && a.talent_sprite_file == b.talent_sprite_file)
                },
            spec_talent_map(Seq::empty(), entries0, talents@, 0) == spec_talent_map(
                map_view(map@),
                entries0,
                talents@,
                k as int,
            ),
            spec_mark_talents(entries0, entries0, talents@, 0) == spec_mark_talents(
                entries@,
                entries0,
                talents@,
                k as int,
            ),
        decreases talents@.len() - k,
    {
        let talent = &talents[k];
        let mut j: usize = 0;
        while j < talent.buff_ids.len()
            invariant
                0 <= j <= talent.buff_ids@.len(),
                k < talents@.len(),
                *talent == talents@[k as int],
                keys_unique(entries@),
                keys_unique(map@),
                entry_shape_eq(entries@, entries0),
                forall|jj: int|
                    0 <= jj < entries0.len() ==> {
                        let a = (#[trigger] entries@[jj]).1;
                        let b = entries0[jj].1;
                        a.name == b.name && a.icon == b.icon && a.sprite_file == b.sprite_file
                            && (b.talent_name is Some ==> a.talent_name == b.talent_name
                            && a.talent_sprite_file == b.talent_sprite_file)
                    },
                spec_talent_map(Seq::empty(), entries0, talents@, 0) == spec_talent_map(
                    spec_apply_talent(map_view(map@), entries0, *talent, j as int),
                    entries0,
                    talents@,
                    k as int + 1,
                ),
                spec_mark_talents(entries0, entries0, talents@, 0) == spec_mark_talents(
                    spec_mark_talent(entries@, entries0, *talent, j as int),
                    entries0,
                    talents@,
                    k as int + 1,
                ),
            decreases talent.buff_ids@.len() - j,
        {
            let buff_id = talent.buff_ids[j];
            let related = related_ids(entries, buff_id, Ghost(entries0));
            let ghost relv = related@;
            let ghost mark_start = entries@;
            if related.len() > 0 {
                // Mark each related entry that has no talent mark yet.
                let mut m: usize = 0;
                while m < related.len()
                    invariant
                        0 <= m <= related@.len(),
                        related@ == relv,
                        keys_unique(entries@),
                        entry_shape_eq(entries@, entries0),
                        forall|jj: int|
                            0 <= jj < entries0.len() ==> {
                                let a = (#[trigger] entries@[jj]).1;
                                let b = entries0[jj].1;
                                a.name == b.name && a.icon == b.icon && a.sprite_file
                                    == b.sprite_file && (b.talent_name is Some ==> a.talent_name
                                    == b.talent_name && a.talent_sprite_file
                                    == b.talent_sprite_file)
                            },
                        *talent == talents@[k as int],
                        spec_mark_all(mark_start, relv, 0, talent.des, talent.sprite_file)
                            == spec_mark_all(
                            entries@,
                            relv,
                            m as int,
                            talent.des,
                            talent.sprite_file,
                        ),
                    decreases related@.len() - m,
                {
                    let rid = related[m];
                    let ghost pre = entries@;
                    let found = crate::kvlist::kv_find_i32(entries, rid);
                    match found {
                        Some(idx) => {
                            if entries[idx].1.talent_name.is_none() {
                                let e = &mut entries[idx];
                                e.1.talent_name = Some(talent.des.clone());
                                if !talent.sprite_file.as_str().is_empty() {
                                    e.1.talent_sprite_file = Some(talent.sprite_file.clone());
                                }
                                proof {
                                    assert forall|a: int, b: int|
                                        0 <= a < b < entries@.len() implies entries@[a].0
                                        != entries@[b].0 by {
                                        assert(entries@[a].0 == pre[a].0);
                                        assert(entries@[b].0 == pre[b].0);
                                    }
                                    assert(entries@ =~= spec_mark_one(
                                        pre,
                                        rid,
                                        talent.des,
                                        talent.sprite_file,
                                    ));
                                }
                            } else {
                                proof {
                                    assert(entries@ == spec_mark_one(
                                        pre,
                                        rid,
                                        talent.des,
                                        talent.sprite_file,
                                    ));
                                }
                            }
                        },
                        None => {
                            proof {
                                assert(entries@ == spec_mark_one(
                                    pre,
                                    rid,
                                    talent.des,
                                    talent.sprite_file,
                                ));
                            }
                        },
                    }
                    m = m + 1;
                }
                talent_map_upsert(&mut map, buff_id, related);
            }
            proof {
                assert(buff_id == talent.buff_ids@[j as int]);
                assert(relv == spec_related_ids(entries0, buff_id, -5));
                if relv.len() > 0 {
                    assert(entries@ == spec_mark_all(
                        mark_start,
                        relv,
                        0,
                        talent.des,
                        talent.sprite_file,
                    ));
                }
            }
            j = j + 1;
        }
        k = k + 1;
    }
    map
}

/// Rebuilds the whole catalog from freshly parsed data-file rows: the entry
/// table from the buff rows, then the talent marks and the reverse index
/// from the talent rows.
pub fn reload_cache(catalog: &mut BuffCatalog, buff_rows: &Vec<BuffRow>, talent_rows: &Vec<
    TalentRow,
>)
    ensures
        final(catalog).well_formed(),
        forall|i: int|
            0 <= i < final(catalog).entries@.len() ==> entry_core_from_rows(
                #[trigger] final(catalog).entries@[i],
                buff_rows@,
            ),
        forall|j: int|
            0 <= j < buff_rows@.len() && row_valid(#[trigger] buff_rows@[j]) ==> first_key_index(
                final(catalog).entries@,
                buff_rows@[j].id,
            ) != -1,
        map_view(final(catalog).talent_map@) == spec_talent_map(
            Seq::empty(),
            final(catalog).entries@,
            talent_rows@,
            0,
        ),
{
    let mut entries = build_buff_entries(buff_rows);
    let ghost built = entries@;
    let map = build_talent_associations(&mut entries, talent_rows);
    proof {
        lemma_talent_map_shape_eq(Seq::empty(), built, entries@, talent_rows@, 0);
        assert forall|i: int| 0 <= i < entries@.len() implies entry_core_from_rows(
            #[trigger] entries@[i],
            buff_rows@,
        ) by {
            assert(entry_from_rows(built[i], buff_rows@));
            lemma_entry_core(built[i], entries@[i], buff_rows@);
        }
        assert forall|j: int|
            0 <= j < buff_rows@.len() && row_valid(#[trigger] buff_rows@[j]) implies
            first_key_index(entries@, buff_rows@[j].id) != -1 by {
            lemma_first_key_index_same_keys(built, entries@, buff_rows@[j].id, 0);
        }
    }
    catalog.entries = entries;
    catalog.talent_map = map;
}

/// One catalog pair's id, name, icon and sprite are what some usable row
/// says (its talent marks may have been derived since).
pub open spec fn entry_core_from_rows(p: (i32, BuffNameEntry), rows: Seq<BuffRow>) -> bool {
    exists|j: int|
        0 <= j < rows.len() && {
            let row = #[trigger] rows[j];
            &&& row.id == p.0
            &&& row_valid(row)
            &&& p.1.name == row.name->Some_0
            &&& (match row.icon {
                Some(ic) => p.1.icon == ic,
                None => p.1.icon@.len() == 0,
            })
            &&& p.1.sprite_file == (match row.sprite_file {
                Some(sp) => if sp@.len() > 0 {
                    Some(sp)
                } else {
                    None
                },
                None => None,
            })
        }
}

/// A fully row-backed entry whose core fields survive keeps its core backing.
proof fn lemma_entry_core(a: (i32, BuffNameEntry), b: (i32, BuffNameEntry), rows: Seq<BuffRow>)
    requires
        entry_from_rows(a, rows),
        b.0 == a.0,
        b.1.name == a.1.name,
        b.1.icon == a.1.icon,
        b.1.sprite_file == a.1.sprite_file,
    ensures
        entry_core_from_rows(b, rows),
{
    let j = choose|j: int|
        0 <= j < rows.len() && {
            let row = #[trigger] rows[j];
            &&& row.id == a.0
            &&& row_valid(row)
            &&& a.1.name == row.name->Some_0
            &&& (match row.icon {
                Some(ic) => a.1.icon == ic,
                None => a.1.icon@.len() == 0,
            })
            &&& a.1.sprite_file == (match row.sprite_file {
                Some(sp) => if sp@.len() > 0 {
                    Some(sp)
                } else {
                    None
                },
                None => None,
            })
            &&& a.1.talent_name is None
            &&& a.1.talent_sprite_file is None
        };
    assert(0 <= j < rows.len());
}

/// The related ids read only ids and sprite presence, so shape-equal tables
/// derive the same reverse index.
proof fn lemma_related_ids_shape_eq(
    a: Seq<(i32, BuffNameEntry)>,
    b: Seq<(i32, BuffNameEntry)>,
    buff_id: i32,
    o: int,
)
    requires
        entry_shape_eq(a, b),
    ensures
        spec_related_ids(a, buff_id, o) == spec_related_ids(b, buff_id, o),
    decreases 6 - o,
{
    if o <= 5 {
        lemma_related_ids_shape_eq(a, b, buff_id, o + 1);
        let cand = buff_id as int + o;
        if i32::MIN as int <= cand && cand <= i32::MAX as int {
            lemma_first_key_index_same_keys(a, b, cand as i32, 0);
            lemma_first_key_index_from(a, cand as i32, 0);
        }
    }
}

proof fn lemma_apply_talent_shape_eq(
    mv: Seq<(i32, Seq<i32>)>,
    a: Seq<(i32, BuffNameEntry)>,
    b: Seq<(i32, BuffNameEntry)>,
    t: TalentRow,
    j: int,
)
    requires
        entry_shape_eq(a, b),
    ensures
        spec_apply_talent(mv, a, t, j) == spec_apply_talent(mv, b, t, j),
    decreases t.buff_ids@.len() - j,
{
    if 0 <= j < t.buff_ids@.len() {
        lemma_related_ids_shape_eq(a, b, t.buff_ids@[j], -5);
        let rel = spec_related_ids(a, t.buff_ids@[j], -5);
        let mv2 = if rel.len() == 0 {
            mv
        } else {
            spec_map_upsert_ids(mv, t.buff_ids@[j], rel)
        };
        lemma_apply_talent_shape_eq(mv2, a, b, t, j + 1);
    }
}

/// The reverse index depends only on ids and sprite presence of the table.
proof fn lemma_talent_map_shape_eq(
    mv: Seq<(i32, Seq<i32>)>,
    a: Seq<(i32, BuffNameEntry)>,
    b: Seq<(i32, BuffNameEntry)>,
    talents: Seq<TalentRow>,
    k: int,
)
    requires
        entry_shape_eq(a, b),
    ensures
        spec_talent_map(mv, a, talents, k) == spec_talent_map(mv, b, talents, k),
    decreases talents.len() - k,
{
    if 0 <= k < talents.len() {
        lemma_apply_talent_shape_eq(mv, a, b, talents[k], 0);
        lemma_talent_map_shape_eq(
            spec_apply_talent(mv, a, talents[k], 0),
            a,
            b,
            talents,
            k + 1,
        );
    }
}

} // verus!
