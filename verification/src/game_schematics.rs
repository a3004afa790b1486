//! Structure files: their kinds, the blocks they hold, and the names they are
//! imported under.
use vstd::prelude::*;

use crate::file_item::PathObj;
use crate::game_check::{opt_view, opt_views};
use crate::launcher_path::keyed_cache::{lookup, KeyedCache};
use crate::names::{LITEMATIC_EXT, NBT_EXT, SCHEMATIC_EXT, SCHEM_EXT};
use crate::text::{
    chars_of, copy_str, decimal, eq_ignore_ascii_case, find_char, push_str,
    spec_decimal, spec_eq_ignore_ascii_case, spec_find, str_eq, string_of_range, strings_view,
};

verus! {

/// The kind of a structure file.
#[derive(Debug, Clone, Copy, PartialEq, Eq, Structural)]
pub enum SchematicType {
    /// The game's own `.schematic`.
    Minecraft,
    /// Litematica's `.litematic`.
    Litematic,
    /// WorldEdit's `.schem`.
    WorldEdit,
    /// Create's `.nbt` blueprints.
    Create,
}

impl Default for SchematicType {
    fn default() -> (r: Self)
        ensures
            r == SchematicType::Minecraft,
    {
        SchematicType::Minecraft
    }
}

/// The kind a file extension names, ignoring ASCII case; the game's own for any other.
pub open spec fn spec_schematic_kind(ext: Seq<char>) -> SchematicType {
    if spec_eq_ignore_ascii_case(ext, LITEMATIC_EXT@) {
        SchematicType::Litematic
    } else if spec_eq_ignore_ascii_case(ext, SCHEMATIC_EXT@) {
        SchematicType::Minecraft
    } else if spec_eq_ignore_ascii_case(ext, SCHEM_EXT@) {
        SchematicType::WorldEdit
    } else if spec_eq_ignore_ascii_case(ext, NBT_EXT@) {
        SchematicType::Create
    } else {
        SchematicType::Minecraft
    }
}

impl SchematicType {
    /// The kind a file extension names (see `spec_schematic_kind`).
    pub fn from_ext(ext: &str) -> (r: Self)
        ensures
            r == spec_schematic_kind(ext@),
    {
        if eq_ignore_ascii_case(ext, LITEMATIC_EXT) {
            SchematicType::Litematic
        } else if eq_ignore_ascii_case(ext, SCHEMATIC_EXT) {
            SchematicType::Minecraft
        } else if eq_ignore_ascii_case(ext, SCHEM_EXT) {
            SchematicType::WorldEdit
        } else if eq_ignore_ascii_case(ext, NBT_EXT) {
            SchematicType::Create
        } else {
            SchematicType::Minecraft
        }
    }
}

/// A structure file of an instance: its name, path, size, author and description, its
/// kind, how many blocks it holds and of how many kinds, the count of each block, and
/// whether reading it failed.
#[derive(Debug)]
pub struct SchematicObj {
    pub name: String,
    pub path: PathObj,
    pub height: i32,
    pub length: i32,
    pub width: i32,
    pub author: String,
    pub description: String,
    pub schematic_type: SchematicType,
    pub block_count: u64,
    pub block_types: u32,
    pub blocks: KeyedCache<String, u64>,
    pub fail: bool,
}

impl Default for SchematicObj {
    fn default() -> (r: Self)
        ensures
            r.name@.len() == 0,
            r.path@.len() == 0,
            r.height == 0,
            r.length == 0,
            r.width == 0,
            r.author@.len() == 0,
            r.description@.len() == 0,
            r.schematic_type == SchematicType::Minecraft,
            r.block_count == 0,
            r.block_types == 0,
            r.blocks.wf(),
            r.blocks@ == Map::<Seq<char>, u64>::empty(),
            !r.fail,
    {
        SchematicObj {
            name: String::new(),
            path: PathObj::empty(),
            height: 0,
            length: 0,
            width: 0,
            author: String::new(),
            description: String::new(),
            schematic_type: SchematicType::Minecraft,
            block_count: 0,
            block_types: 0,
            blocks: KeyedCache::new(),
            fail: false,
        }
    }
}

/// The number of binary digits of `n` (none for 0).
pub open spec fn bit_length(n: nat) -> nat
    decreases n,
{
    if n == 0 {
        0
    } else {
        1 + bit_length(n / 2)
    }
}

/// The bits one entry of a packed palette index takes: enough for the greatest index,
/// at least one.
pub open spec fn spec_bits_per_entry(palette_size: nat) -> nat {
    if palette_size <= 1 {
        1
    } else {
        bit_length((palette_size - 1) as nat)
    }
}

/// `bit_length` never exceeds the width of a `u64` for values that fit in one.
proof fn lemma_bit_length_bound(n: nat, w: nat)
    requires
        n < vstd::arithmetic::power2::pow2(w),
    ensures
        bit_length(n) <= w,
    decreases n,
{
    if n > 0 {
        if w == 0 {
            vstd::arithmetic::power2::lemma2_to64();
        } else {
            vstd::arithmetic::power2::lemma_pow2_unfold(w);
            lemma_bit_length_bound(n / 2, (w - 1) as nat);
        }
    }
}

/// The bits one entry of a packed palette index takes (see `spec_bits_per_entry`).
pub fn bits_per_entry(palette_size: usize) -> (r: usize)
    ensures
        r == spec_bits_per_entry(palette_size as nat),
        1 <= r <= 64,
{
    if palette_size <= 1 {
        return 1;
    }
    let mut x: usize = palette_size - 1;
    let mut bits: usize = 0;
    proof {
        vstd::arithmetic::power2::lemma2_to64();
        assert(usize::MAX < vstd::arithmetic::power2::pow2(64));
        lemma_bit_length_bound((palette_size - 1) as nat, 64);
    }
    while x > 0
        invariant
            bits + bit_length(x as nat) == bit_length((palette_size - 1) as nat),
            bit_length((palette_size - 1) as nat) <= 64,
        decreases x,
    {
        x = x / 2;
        bits = bits + 1;
    }
    bits
}

/// What is left of a block name once its state (from `[` on) is cut off.
pub open spec fn spec_base_name(s: Seq<char>) -> Seq<char> {
    match spec_find(s, seq!['[']) {
        Some(i) => s.take(i),
        None => s,
    }
}

/// A block name without its state, as `minecraft:stone[axis=y]` gives
/// `minecraft:stone`.
pub fn base_name(s: &str) -> (r: String)
    ensures
        r@ == spec_base_name(s@),
{
    let v = chars_of(s);
    proof {
        crate::text::lemma_find_from_sound(s@, seq!['['], 0);
    }
    match find_char(v.as_slice(), '[') {
        Some(i) => string_of_range(v.as_slice(), 0, i),
        None => copy_str(s),
    }
}

/// The mask of the `bits` low bits of a `u64` (all of them from 64 bits on).
pub open spec fn low_mask(bits: nat) -> u64 {
    if bits >= 64 {
        u64::MAX
    } else {
        ((1u64 << (bits as u64)) - 1) as u64
    }
}

/// Entry `j` of a packed array of longs: `64 / bits` entries of `bits` bits to a long,
/// from its low bits up, none across two longs.
pub open spec fn packed_entry(states: Seq<i64>, bits: nat, j: nat) -> u64 {
    let per = 64nat / bits;
    let v = states[(j / per) as int] as u64;
    (v >> (((j % per) * bits) as u64)) & low_mask(bits)
}

/// How many of the first `n` entries of a packed array hold palette index `k`.
pub open spec fn count_entries(states: Seq<i64>, bits: nat, k: nat, n: nat) -> nat
    decreases n,
{
    if n == 0 {
        0
    } else {
        count_entries(states, bits, k, (n - 1) as nat) + if (packed_entry(
            states,
            bits,
            (n - 1) as nat,
        ) as usize) == k {
            1nat
        } else {
            0nat
        }
    }
}

/// How many entries of a region are read: `total` at most, and no more than its longs
/// hold.
pub open spec fn entries_read(states_len: nat, bits: nat, total: nat) -> nat {
    let cap = states_len * (64nat / bits);
    if total < cap {
        total
    } else {
        cap
    }
}

/// How many blocks of each palette index a Litematica region holds: its packed states
/// are read entry by entry (see `packed_entry`), `total` entries at most, and entries
/// beyond the palette are passed over. A region with an empty palette or no states
/// counts nothing.
pub fn count_packed_blocks(palette_size: usize, states: &Vec<i64>, total: usize) -> (r: Vec<u64>)
    ensures
        palette_size == 0 || states@.len() == 0 ==> r@.len() == 0,
        palette_size > 0 && states@.len() > 0 ==> {
            &&& r@.len() == palette_size
            &&& forall|k: int|
                0 <= k < palette_size ==> #[trigger] r@[k] == count_entries(
                    states@,
                    spec_bits_per_entry(palette_size as nat),
                    k as nat,
                    entries_read(
                        states@.len() as nat,
                        spec_bits_per_entry(palette_size as nat),
                        total as nat,
                    ),
                )
        },
{
    let mut counts: Vec<u64> = Vec::new();
    if palette_size == 0 || states.len() == 0 {
        return counts;
    }
    let bits = bits_per_entry(palette_size);
    let ghost b = spec_bits_per_entry(palette_size as nat);
    let per: usize = 64 / bits;
    assert(1 <= per <= 64) by (nonlinear_arith)
        requires
            per == 64usize / bits,
            1 <= bits <= 64,
    ;
    assert(per * bits <= 64) by (nonlinear_arith)
        requires
            per == 64usize / bits,
            1 <= bits <= 64,
    ;
    let mask: u64 = if bits >= 64 {
        u64::MAX
    } else {
        let sh: u64 = bits as u64;
        assert((1u64 << sh) >= 1u64) by (bit_vector)
            requires
                sh < 64u64,
        ;
        (1u64 << sh) - 1
    };
    assert(mask == low_mask(b));
    let mut k: usize = 0;
    while k < palette_size
        invariant
            k <= palette_size,
            counts@.len() == k,
            forall|i: int| 0 <= i < k ==> counts@[i] == 0,
        decreases palette_size - k,
    {
        counts.push(0);
        k = k + 1;
    }
    let mut processed: usize = 0;
    while processed < total && processed / per < states.len()
        invariant
            processed <= total,
            1 <= per <= 64,
            1 <= bits <= 64,
            per * bits <= 64,
            b == bits,
            per == 64nat / b,
            mask == low_mask(b),
            counts@.len() == palette_size,
            processed <= states@.len() * per,
            forall|i: int|
                0 <= i < palette_size ==> #[trigger] counts@[i] == count_entries(
                    states@,
                    b,
                    i as nat,
                    processed as nat,
                ),
            forall|i: int| 0 <= i < palette_size ==> #[trigger] counts@[i] <= processed,
        decreases total - processed,
    {
        let long_index = processed / per;
        let slot = processed % per;
        assert(slot * bits + bits <= 64) by (nonlinear_arith)
            requires
                slot < per,
                per * bits <= 64,
        ;
        #[verifier::truncate]
        let v = states[long_index] as u64;
        let shift = (slot * bits) as u64;
        #[verifier::truncate]
        let block_id = ((v >> shift) & mask) as usize;
        assert(block_id == packed_entry(states@, b, processed as nat) as usize);
        if block_id < palette_size {
            counts.set(block_id, counts[block_id] + 1);
        }
        assert(processed + 1 <= states@.len() * per) by (nonlinear_arith)
            requires
                long_index == processed / per,
                long_index < states@.len(),
                per >= 1,
        ;
        processed = processed + 1;
    }
    proof {
        let cap = states@.len() * per;
        if processed < total {
            assert(processed / per >= states@.len());
            assert(processed >= cap) by (nonlinear_arith)
                requires
                    processed / per >= states@.len(),
                    per >= 1,
                    cap == states@.len() * per,
            ;
        }
        assert(processed as nat == entries_read(states@.len() as nat, b, total as nat));
    }
    counts
}

/// A map of counts with integer values.
pub open spec fn as_int_map(m: Map<Seq<char>, u64>) -> Map<Seq<char>, int> {
    m.map_values(|v: u64| v as int)
}

/// The count of `k`, 0 where there is none.
pub open spec fn count_of(m: Map<Seq<char>, int>, k: Seq<char>) -> int {
    if m.contains_key(k) {
        m[k]
    } else {
        0
    }
}

/// The block counts once the first `n` palette counts are added: each nonzero count of
/// a palette entry with a name is added to that name's count.
pub open spec fn counted(
    blocks: Map<Seq<char>, int>,
    names: Seq<Option<Seq<char>>>,
    counts: Seq<u64>,
    n: int,
) -> Map<Seq<char>, int>
    decreases n,
{
    if n <= 0 {
        blocks
    } else {
        let before = counted(blocks, names, counts, n - 1);
        match names[n - 1] {
            Some(k) => if counts[n - 1] > 0 {
                before.insert(k, count_of(before, k) + counts[n - 1])
            } else {
                before
            },
            None => before,
        }
    }
}

/// The sum of the first `n` palette counts that are added (those of named entries).
pub open spec fn added_upto(names: Seq<Option<Seq<char>>>, counts: Seq<u64>, n: int) -> int
    decreases n,
{
    if n <= 0 {
        0
    } else {
        added_upto(names, counts, n - 1) + if names[n - 1] is Some {
            counts[n - 1] as int
        } else {
            0
        }
    }
}

/// Counts only grow as more are added, and no name is lost.
proof fn lemma_counted_grows(
    blocks: Map<Seq<char>, int>,
    names: Seq<Option<Seq<char>>>,
    counts: Seq<u64>,
    i: int,
    n: int,
)
    requires
        0 <= i <= n,
        forall|k: Seq<char>| blocks.contains_key(k) ==> blocks[k] >= 0,
    ensures
        forall|k: Seq<char>|
            #[trigger] counted(blocks, names, counts, i).contains_key(k) ==> counted(
                blocks,
                names,
                counts,
                n,
            ).contains_key(k) && 0 <= counted(blocks, names, counts, i)[k] <= counted(
                blocks,
                names,
                counts,
                n,
            )[k],
        0 <= added_upto(names, counts, i) <= added_upto(names, counts, n),
    decreases n - i,
{
    lemma_counted_nonneg(blocks, names, counts, i);
    lemma_added_nonneg(names, counts, i);
    if i < n {
        lemma_counted_grows(blocks, names, counts, i, n - 1);
        lemma_counted_nonneg(blocks, names, counts, n - 1);
        let before = counted(blocks, names, counts, n - 1);
        let after = counted(blocks, names, counts, n);
        assert forall|k: Seq<char>| #[trigger] before.contains_key(k) implies after.contains_key(k)
            && before[k] <= after[k] by {
            match names[n - 1] {
                Some(x) => {
                    if counts[n - 1] > 0 && x == k {
                        assert(after[k] == count_of(before, k) + counts[n - 1]);
                    }
                },
                None => {},
            }
        }
    }
}

/// Added sums are never negative.
proof fn lemma_added_nonneg(names: Seq<Option<Seq<char>>>, counts: Seq<u64>, n: int)
    ensures
        added_upto(names, counts, n) >= 0,
    decreases n,
{
    if n > 0 {
        lemma_added_nonneg(names, counts, n - 1);
    }
}

/// Counts are never negative.
proof fn lemma_counted_nonneg(
    blocks: Map<Seq<char>, int>,
    names: Seq<Option<Seq<char>>>,
    counts: Seq<u64>,
    n: int,
)
    requires
        forall|k: Seq<char>| blocks.contains_key(k) ==> blocks[k] >= 0,
    ensures
        forall|k: Seq<char>|
            #[trigger] counted(blocks, names, counts, n).contains_key(k) ==> counted(
                blocks,
                names,
                counts,
                n,
            )[k] >= 0,
    decreases n,
{
    if n > 0 {
        lemma_counted_nonneg(blocks, names, counts, n - 1);
        let before = counted(blocks, names, counts, n - 1);
        let after = counted(blocks, names, counts, n);
        assert forall|k: Seq<char>| #[trigger] after.contains_key(k) implies after[k] >= 0 by {
            match names[n - 1] {
                Some(x) => {
                    if counts[n - 1] > 0 && x == k {
                        assert(count_of(before, k) >= 0);
                    } else {
                        assert(before.contains_key(k));
                    }
                },
                None => {},
            }
        }
    }
}

/// Adds the counts of a palette to the block counts (see `counted`) and gives the sum of
/// what was added. The counts must stay within a `u64`, as the sum must.
pub fn add_block_counts(
    blocks: &mut KeyedCache<String, u64>,
    names: &Vec<Option<String>>,
    counts: &Vec<u64>,
) -> (total: u64)
    requires
        old(blocks).wf(),
        names@.len() == counts@.len(),
        forall|k: Seq<char>|
            #[trigger] counted(
                as_int_map(old(blocks)@),
                opt_views(names@),
                counts@,
                counts@.len() as int,
            ).contains_key(k) ==> counted(
                as_int_map(old(blocks)@),
                opt_views(names@),
                counts@,
                counts@.len() as int,
            )[k] <= u64::MAX,
        added_upto(opt_views(names@), counts@, counts@.len() as int) <= u64::MAX,
    ensures
        final(blocks).wf(),
        as_int_map(final(blocks)@) == counted(
            as_int_map(old(blocks)@),
            opt_views(names@),
            counts@,
            counts@.len() as int,
        ),
        total == added_upto(opt_views(names@), counts@, counts@.len() as int),
{
    let ghost start = as_int_map(blocks@);
    let ghost nv = opt_views(names@);
    let ghost n = counts@.len() as int;
    let mut total: u64 = 0;
    let mut i: usize = 0;
    while i < counts.len()
        invariant
            i <= counts@.len(),
            names@.len() == counts@.len(),
            n == counts@.len(),
            nv == opt_views(names@),
            forall|k: Seq<char>| start.contains_key(k) ==> start[k] >= 0,
            forall|k: Seq<char>|
                #[trigger] counted(start, nv, counts@, n).contains_key(k) ==> counted(
                    start,
                    nv,
                    counts@,
                    n,
                )[k] <= u64::MAX,
            added_upto(nv, counts@, n) <= u64::MAX,
            blocks.wf(),
            as_int_map(blocks@) == counted(start, nv, counts@, i as int),
            total == added_upto(nv, counts@, i as int),
        decreases counts@.len() - i,
    {
        proof {
            lemma_counted_grows(start, nv, counts@, i + 1, n);
        }
        let c = counts[i];
        assert(nv[i as int] == opt_view(names@[i as int]));
        match &names[i] {
            Some(key) => {
                if c > 0 {
                    let before: u64 = match blocks.get(key) {
                        Some(v) => *v,
                        None => 0,
                    };
                    let ghost m = counted(start, nv, counts@, i + 1);
                    assert(m.contains_key(key@));
                    assert(before as int == count_of(counted(start, nv, counts@, i as int), key@));
                    let k = copy_str(key.as_str());
                    blocks.insert(k, before + c);
                    assert(as_int_map(blocks@) =~= m);
                }
                total = total + c;
            },
            None => {},
        }
        i = i + 1;
    }
    total
}

/// How many of the first `n` values are `k`.
pub open spec fn count_index(values: Seq<i64>, k: int, n: int) -> nat
    decreases n,
{
    if n <= 0 {
        0
    } else {
        count_index(values, k, n - 1) + if values[n - 1] == k {
            1nat
        } else {
            0nat
        }
    }
}

/// How many times each index below `size` occurs among the values, which all lie
/// below `size`.
pub fn count_indices(values: &Vec<i64>, size: usize) -> (r: Vec<u64>)
    requires
        forall|i: int| 0 <= i < values@.len() ==> 0 <= #[trigger] values@[i] < size,
    ensures
        r@.len() == size,
        forall|k: int| 0 <= k < size ==> #[trigger] r@[k] == count_index(values@, k, values@.len() as int),
{
    let mut counts: Vec<u64> = Vec::new();
    let mut k: usize = 0;
    while k < size
        invariant
            k <= size,
            counts@.len() == k,
            forall|i: int| 0 <= i < k ==> counts@[i] == 0,
        decreases size - k,
    {
        counts.push(0);
        k = k + 1;
    }
    let mut i: usize = 0;
    while i < values.len()
        invariant
            i <= values@.len(),
            counts@.len() == size,
            forall|j: int| 0 <= j < values@.len() ==> 0 <= #[trigger] values@[j] < size,
            forall|k: int| 0 <= k < size ==> #[trigger] counts@[k] == count_index(values@, k, i as int),
            forall|k: int| 0 <= k < size ==> #[trigger] counts@[k] <= i,
        decreases values@.len() - i,
    {
        let v = values[i];
        assert(0 <= v < size);
        let idx = v as usize;
        counts.set(idx, counts[idx] + 1);
        i = i + 1;
    }
    counts
}

/// The palette of a WorldEdit structure, from its first `n` entries: each block name
/// without its state under the index its entry gives (0 where it gives none), a later
/// entry winning over an earlier one with the same index.
pub open spec fn schem_palette_map(entries: Seq<(String, Option<i32>)>, n: int) -> Map<u128, Seq<char>>
    decreases n,
{
    if n <= 0 {
        Map::empty()
    } else {
        schem_palette_map(entries, n - 1).insert(
            palette_key(entries[n - 1].1),
            spec_base_name(entries[n - 1].0@),
        )
    }
}

/// The texts of a map of strings.
pub open spec fn text_values(m: Map<u128, String>) -> Map<u128, Seq<char>> {
    m.map_values(|s: String| s@)
}

/// The key of a palette index: the index itself, 0 where there is none.
pub open spec fn palette_key(v: Option<i32>) -> u128 {
    match v {
        Some(x) => (x as i64) as u128,
        None => 0,
    }
}

/// The name of palette index `i`: the name kept under it, where there is one and it is
/// not empty.
pub open spec fn palette_name(m: Map<u128, Seq<char>>, i: int) -> Option<Seq<char>> {
    match lookup(m, i as u128) {
        Some(s) => if s.len() > 0 {
            Some(s)
        } else {
            None
        },
        None => None,
    }
}

/// The palette of a WorldEdit structure (see `schem_palette_map`): its size (the number
/// of distinct indices) and the name of each index below it (see `palette_name`).
pub fn schem_palette(entries: &Vec<(String, Option<i32>)>) -> (r: (usize, Vec<Option<String>>))
    ensures
        r.0 == schem_palette_map(entries@, entries@.len() as int).dom().len(),
        r.1@.len() == r.0,
        forall|i: int|
            0 <= i < r.0 ==> #[trigger] opt_view(r.1@[i]) == palette_name(
                schem_palette_map(entries@, entries@.len() as int),
                i,
            ),
{
    let mut map: KeyedCache<u128, String> = KeyedCache::new();
    let mut i: usize = 0;
    while i < entries.len()
        invariant
            i <= entries@.len(),
            map.wf(),
            text_values(map@) == schem_palette_map(entries@, i as int),
        decreases entries@.len() - i,
    {
        let key: u128 = match entries[i].1 {
            Some(x) => {
                #[verifier::truncate]
                let k = (x as i64) as u128;
                k
            },
            None => 0,
        };
        let ghost m0 = map@;
        let name = base_name(entries[i].0.as_str());
        let ghost nv = name@;
        map.insert(key, name);
        assert(text_values(map@) =~= text_values(m0).insert(key, nv));
        i = i + 1;
    }
    proof {
        map.lemma_entries();
    }
    let size = map.len();
    let mut names: Vec<Option<String>> = Vec::new();
    let mut k: usize = 0;
    while k < size
        invariant
            k <= size,
            map.wf(),
            text_values(map@) == schem_palette_map(entries@, entries@.len() as int),
            size == map@.dom().len(),
            names@.len() == k,
            forall|j: int|
                0 <= j < k ==> #[trigger] opt_view(names@[j]) == palette_name(text_values(map@), j),
        decreases size - k,
    {
        let name: Option<String> = match map.get(&(k as u128)) {
            Some(s) => if s.as_str().is_empty() {
                None
            } else {
                Some(copy_str(s.as_str()))
            },
            None => None,
        };
        let ghost n0 = names@;
        names.push(name);
        assert(names@[k as int] == name);
        assert(opt_view(name) == palette_name(text_values(map@), k as int));
        k = k + 1;
    }
    assert(text_values(map@).dom() =~= map@.dom());
    (size, names)
}

impl SchematicObj {
    /// Records the totals of a structure whose blocks were counted: the number of blocks
    /// and the number of kinds (taken modulo 2^32).
    pub fn set_block_totals(&mut self, total: u64)
        requires
            old(self).blocks.wf(),
        ensures
            final(self).block_count == total,
            final(self).block_types == (old(self).blocks@.dom().len() as u32),
            final(self).blocks == old(self).blocks,
            final(self).name == old(self).name,
            final(self).path == old(self).path,
            final(self).schematic_type == old(self).schematic_type,
    {
        self.block_count = total;
        proof {
            self.blocks.lemma_entries();
        }
        #[verifier::truncate]
        let kinds = self.blocks.len() as u32;
        self.block_types = kinds;
    }
}

/// Sets the size of a structure from its `Height`, `Length` and `Width` shorts, each
/// where it is present.
pub fn read_dimensions_short(height: Option<i16>, length: Option<i16>, width: Option<i16>, obj: &mut SchematicObj)
    ensures
        final(obj).height == match height {
            Some(h) => h as i32,
            None => old(obj).height,
        },
        final(obj).length == match length {
            Some(l) => l as i32,
            None => old(obj).length,
        },
        final(obj).width == match width {
            Some(w) => w as i32,
            None => old(obj).width,
        },
        final(obj).name == old(obj).name,
        final(obj).blocks == old(obj).blocks,
        final(obj).block_count == old(obj).block_count,
        final(obj).block_types == old(obj).block_types,
        final(obj).schematic_type == old(obj).schematic_type,
{
    if let Some(h) = height {
        obj.height = h as i32;
    }
    if let Some(l) = length {
        obj.length = l as i32;
    }
    if let Some(w) = width {
        obj.width = w as i32;
    }
}

/// An entry of a whole-number list, or 0 where it is not a whole number.
pub open spec fn int_or_zero(v: Option<i32>) -> i32 {
    match v {
        Some(x) => x,
        None => 0,
    }
}

/// Sets the size of a Create structure from its `size` list: where the list has three
/// entries, the width, height and length in that order (0 for an entry that is not a
/// whole number); otherwise the size stays.
pub fn read_create_size(size: &Option<Vec<Option<i32>>>, obj: &mut SchematicObj)
    ensures
        match size {
            Some(l) => if l@.len() == 3 {
                &&& final(obj).width == int_or_zero(l@[0])
                &&& final(obj).height == int_or_zero(l@[1])
                &&& final(obj).length == int_or_zero(l@[2])
            } else {
                final(obj).width == old(obj).width && final(obj).height == old(obj).height
                    && final(obj).length == old(obj).length
            },
            None => final(obj).width == old(obj).width && final(obj).height == old(obj).height
                && final(obj).length == old(obj).length,
        },
        final(obj).blocks == old(obj).blocks,
        final(obj).block_count == old(obj).block_count,
        final(obj).schematic_type == old(obj).schematic_type,
{
    if let Some(l) = size {
        if l.len() == 3 {
            obj.width = match l[0] {
                Some(x) => x,
                None => 0,
            };
            obj.height = match l[1] {
                Some(x) => x,
                None => 0,
            };
            obj.length = match l[2] {
                Some(x) => x,
                None => 0,
            };
        }
    }
}

/// The `Metadata` compound of a Litematica file, as far as it is read: its texts, its
/// enclosing size (`x`, `y`, `z`) and its block total, each where present.
#[derive(Debug)]
pub struct LitematicMeta {
    pub name: Option<String>,
    pub author: Option<String>,
    pub description: Option<String>,
    pub size_x: Option<i32>,
    pub size_y: Option<i32>,
    pub size_z: Option<i32>,
    pub total_blocks: Option<i32>,
}

/// A text, or the empty text.
pub open spec fn text_or_empty(v: Option<String>) -> Seq<char> {
    match v {
        Some(s) => s@,
        None => Seq::empty(),
    }
}

/// The structure a Litematica file's metadata describes, before its regions are
/// counted: its texts (empty where absent), the height from `y`, the length from `x`,
/// the width from `z`, and the block count from `TotalBlocks`, a negative total taken
/// as its 64-bit two's complement.
pub fn litematic_header(meta: &LitematicMeta) -> (r: SchematicObj)
    ensures
        r.schematic_type == SchematicType::Litematic,
        r.name@ == text_or_empty(meta.name),
        r.author@ == text_or_empty(meta.author),
        r.description@ == text_or_empty(meta.description),
        r.height == int_or_zero(meta.size_y),
        r.length == int_or_zero(meta.size_x),
        r.width == int_or_zero(meta.size_z),
        r.block_count == match meta.total_blocks {
            Some(t) => (t as i64) as u64,
            None => 0,
        },
        r.block_types == 0,
        r.blocks.wf(),
        r.blocks@ == Map::<Seq<char>, u64>::empty(),
        r.path@.len() == 0,
        !r.fail,
{
    let mut obj = SchematicObj::default();
    obj.schematic_type = SchematicType::Litematic;
    obj.name = match &meta.name {
        Some(s) => copy_str(s.as_str()),
        None => String::new(),
    };
    obj.author = match &meta.author {
        Some(s) => copy_str(s.as_str()),
        None => String::new(),
    };
    obj.description = match &meta.description {
        Some(s) => copy_str(s.as_str()),
        None => String::new(),
    };
    if let Some(y) = meta.size_y {
        obj.height = y;
    }
    if let Some(x) = meta.size_x {
        obj.length = x;
    }
    if let Some(z) = meta.size_z {
        obj.width = z;
    }
    if let Some(t) = meta.total_blocks {
        #[verifier::truncate]
        let c = (t as i64) as u64;
        obj.block_count = c;
    }
    obj
}

/// The name a file is imported under when its own is taken: its stem, the number `k`
/// in brackets, and its extension (with its dot).
pub open spec fn numbered_name(stem: Seq<char>, k: nat, ext: Seq<char>) -> Seq<char> {
    stem + "("@ + spec_decimal(k) + ")"@ + ext
}

/// Whether one of the names is `s`.
fn has_name(names: &Vec<String>, s: &str) -> (r: bool)
    ensures
        r == strings_view(names@).contains(s@),
{
    let mut i: usize = 0;
    while i < names.len()
        invariant
            i <= names@.len(),
            forall|j: int| 0 <= j < i ==> strings_view(names@)[j] != s@,
        decreases names@.len() - i,
    {
        if str_eq(names[i].as_str(), s) {
            assert(strings_view(names@)[i as int] == s@);
            return true;
        }
        i = i + 1;
    }
    false
}

/// The name a structure file is imported under, among the names the folder already
/// holds: its own (`file_name`) where it is free, else the first free numbered name
/// (see `numbered_name`) from 1 on. A numbered name up to `u32::MAX` must be free where
/// its own is taken.
pub fn free_name(names: &Vec<String>, file_name: &str, stem: &str, ext: &str) -> (r: String)
    requires
        strings_view(names@).contains(file_name@) ==> exists|k: int|
            1 <= k <= u32::MAX && !strings_view(names@).contains(
                #[trigger] numbered_name(stem@, k as nat, ext@),
            ),
    ensures
        !strings_view(names@).contains(file_name@) ==> r@ == file_name@,
        strings_view(names@).contains(file_name@) ==> exists|k: int|
            #![trigger numbered_name(stem@, k as nat, ext@)]
            1 <= k <= u32::MAX && r@ == numbered_name(stem@, k as nat, ext@)
                && !strings_view(names@).contains(r@) && forall|j: int|
                1 <= j < k ==> strings_view(names@).contains(
                    #[trigger] numbered_name(stem@, j as nat, ext@),
                ),
{
    if !has_name(names, file_name) {
        return copy_str(file_name);
    }
    let mut counter: u32 = 1;
    loop
        invariant
            1 <= counter <= u32::MAX,
            strings_view(names@).contains(file_name@),
            exists|k: int|
                counter <= k <= u32::MAX && !strings_view(names@).contains(
                    #[trigger] numbered_name(stem@, k as nat, ext@),
                ),
            forall|j: int|
                1 <= j < counter ==> strings_view(names@).contains(
                    #[trigger] numbered_name(stem@, j as nat, ext@),
                ),
        decreases u32::MAX - counter,
    {
        let mut candidate = copy_str(stem);
        push_str(&mut candidate, "(");
        let digits = decimal(counter as u64);
        push_str(&mut candidate, digits.as_str());
        push_str(&mut candidate, ")");
        push_str(&mut candidate, ext);
        proof {
            reveal_strlit("(");
            reveal_strlit(")");
        }
        assert(candidate@ =~= numbered_name(stem@, counter as nat, ext@));
        if !has_name(names, candidate.as_str()) {
            let ghost k: int = counter as int;
            assert(candidate@ == numbered_name(stem@, k as nat, ext@));
            assert(forall|j: int|
                1 <= j < k ==> strings_view(names@).contains(
                    #[trigger] numbered_name(stem@, j as nat, ext@),
                ));
            return candidate;
        }
        assert(counter < u32::MAX);
        counter = counter + 1;
    }
}

} // verus!
