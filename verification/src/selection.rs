//! Seeded sampling without replacement.
//!
//! A 32-byte seed is read as eight little-endian windows of four bytes. The
//! selection number `i` takes window `i` (the windows are reused cyclically),
//! reduces it modulo the number of candidates and walks forward from there,
//! wrapping round, to the first index that no earlier selection took. The
//! result depends on nothing but the seed and the order of the candidates.

use vstd::prelude::*;
use vstd::arithmetic::div_mod::{
    lemma_fundamental_div_mod,
    lemma_fundamental_div_mod_converse,
    lemma_mod_pos_bound,
    lemma_small_mod,
};
use vstd::seq_lib::seq_to_set_is_finite;
use vstd::set_lib::{lemma_int_range, lemma_len_subset, set_int_range};
use crate::keys::AccountId;

verus! {

/// Value of the window that selection number `i` reads: four bytes of the
/// seed, starting at byte `4 * (i mod 8)`, as a little-endian number.
pub open spec fn window_value(seed: Seq<u8>, i: int) -> int {
    let o = 4 * (i % 8);
    seed[o] + 256 * seed[o + 1] + 65536 * seed[o + 2] + 16777216 * seed[o + 3]
}

/// Linear probing among `n` indices: the number of steps from `start` to the
/// first index not in `used`, counted from `d` on. The walk goes through
/// `start + d`, `start + d + 1`, ... taken modulo `n`, and gives up after `n`
/// steps, when it is back at `start`.
pub open spec fn probe_distance(used: Seq<int>, n: int, start: int, d: int) -> int
    decreases n - d,
{
    if d < n && used.contains((start + d) % n) {
        probe_distance(used, n, start, d + 1)
    } else {
        d
    }
}

/// The index at which probing from `start` stops: the first index at or after
/// `start`, wrapping round at `n`, that is not in `used`.
pub open spec fn probe(used: Seq<int>, n: int, start: int) -> int {
    (start + probe_distance(used, n, start, 0)) % n
}

/// The index that the next selection takes, given the indices `used` that the
/// earlier selections took.
pub open spec fn next_pick(seed: Seq<u8>, n: int, used: Seq<int>) -> int {
    probe(used, n, window_value(seed, used.len() as int) % n)
}

/// The indices that the first `k` selections take among `n` candidates, in
/// selection order.
pub open spec fn selection(seed: Seq<u8>, n: int, k: nat) -> Seq<int>
    decreases k,
{
    if k == 0 {
        Seq::empty()
    } else {
        let earlier = selection(seed, n, (k - 1) as nat);
        earlier.push(next_pick(seed, n, earlier))
    }
}

/// The candidates that the first `k` selections take, in selection order.
pub open spec fn picks(seed: Seq<u8>, candidates: Seq<AccountId>, k: nat) -> Seq<AccountId> {
    selection(seed, candidates.len() as int, k).map_values(|i: int| candidates[i])
}

/// A list of machine indices as mathematical integers.
pub open spec fn indices_view(indices: Seq<usize>) -> Seq<int> {
    indices.map_values(|i: usize| i as int)
}

/// One step of a walk modulo `n`.
proof fn lemma_mod_step(a: int, n: int)
    requires
        0 <= a,
        0 < n,
    ensures
        (a + 1) % n == if a % n + 1 == n {
            0
        } else {
            a % n + 1
        },
{
    lemma_fundamental_div_mod(a, n);
    lemma_mod_pos_bound(a, n);
    let q = a / n;
    let r = a % n;
    assert(n * q == q * n) by (nonlinear_arith);
    if r + 1 == n {
        assert((q + 1) * n + 0 == q * n + n) by (nonlinear_arith);
        lemma_fundamental_div_mod_converse(a + 1, n, q + 1, 0);
    } else {
        lemma_fundamental_div_mod_converse(a + 1, n, q, r + 1);
    }
}

/// Probing stops at the first free index: every index that the walk passes on
/// its way is taken, and the index at which it stops before `n` steps is free.
pub proof fn lemma_probe_stops_at_first_free(used: Seq<int>, n: int, start: int, d: int)
    requires
        0 <= d <= n,
    ensures
        d <= probe_distance(used, n, start, d) <= n,
        probe_distance(used, n, start, d) < n ==> !used.contains(
            (start + probe_distance(used, n, start, d)) % n,
        ),
        forall|e: int|
            d <= e < probe_distance(used, n, start, d) ==> used.contains(
                #[trigger] ((start + e) % n),
            ),
    decreases n - d,
{
    if d < n && used.contains((start + d) % n) {
        lemma_probe_stops_at_first_free(used, n, start, d + 1);
    }
}

/// Probing finds a free index whenever fewer than `n` indices are taken.
pub proof fn lemma_probe_finds_free(used: Seq<int>, n: int, start: int)
    requires
        0 < n,
        0 <= start < n,
        used.len() < n,
    ensures
        0 <= probe(used, n, start) < n,
        !used.contains(probe(used, n, start)),
{
    let stop = probe_distance(used, n, start, 0);
    lemma_probe_stops_at_first_free(used, n, start, 0);
    lemma_mod_pos_bound(start + stop, n);
    if stop == n {
        assert forall|j: int| 0 <= j < n implies used.contains(j) by {
            if j >= start {
                lemma_small_mod(j as nat, n as nat);
                assert(used.contains((start + (j - start)) % n));
            } else {
                lemma_fundamental_div_mod_converse(j + n, n, 1, j);
                assert(used.contains((start + (j - start + n)) % n));
            }
        }
        assert(set_int_range(0, n).subset_of(used.to_set()));
        lemma_int_range(0, n);
        seq_to_set_is_finite(used);
        lemma_len_subset(set_int_range(0, n), used.to_set());
        used.lemma_cardinality_of_set();
    }
}

/// The selected indices are as many as asked for, lie among the candidates and
/// are pairwise different, as long as no more are asked for than there are
/// candidates.
pub proof fn lemma_selection_distinct(seed: Seq<u8>, n: int, k: nat)
    requires
        k <= n,
    ensures
        selection(seed, n, k).len() == k,
        forall|j: int| 0 <= j < k ==> 0 <= #[trigger] selection(seed, n, k)[j] < n,
        selection(seed, n, k).no_duplicates(),
    decreases k,
{
    if k > 0 {
        lemma_selection_distinct(seed, n, (k - 1) as nat);
        let earlier = selection(seed, n, (k - 1) as nat);
        let w = window_value(seed, earlier.len() as int);
        lemma_mod_pos_bound(w, n);
        lemma_probe_finds_free(earlier, n, w % n);
    }
}

/// Selecting from duplicate-free candidates never returns a candidate twice,
/// and returns candidates only.
pub proof fn lemma_picks_distinct(seed: Seq<u8>, candidates: Seq<AccountId>, k: nat)
    requires
        k <= candidates.len(),
        candidates.no_duplicates(),
    ensures
        picks(seed, candidates, k).len() == k,
        picks(seed, candidates, k).no_duplicates(),
        forall|j: int|
            0 <= j < k ==> candidates.contains(#[trigger] picks(seed, candidates, k)[j]),
{
    lemma_selection_distinct(seed, candidates.len() as int, k);
    let sel = selection(seed, candidates.len() as int, k);
    let p = picks(seed, candidates, k);
    assert forall|i: int, j: int| 0 <= i < p.len() && 0 <= j < p.len() && i != j implies p[i]
        != p[j] by {
        assert(p[i] == candidates[sel[i]] && p[j] == candidates[sel[j]]);
    }
    assert forall|j: int| 0 <= j < k implies candidates.contains(#[trigger] p[j]) by {
        assert(p[j] == candidates[sel[j]]);
    }
}

/// The little-endian value of the window that selection number `i` reads.
pub fn seed_window(seed: &[u8; 32], i: usize) -> (w: u32)
    ensures
        w == window_value(seed@, i as int),
{
    let o: usize = (i % 8) * 4;
    let b0: u32 = seed[o] as u32;
    let b1: u32 = seed[o + 1] as u32;
    let b2: u32 = seed[o + 2] as u32;
    let b3: u32 = seed[o + 3] as u32;
    b0 + b1 * 256 + b2 * 65536 + b3 * 16777216
}

/// Tells whether `index` is among `used`.
fn index_used(used: &Vec<usize>, index: usize) -> (found: bool)
    ensures
        found == indices_view(used@).contains(index as int),
{
    let ghost view = indices_view(used@);
    let mut i: usize = 0;
    while i < used.len()
        invariant
            i <= used.len(),
            view == indices_view(used@),
            forall|j: int| 0 <= j < i ==> view[j] != index as int,
        decreases used.len() - i,
    {
        if used[i] == index {
            assert(view[i as int] == index as int);
            return true;
        }
        i = i + 1;
    }
    false
}

/// Makes the next selection among `n` candidates: appends to `used` the index
/// that it takes, and returns it.
pub fn select_next(seed: &[u8; 32], used: &mut Vec<usize>, n: usize) -> (index: usize)
    requires
        0 < n,
    ensures
        index as int == next_pick(seed@, n as int, indices_view(old(used)@)),
        index < n,
        final(used)@ == old(used)@.push(index),
{
    let ghost taken = indices_view(used@);
    let window: u32 = seed_window(seed, used.len());
    let start: usize = (window as usize) % n;
    let mut index: usize = start;
    let mut d: usize = 0;
    proof {
        lemma_small_mod(start as nat, n as nat);
    }
    while d < n && index_used(used, index)
        invariant
            0 < n,
            start < n,
            d <= n,
            index < n,
            taken == indices_view(used@),
            index as int == (start + d) % (n as int),
            probe_distance(taken, n as int, start as int, d as int) == probe_distance(
                taken,
                n as int,
                start as int,
                0,
            ),
        decreases n - d,
    {
        proof {
            lemma_mod_step(start + d, n as int);
        }
        index = if index + 1 == n {
            0
        } else {
            index + 1
        };
        d = d + 1;
    }
    used.push(index);
    index
}

} // verus!
