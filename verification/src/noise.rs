//! Permutation tables for gradient noise.
//!
//! A noise texture hashes lattice coordinates through three shuffled copies
//! of the table `0..256`; everything the hash needs from this module is that
//! each table really is a permutation, so every lookup lands back in
//! `0..256`.
use crate::random::random_int;
use vstd::prelude::*;

verus! {

/// The sequence `0, 1, ..., 255`.
pub open spec fn identity_table() -> Seq<usize> {
    Seq::new(256, |i: int| i as usize)
}

/// Exchanging two positions of a sequence rearranges it but keeps its
/// elements, with multiplicity.
proof fn lemma_swap_preserves_multiset(s: Seq<usize>, i: int, j: int)
    requires
        0 <= i < s.len(),
        0 <= j < s.len(),
    ensures
        s.update(i, s[j]).update(j, s[i]).to_multiset() == s.to_multiset(),
{
    broadcast use vstd::seq_lib::group_to_multiset_ensures;
    broadcast use vstd::multiset::group_multiset_axioms;
    broadcast use vstd::multiset::group_multiset_properties;

    let s1 = s.update(i, s[j]);
    assert(s1[j] == s[j]);
    assert(s.contains(s[i]));
    assert(s1.contains(s1[i]));
    assert(s.update(i, s[j]).update(j, s[i]).to_multiset() =~= s.to_multiset());
}

/// Shuffle the table in place by one backward pass of random exchanges.
/// The result holds exactly the elements the input held.
pub fn permute(p: &mut Vec<usize>)
    ensures
        final(p)@.len() == old(p)@.len(),
        final(p)@.to_multiset() == old(p)@.to_multiset(),
{
    let ghost s0 = p@;
    let n = p.len();
    let mut i: usize = n;
    while i > 0
        invariant
            i <= n,
            p@.len() == n,
            p@.to_multiset() == s0.to_multiset(),
        decreases i,
    {
        i = i - 1;
        let target = random_int(0, i + 1);
        let a = p[i];
        let b = p[target];
        let ghost before = p@;
        p.set(i, b);
        p.set(target, a);
        proof {
            lemma_swap_preserves_multiset(before, i as int, target as int);
        }
    }
}

/// A fresh random permutation of `0..256`.
pub fn perlin_generate_permutation() -> (r: Vec<usize>)
    ensures
        r@.len() == 256,
        r@.to_multiset() == identity_table().to_multiset(),
        r@.no_duplicates(),
        forall|k: int| 0 <= k < 256 ==> r@[k] < 256,
{
    let mut result: Vec<usize> = Vec::new();
    let mut i: usize = 0;
    while i < 256
        invariant
            i <= 256,
            result@.len() == i,
            forall|k: int| 0 <= k < i ==> result@[k] == k,
        decreases 256 - i,
    {
        result.push(i);
        i = i + 1;
    }
    proof {
        assert(result@ =~= identity_table());
    }
    permute(&mut result);
    proof {
        lemma_table_elements_in_range(result@);
        lemma_table_no_duplicates(result@);
    }
    result
}

/// A sequence with the elements of `0..256` holds each of them once.
proof fn lemma_table_no_duplicates(s: Seq<usize>)
    requires
        s.to_multiset() == identity_table().to_multiset(),
    ensures
        s.no_duplicates(),
{
    assert(identity_table().no_duplicates());
    identity_table().lemma_multiset_has_no_duplicates();
    s.lemma_multiset_has_no_duplicates_conv();
}

/// A sequence with the elements of `0..256` has every entry below 256.
proof fn lemma_table_elements_in_range(s: Seq<usize>)
    requires
        s.to_multiset() == identity_table().to_multiset(),
    ensures
        forall|k: int| 0 <= k < s.len() ==> s[k] < 256,
{
    broadcast use vstd::seq_lib::group_to_multiset_ensures;

    assert forall|k: int| 0 <= k < s.len() implies s[k] < 256 by {
        assert(s.contains(s[k]));
        assert(s.to_multiset().count(s[k]) > 0);
        assert(identity_table().contains(s[k]));
        let m = choose|m: int| 0 <= m < identity_table().len() && identity_table()[m] == s[k];
        assert(s[k] == m as usize);
    }
}

/// Three independently shuffled permutation tables, one per axis, built once
/// and then owned by whichever texture samples the noise.
#[derive(Clone)]
pub struct NoiseTables {
    pub x: Vec<usize>,
    pub y: Vec<usize>,
    pub z: Vec<usize>,
}

impl NoiseTables {
    /// Each table is a permutation of `0..256`.
    pub open spec fn wf(self) -> bool {
        &&& self.x@.len() == 256 && self.x@.to_multiset() == identity_table().to_multiset()
        &&& self.y@.len() == 256 && self.y@.to_multiset() == identity_table().to_multiset()
        &&& self.z@.len() == 256 && self.z@.to_multiset() == identity_table().to_multiset()
        &&& forall|k: int| 0 <= k < 256 ==> self.x@[k] < 256
        &&& forall|k: int| 0 <= k < 256 ==> self.y@[k] < 256
        &&& forall|k: int| 0 <= k < 256 ==> self.z@[k] < 256
    }

    /// Build the three tables by independent shuffles.
    pub fn new() -> (r: NoiseTables)
        ensures
            r.wf(),
    {
        NoiseTables {
            x: perlin_generate_permutation(),
            y: perlin_generate_permutation(),
            z: perlin_generate_permutation(),
        }
    }

    /// The gradient slot the lattice point `(i, j, k)` hashes to: each
    /// coordinate masked to `0..256` and looked up in that axis's table, the
    /// three lookups combined by exclusive or.
    pub open spec fn spec_index(self, i: i32, j: i32, k: i32) -> usize {
        (self.x@[(i & 255) as int] ^ self.y@[(j & 255) as int]) ^ self.z@[(k & 255) as int]
    }

    /// Hash the lattice point `(i, j, k)` to a gradient slot: mask each
    /// coordinate to `0..256`, look it up in that axis's table, and combine
    /// the three by exclusive or. The result always indexes a 256-entry
    /// gradient array.
    pub fn index(&self, i: i32, j: i32, k: i32) -> (r: usize)
        requires
            self.wf(),
        ensures
            r == self.spec_index(i, j, k),
            r < 256,
    {
        let xi = (i & 255) as usize;
        let yj = (j & 255) as usize;
        let zk = (k & 255) as usize;
        assert(0 <= (i & 255) < 256) by (bit_vector);
        assert(0 <= (j & 255) < 256) by (bit_vector);
        assert(0 <= (k & 255) < 256) by (bit_vector);
        let a = self.x[xi];
        let b = self.y[yj];
        let c = self.z[zk];
        let r = a ^ b ^ c;
        assert(a < 256 && b < 256 && c < 256 ==> (a ^ b ^ c) < 256) by (bit_vector);
        r
    }
}

} // verus!
