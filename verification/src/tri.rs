//! Stable sorting of creatures, by level or by kind. The executable sort is
//! pinned to `tri_stable`, a specification-level insertion sort that keeps
//! the prior relative order of creatures with equal keys: a new element is
//! always placed after the elements already present that share its key.

use vstd::prelude::*;
use crate::pokemon::Pokemon;
use crate::pokemon::rang_type;

verus! {

/// Which attribute a sort orders by.
#[derive(Debug, PartialEq, Eq, Structural, Clone, Copy)]
pub enum Critere {
    Niveau,
    Type,
}

/// The sort key of a creature under a criterion.
pub open spec fn cle(p: Pokemon, c: Critere) -> int {
    match c {
        Critere::Niveau => p.niveau as int,
        Critere::Type => rang_type(p.p_type),
    }
}

/// The sequence is in non-decreasing key order.
pub open spec fn trie_par(s: Seq<Pokemon>, c: Critere) -> bool {
    forall|i: int, j: int| 0 <= i <= j < s.len() ==> cle(s[i], c) <= cle(s[j], c)
}

/// Places `p` in `s` after every element whose key is at most `p`'s key and
/// before every later element: the insertion step of a stable insertion sort.
pub open spec fn insere_trie(s: Seq<Pokemon>, p: Pokemon, c: Critere) -> Seq<Pokemon>
    decreases s.len(),
{
    if s.len() == 0 {
        seq![p]
    } else if cle(s.last(), c) <= cle(p, c) {
        s.push(p)
    } else {
        insere_trie(s.drop_last(), p, c).push(s.last())
    }
}

/// Stable insertion sort: each element, taken left to right, is inserted
/// after those already placed that share its key.
pub open spec fn tri_stable(s: Seq<Pokemon>, c: Critere) -> Seq<Pokemon>
    decreases s.len(),
{
    if s.len() == 0 {
        Seq::empty()
    } else {
        insere_trie(tri_stable(s.drop_last(), c), s.last(), c)
    }
}

/// Every element of the insertion's result is the inserted one or one of the
/// original sequence.
proof fn lemma_insere_elements(s: Seq<Pokemon>, p: Pokemon, c: Critere)
    ensures
        forall|k: int|
            0 <= k < insere_trie(s, p, c).len() ==> insere_trie(s, p, c)[k] == p || s.contains(
                insere_trie(s, p, c)[k],
            ),
    decreases s.len(),
{
    if s.len() == 0 {
    } else if cle(s.last(), c) <= cle(p, c) {
    } else {
        lemma_insere_elements(s.drop_last(), p, c);
        assert forall|k: int| 0 <= k < insere_trie(s, p, c).len() implies insere_trie(s, p, c)[k]
            == p || s.contains(insere_trie(s, p, c)[k]) by {
            let t = insere_trie(s.drop_last(), p, c);
            if k < t.len() {
                if t[k] != p {
                    let m = choose|m: int| 0 <= m < s.drop_last().len() && s.drop_last()[m] == t[k];
                    assert(s[m] == t[k]);
                }
            } else {
                assert(insere_trie(s, p, c)[k] == s.last());
                assert(s[s.len() - 1] == s.last());
            }
        }
    }
}

/// Inserting into a sorted sequence keeps it sorted.
proof fn lemma_insere_garde_tri(s: Seq<Pokemon>, p: Pokemon, c: Critere)
    requires
        trie_par(s, c),
    ensures
        trie_par(insere_trie(s, p, c), c),
    decreases s.len(),
{
    if s.len() == 0 {
    } else if cle(s.last(), c) <= cle(p, c) {
        assert forall|i: int, j: int|
            0 <= i <= j < s.push(p).len() implies cle(s.push(p)[i], c) <= cle(s.push(p)[j], c) by {
            if j < s.len() {
            } else {
                if i < s.len() {
                    assert(cle(s[i], c) <= cle(s.last(), c));
                }
            }
        }
    } else {
        assert(trie_par(s.drop_last(), c));
        lemma_insere_garde_tri(s.drop_last(), p, c);
        lemma_insere_elements(s.drop_last(), p, c);
        let t = insere_trie(s.drop_last(), p, c);
        assert forall|i: int, j: int|
            0 <= i <= j < t.push(s.last()).len() implies cle(t.push(s.last())[i], c) <= cle(
            t.push(s.last())[j],
            c,
        ) by {
            if j < t.len() {
            } else if i < t.len() {
                if t[i] == p {
                } else {
                    let m = choose|m: int|
                        0 <= m < s.drop_last().len() && s.drop_last()[m] == t[i];
                    assert(cle(s[m], c) <= cle(s[s.len() - 1], c));
                }
            }
        }
    }
}

/// The insertion adds exactly the inserted element to the sequence's contents.
proof fn lemma_insere_multiset(s: Seq<Pokemon>, p: Pokemon, c: Critere)
    ensures
        insere_trie(s, p, c).to_multiset() == s.to_multiset().insert(p),
    decreases s.len(),
{
    broadcast use vstd::seq_lib::group_to_multiset_ensures;
    broadcast use vstd::multiset::group_multiset_axioms;

    if s.len() == 0 {
        assert(seq![p] =~= s.push(p));
        assert(s.push(p).to_multiset() =~= s.to_multiset().insert(p));
        assert(insere_trie(s, p, c).to_multiset() =~= s.to_multiset().insert(p));
    } else if cle(s.last(), c) <= cle(p, c) {
        assert(s.push(p).to_multiset() =~= s.to_multiset().insert(p));
    } else {
        lemma_insere_multiset(s.drop_last(), p, c);
        let t = insere_trie(s.drop_last(), p, c);
        assert(t.push(s.last()).to_multiset() =~= t.to_multiset().insert(s.last()));
        assert(s.drop_last().push(s.last()).to_multiset() =~= s.drop_last().to_multiset().insert(
            s.last(),
        ));
        assert(s =~= s.drop_last().push(s.last()));
        assert(s.drop_last().to_multiset().insert(p).insert(s.last()) =~= s.drop_last()
            .to_multiset()
            .insert(s.last())
            .insert(p));
        assert(insere_trie(s, p, c).to_multiset() =~= s.to_multiset().insert(p));
    }
}

/// The sorted result is in non-decreasing key order.
pub proof fn lemma_tri_stable_trie(s: Seq<Pokemon>, c: Critere)
    ensures
        trie_par(tri_stable(s, c), c),
    decreases s.len(),
{
    if s.len() == 0 {
    } else {
        lemma_tri_stable_trie(s.drop_last(), c);
        lemma_insere_garde_tri(tri_stable(s.drop_last(), c), s.last(), c);
    }
}

/// Sorting permutes the sequence: the same creatures, with multiplicity.
pub proof fn lemma_tri_stable_permutation(s: Seq<Pokemon>, c: Critere)
    ensures
        tri_stable(s, c).to_multiset() == s.to_multiset(),
    decreases s.len(),
{
    broadcast use vstd::seq_lib::group_to_multiset_ensures;
    broadcast use vstd::multiset::group_multiset_axioms;

    if s.len() == 0 {
    } else {
        lemma_tri_stable_permutation(s.drop_last(), c);
        lemma_insere_multiset(tri_stable(s.drop_last(), c), s.last(), c);
        assert(s.drop_last().push(s.last()).to_multiset() =~= s.drop_last().to_multiset().insert(
            s.last(),
        ));
        assert(s =~= s.drop_last().push(s.last()));
        assert(s.to_multiset() =~= s.drop_last().to_multiset().insert(s.last()));
    }
}

/// Sorting an already-sorted sequence yields the same order: together with
/// `lemma_tri_stable_trie` this makes the sort idempotent, and it is what
/// stability means on a sorted input.
pub proof fn lemma_tri_stable_deja_trie(s: Seq<Pokemon>, c: Critere)
    requires
        trie_par(s, c),
    ensures
        tri_stable(s, c) == s,
    decreases s.len(),
{
    if s.len() == 0 {
        assert(tri_stable(s, c) =~= s);
    } else {
        assert(trie_par(s.drop_last(), c));
        lemma_tri_stable_deja_trie(s.drop_last(), c);
        if s.len() == 1 {
            assert(tri_stable(s, c) =~= s);
        } else {
            assert(cle(s[s.len() - 2], c) <= cle(s[s.len() - 1], c));
            assert(s.drop_last().last() == s[s.len() - 2]);
            assert(tri_stable(s, c) == s.drop_last().push(s.last()));
            assert(s.drop_last().push(s.last()) =~= s);
        }
    }
}

/// Sorting twice is sorting once.
pub proof fn lemma_tri_stable_idempotent(s: Seq<Pokemon>, c: Critere)
    ensures
        tri_stable(tri_stable(s, c), c) == tri_stable(s, c),
{
    lemma_tri_stable_trie(s, c);
    lemma_tri_stable_deja_trie(tri_stable(s, c), c);
}

/// The creatures whose key under `c` is exactly `k`.
pub open spec fn meme_cle(c: Critere, k: int) -> spec_fn(Pokemon) -> bool {
    |p: Pokemon| cle(p, c) == k
}

/// Inserting leaves every other key's subsequence unchanged and appends the
/// inserted creature at the end of its own key's subsequence.
proof fn lemma_insere_filtre(s: Seq<Pokemon>, p: Pokemon, c: Critere, k: int)
    ensures
        cle(p, c) == k ==> insere_trie(s, p, c).filter(meme_cle(c, k)) == s.filter(
            meme_cle(c, k),
        ).push(p),
        cle(p, c) != k ==> insere_trie(s, p, c).filter(meme_cle(c, k)) == s.filter(meme_cle(c, k)),
    decreases s.len(),
{
    reveal(Seq::filter);
    if s.len() == 0 {
        assert(seq![p].drop_last() =~= s);
        assert(seq![p].last() == p);
    } else if cle(s.last(), c) <= cle(p, c) {
        assert(s.push(p).drop_last() =~= s);
        assert(s.push(p).last() == p);
    } else {
        lemma_insere_filtre(s.drop_last(), p, c, k);
        let t = insere_trie(s.drop_last(), p, c);
        assert(t.push(s.last()).drop_last() =~= t);
        assert(t.push(s.last()).last() == s.last());
        if cle(p, c) == k {
            assert(cle(s.last(), c) != k);
        }
    }
}

/// Stability: sorting preserves, for every key, the subsequence of the
/// creatures that carry that key, in their prior relative order.
pub proof fn lemma_tri_stable_stabilite(s: Seq<Pokemon>, c: Critere, k: int)
    ensures
        tri_stable(s, c).filter(meme_cle(c, k)) == s.filter(meme_cle(c, k)),
    decreases s.len(),
{
    reveal(Seq::filter);
    if s.len() == 0 {
    } else {
        lemma_tri_stable_stabilite(s.drop_last(), c, k);
        lemma_insere_filtre(tri_stable(s.drop_last(), c), s.last(), c, k);
    }
}

/// Where the scan of `inserer` stopped is exactly where `insere_trie` puts
/// the element.
proof fn lemma_insere_position(s: Seq<Pokemon>, p: Pokemon, c: Critere, j: int)
    requires
        0 <= j <= s.len(),
        forall|k: int| j <= k < s.len() ==> cle(s[k], c) > cle(p, c),
        j > 0 ==> cle(s[j - 1], c) <= cle(p, c),
    ensures
        insere_trie(s, p, c) == s.insert(j, p),
    decreases s.len(),
{
    if s.len() == 0 {
        assert(s.insert(0, p) =~= seq![p]);
    } else if cle(s.last(), c) <= cle(p, c) {
        assert(j == s.len());
        assert(s.insert(j, p) =~= s.push(p));
    } else {
        assert(j < s.len());
        lemma_insere_position(s.drop_last(), p, c, j);
        assert(s.drop_last().insert(j, p).push(s.last()) =~= s.insert(j, p));
    }
}

/// The sort key of a creature under a criterion.
pub fn cle_valeur(p: &Pokemon, c: Critere) -> (v: u32)
    ensures
        v as int == cle(*p, c),
{
    match c {
        Critere::Niveau => p.niveau,
        Critere::Type => p.p_type.rang(),
    }
}

/// Inserts `p` into `v` after every element whose key is at most `p`'s key.
pub fn inserer(v: &mut Vec<Pokemon>, p: Pokemon, c: Critere)
    ensures
        final(v)@ == insere_trie(old(v)@, p, c),
{
    let cle_p = cle_valeur(&p, c);
    let mut j: usize = v.len();
    while j > 0 && cle_valeur(&v[j - 1], c) > cle_p
        invariant
            j <= v.len(),
            v@ == old(v)@,
            cle_p as int == cle(p, c),
            forall|k: int| j <= k < v@.len() ==> cle(v@[k], c) > cle(p, c),
        decreases j,
    {
        j = j - 1;
    }
    proof {
        lemma_insere_position(v@, p, c, j as int);
    }
    v.insert(j, p);
}

/// Sorts stably by the given criterion.
pub fn trier(v: &mut Vec<Pokemon>, c: Critere)
    ensures
        final(v)@ == tri_stable(old(v)@, c),
{
    let ghost avant: Seq<Pokemon> = v@;
    let mut tries: Vec<Pokemon> = Vec::new();
    while v.len() > 0
        invariant
            avant == old(v)@,
            v@.len() <= avant.len(),
            v@ == avant.skip(avant.len() - v@.len()),
            tries@ == tri_stable(avant.take(avant.len() - v@.len()), c),
        decreases v.len(),
    {
        let ghost k: int = avant.len() - v@.len();
        let p = v.remove(0);
        proof {
            assert(p == avant[k]);
            assert(v@ =~= avant.skip(k + 1));
        }
        inserer(&mut tries, p, c);
        proof {
            assert(avant.take(k + 1).drop_last() =~= avant.take(k));
            assert(avant.take(k + 1).last() == avant[k]);
        }
    }
    proof {
        assert(avant.take(avant.len() as int) =~= avant);
    }
    *v = tries;
}

} // verus!
