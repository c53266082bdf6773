use vstd::prelude::*;

verus! {

/// Identifier of one actor incarnation.
///
/// It decomposes into the owning system's id, the slot index inside that
/// system's actor table, and the slot's generation at the time the actor was
/// started. Equal identifiers denote the same incarnation; when a slot is
/// recycled its generation is bumped, so identifiers of dead incarnations
/// never collide with identifiers of live ones.
#[derive(Clone, Copy, PartialEq, Eq, Structural, Hash, Debug)]
pub struct ActorID {
    pub system_id: usize,
    pub slot: usize,
    pub generation: u64,
}

/// True when the sequence holds no identifier twice. Link sets and similar
/// collections are vectors kept under this invariant, which gives them set
/// semantics.
pub open spec fn no_dup_ids(s: Seq<ActorID>) -> bool {
    forall|i: int, j: int| #![trigger s[i], s[j]] 0 <= i < j < s.len() ==> s[i] != s[j]
}

/// Membership test on a vector of actor identifiers.
pub fn ids_contain(v: &Vec<ActorID>, id: ActorID) -> (r: bool)
    ensures
        r == v@.contains(id),
{
    let mut i: usize = 0;
    while i < v.len()
        invariant
            i <= v@.len(),
            forall|k: int| 0 <= k < i ==> v@[k] != id,
        decreases v@.len() - i,
    {
        if v[i] == id {
            assert(v@.contains(id));
            return true;
        }
        i += 1;
    }
    assert(!v@.contains(id));
    false
}

/// The result of inserting `id` into a duplicate-free link set: the set is
/// unchanged when `id` is already present, else `id` is appended.
pub open spec fn insert_id(s: Seq<ActorID>, id: ActorID) -> Seq<ActorID> {
    if s.contains(id) {
        s
    } else {
        s.push(id)
    }
}

/// The result of removing `id` from a duplicate-free link set: the set is
/// unchanged when `id` is absent, else the one occurrence is removed.
pub open spec fn remove_id(s: Seq<ActorID>, id: ActorID) -> Seq<ActorID> {
    if s.contains(id) {
        s.remove(s.index_of(id))
    } else {
        s
    }
}

/// Inserts `id` into a duplicate-free vector of identifiers, keeping it
/// duplicate-free; inserting an identifier that is already present leaves
/// the vector unchanged.
pub fn insert_id_vec(v: &mut Vec<ActorID>, id: ActorID)
    requires
        no_dup_ids(old(v)@),
    ensures
        final(v)@ == insert_id(old(v)@, id),
        no_dup_ids(final(v)@),
        final(v)@.contains(id),
{
    if !ids_contain(v, id) {
        v.push(id);
        proof {
            assert(v@[v@.len() - 1] == id);
            assert(v@.contains(id));
            assert(forall|k: int| 0 <= k < v@.len() - 1 ==> v@[k] == old(v)@[k]);
        }
    }
}

/// Removes `id` from a duplicate-free vector of identifiers; removing an
/// absent identifier leaves the vector unchanged.
pub fn remove_id_vec(v: &mut Vec<ActorID>, id: ActorID)
    requires
        no_dup_ids(old(v)@),
    ensures
        final(v)@ == remove_id(old(v)@, id),
        no_dup_ids(final(v)@),
        !final(v)@.contains(id),
{
    let mut i: usize = 0;
    while i < v.len()
        invariant
            i <= v@.len(),
            v@ == old(v)@,
            no_dup_ids(old(v)@),
            forall|k: int| 0 <= k < i ==> v@[k] != id,
        decreases v@.len() - i,
    {
        if v[i] == id {
            proof {
                let s0 = old(v)@;
                assert(s0[i as int] == id);
                assert(s0.contains(id));
                let j = s0.index_of(id);
                assert(0 <= j < s0.len() && s0[j] == id);
                if j < i as int {
                    assert(s0[j] != s0[i as int]);
                } else if j > i as int {
                    assert(s0[i as int] != s0[j]);
                }
                assert(j == i as int);
                s0.remove_ensures(i as int);
            }
            v.remove(i);
            proof {
                let s0 = old(v)@;
                assert(v@ == s0.remove(i as int));
                assert forall|k: int| 0 <= k < v@.len() implies v@[k] != id by {
                    if k < i as int {
                        assert(s0.remove(i as int)[k] == s0[k]);
                    } else {
                        assert(s0.remove(i as int)[k] == s0[k + 1]);
                        if s0[k + 1] == id {
                            assert(s0[i as int] != s0[k + 1]);
                        }
                    }
                }
                assert forall|p: int, q: int|
                    0 <= p < q < v@.len() implies v@[p] != v@[q] by {
                    let pp = if p < i as int { p } else { p + 1 };
                    let qq = if q < i as int { q } else { q + 1 };
                    assert(v@[p] == s0[pp]);
                    assert(v@[q] == s0[qq]);
                    assert(s0[pp] != s0[qq]);
                }
            }
            return;
        }
        i += 1;
    }
    proof {
        assert(!v@.contains(id));
    }
}

} // verus!

verus! {

/// Linking twice yields a single link entry: inserting an identifier
/// into a duplicate-free link set twice is the same as inserting it
/// once, the result stays duplicate-free, and it holds the identifier
/// exactly once.
pub proof fn lemma_link_twice_single_entry(links: Seq<ActorID>, x: ActorID)
    requires
        no_dup_ids(links),
    ensures
        insert_id(insert_id(links, x), x) == insert_id(links, x),
        no_dup_ids(insert_id(links, x)),
        insert_id(links, x).contains(x),
{
    if !links.contains(x) {
        let l2 = links.push(x);
        assert(l2[l2.len() - 1] == x);
        assert(l2.contains(x));
        assert forall|i: int, j: int| 0 <= i < j < l2.len() implies l2[i] != l2[j] by {
            if j == l2.len() - 1 {
                assert(l2[i] == links[i]);
                assert(links[i] != x);
            }
        }
    }
}

/// Unlinking a non-link is a no-op: removing an identifier that is not
/// in the link set leaves the set unchanged.
pub proof fn lemma_unlink_absent_noop(links: Seq<ActorID>, x: ActorID)
    requires
        !links.contains(x),
    ensures
        remove_id(links, x) == links,
{
}

} // verus!
