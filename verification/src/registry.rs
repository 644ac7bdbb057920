use std::collections::HashMap;
use vstd::prelude::*;

verus! {

broadcast use vstd::std_specs::hash::group_hash_axioms;

/// Hands out integer texture ids (the ids Dear ImGui stores in its draw
/// commands) and maps each live id back to the texture it was issued for.
///
/// Ids start at 1 and are never reused, so 0 can stand for "no texture".
pub struct TextureRegistry<T> {
    map: HashMap<usize, T>,
    next: usize,
}

impl<T> TextureRegistry<T> {
    /// The live textures, by id.
    pub closed spec fn textures(&self) -> Map<usize, T> {
        self.map@
    }

    /// The id that the next registration will hand out.
    pub closed spec fn next_id(&self) -> nat {
        self.next as nat
    }

    /// Well-formedness: ids start at 1 and every live id was issued before
    /// `next_id`.
    pub open spec fn wf(&self) -> bool {
        &&& 1 <= self.next_id()
        &&& forall|id: usize| #[trigger] self.textures().contains_key(id) ==> 1 <= id < self.next_id()
    }

    /// Every registry is well-formed: only `new`, `register` and `remove` make
    /// or change one, and each keeps `wf`.
    #[verifier::type_invariant]
    spec fn inv(&self) -> bool {
        self.wf()
    }

    /// What `lookup` answers for `id`.
    pub open spec fn spec_lookup(&self, id: usize) -> Option<T> {
        lookup_in(self.textures(), id)
    }

    /// An empty registry whose first id is 1.
    pub fn new() -> (r: Self)
        ensures
            r.wf(),
            r.textures() == Map::<usize, T>::empty(),
            r.next_id() == 1,
    {
        TextureRegistry { map: HashMap::new(), next: 1 }
    }

    /// Registers `tex` under a fresh id and returns that id.
    pub fn register(&mut self, tex: T) -> (id: usize)
        requires
            old(self).next_id() < usize::MAX,
        ensures
            final(self).wf(),
            id as nat == old(self).next_id(),
            !old(self).textures().contains_key(id),
            final(self).textures() == old(self).textures().insert(id, tex),
            final(self).next_id() == old(self).next_id() + 1,
    {
        proof {
            use_type_invariant(&*self);
        }
        let id = self.next;
        let mut map: HashMap<usize, T> = HashMap::new();
        std::mem::swap(&mut map, &mut self.map);
        map.insert(id, tex);
        assert forall|k: usize| #[trigger] map@.contains_key(k) implies 1 <= k < id + 1 by {
            if k != id {
                assert(old(self).textures().contains_key(k));
            }
        }
        self.next = self.next + 1;
        self.map = map;
        id
    }

    /// The texture registered under `id`, if it is still live.
    pub fn lookup(&self, id: usize) -> (r: Option<&T>)
        ensures
            self.wf(),
            r == (match self.spec_lookup(id) {
                Some(t) => Some(&t),
                None => None,
            }),
            self.textures().contains_key(id) ==> r == Some(&self.textures()[id]),
            !self.textures().contains_key(id) ==> r is None,
    {
        proof {
            use_type_invariant(self);
        }
        self.map.get(&id)
    }

    /// The id that the next registration will hand out.
    pub fn upcoming_id(&self) -> (r: usize)
        ensures
            self.wf(),
            r as nat == self.next_id(),
    {
        proof {
            use_type_invariant(self);
        }
        self.next
    }

    /// Releases the texture registered under `id`, if any.
    pub fn remove(&mut self, id: usize)
        ensures
            final(self).wf(),
            final(self).textures() == old(self).textures().remove(id),
            final(self).next_id() == old(self).next_id(),
    {
        proof {
            use_type_invariant(&*self);
        }
        let mut map: HashMap<usize, T> = HashMap::new();
        std::mem::swap(&mut map, &mut self.map);
        map.remove(&id);
        assert forall|k: usize| #[trigger] map@.contains_key(k) implies 1 <= k < self.next by {
            assert(old(self).textures().contains_key(k));
        }
        self.map = map;
    }
}

/// What a lookup answers in a map of live textures.
pub open spec fn lookup_in<T>(textures: Map<usize, T>, id: usize) -> Option<T> {
    if textures.contains_key(id) {
        Some(textures[id])
    } else {
        None
    }
}

/// A lookup finds exactly the live textures: the texture registered under
/// `id` when `id` is live, nothing otherwise, whatever the id's size.
pub proof fn law_lookup_finds_live<T>(reg: TextureRegistry<T>, id: usize)
    ensures
        reg.textures().contains_key(id) ==> reg.spec_lookup(id) == Some(reg.textures()[id]),
        !reg.textures().contains_key(id) ==> reg.spec_lookup(id) == None::<T>,
{
}

/// Right after `register(tex)` returned `id`, a lookup of `id` finds `tex`,
/// and every other id answers as it did before.
pub proof fn law_register_then_lookup<T>(before: TextureRegistry<T>, after: TextureRegistry<T>, id: usize, tex: T, other: usize)
    requires
        after.textures() == before.textures().insert(id, tex),
        other != id,
    ensures
        after.spec_lookup(id) == Some(tex),
        after.spec_lookup(other) == before.spec_lookup(other),
{
}

/// Id 0 is never live: it can mean "no texture".
pub proof fn law_zero_never_issued<T>(reg: TextureRegistry<T>)
    requires
        reg.wf(),
    ensures
        !reg.textures().contains_key(0),
        reg.next_id() >= 1,
{
}

/// A lookup right after registering `tex` under `id` finds `tex`, and every
/// other id answers as before.
pub proof fn law_lookup_after_register<T>(textures: Map<usize, T>, id: usize, tex: T, other: usize)
    requires
        other != id,
    ensures
        lookup_in(textures.insert(id, tex), id) == Some(tex),
        lookup_in(textures.insert(id, tex), other) == lookup_in(textures, other),
{
}

/// A lookup right after removing `id` finds nothing there, and every other id
/// answers as before.
pub proof fn law_lookup_after_remove<T>(textures: Map<usize, T>, id: usize, other: usize)
    requires
        other != id,
    ensures
        lookup_in(textures.remove(id), id) == None::<T>,
        lookup_in(textures.remove(id), other) == lookup_in(textures, other),
{
}

/// Ids are never reused: a live id lies below `next_id`, while every id
/// handed out from now on is at least `next_id` (`register` raises it and
/// `remove` keeps it).
pub proof fn law_ids_not_reissued<T>(reg: TextureRegistry<T>, id: usize, later: nat)
    requires
        reg.wf(),
        reg.textures().contains_key(id),
        later >= reg.next_id(),
    ensures
        later != id,
{
}

} // verus!
