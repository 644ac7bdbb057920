use vstd::prelude::*;
use crate::registry::TextureRegistry;

verus! {

/// The registry after a font atlas rebuild: the new texture under `id`, and
/// the previous atlas texture `old_id` released unless it is 0 ("none").
pub open spec fn spec_after_rebuild<T>(before: Map<usize, T>, id: usize, texture: T, old_id: usize) -> Map<
    usize,
    T,
> {
    let added = before.insert(id, texture);
    if old_id != 0 {
        added.remove(old_id)
    } else {
        added
    }
}

/// Registers a freshly built font atlas texture and releases the previous
/// one: returns the new texture id, which Dear ImGui is then told to use for
/// the atlas. `old_id` is the id of the texture being replaced, 0 for the
/// first build.
pub fn replace_atlas_texture<T>(textures: &mut TextureRegistry<T>, texture: T, old_id: usize) -> (id: usize)
    requires
        old(textures).next_id() < usize::MAX,
    ensures
        final(textures).wf(),
        id as nat == old(textures).next_id(),
        final(textures).next_id() == old(textures).next_id() + 1,
        final(textures).textures() == spec_after_rebuild(old(textures).textures(), id, texture, old_id),
{
    let id = textures.register(texture);
    if old_id != 0 {
        textures.remove(old_id);
    }
    id
}

/// A rebuild that replaces a texture issued earlier keeps the new texture
/// reachable under the new id, releases the old one, and leaves every other
/// texture as it was.
pub proof fn law_rebuild_replaces<T>(reg: TextureRegistry<T>, id: usize, texture: T, old_id: usize, other: usize)
    requires
        reg.wf(),
        id as nat == reg.next_id(),
        old_id < reg.next_id(),
        other != id,
        other != old_id,
    ensures
        spec_after_rebuild(reg.textures(), id, texture, old_id).contains_key(id),
        spec_after_rebuild(reg.textures(), id, texture, old_id)[id] == texture,
        old_id != 0 ==> !spec_after_rebuild(reg.textures(), id, texture, old_id).contains_key(old_id),
        spec_after_rebuild(reg.textures(), id, texture, old_id).contains_key(other) == reg.textures().contains_key(other),
        reg.textures().contains_key(other) ==> spec_after_rebuild(reg.textures(), id, texture, old_id)[other]
            == reg.textures()[other],
{
}

/// Two successive rebuilds, the second passing the id the first returned: the
/// second id is the first plus one, the first atlas texture is released, the
/// second is live, and every other texture is as it was before both.
pub proof fn law_two_rebuilds<T>(
    before: Map<usize, T>,
    id1: usize,
    tex1: T,
    old_id: usize,
    id2: usize,
    tex2: T,
    other: usize,
)
    requires
        1 <= id1,
        id2 == id1 + 1,
        forall|k: usize| #[trigger] before.contains_key(k) ==> k < id1,
        old_id == 0 || old_id < id1,
        other != id1,
        other != id2,
        other != old_id,
    ensures
        ({
            let after = spec_after_rebuild(spec_after_rebuild(before, id1, tex1, old_id), id2, tex2, id1);
            &&& !after.contains_key(id1)
            &&& after.contains_key(id2) && after[id2] == tex2
            &&& (old_id != 0 ==> !after.contains_key(old_id))
            &&& after.contains_key(other) == before.contains_key(other)
            &&& (before.contains_key(other) ==> after[other] == before[other])
        }),
{
}

/// The registry after rebuilding the atlas once for each texture of `texs`, in
/// order: the first rebuild gets id `start` and releases `old_id`, each later
/// one gets the next id and releases the id of the rebuild before it.
pub open spec fn rebuild_chain<T>(before: Map<usize, T>, start: nat, texs: Seq<T>, old_id: usize) -> Map<
    usize,
    T,
>
    decreases texs.len(),
{
    if texs.len() == 0 {
        before
    } else {
        rebuild_chain(
            spec_after_rebuild(before, start as usize, texs[0], old_id),
            start + 1,
            texs.drop_first(),
            start as usize,
        )
    }
}

/// Along any chain of rebuilds, each passing the id of the previous one, no
/// atlas texture leaks: afterwards exactly the last atlas texture is live under
/// the last id, the texture the chain started from (`old_id`, unless 0) is
/// released, and every other entry is untouched. The ids must not run out:
/// the original's counter overflows past `usize::MAX`.
pub proof fn law_rebuild_chain<T>(before: Map<usize, T>, start: nat, texs: Seq<T>, old_id: usize)
    requires
        1 <= start,
        texs.len() >= 1,
        start + texs.len() <= usize::MAX,
        forall|k: usize| #[trigger] before.contains_key(k) ==> k < start,
        old_id == 0 || old_id < start,
    ensures
        rebuild_chain(before, start, texs, old_id) == (if old_id != 0 {
            before.remove(old_id)
        } else {
            before
        }).insert((start + texs.len() - 1) as usize, texs.last()),
    decreases texs.len(),
{
    let first = (start as usize);
    let kept = if old_id != 0 { before.remove(old_id) } else { before };
    let m1 = spec_after_rebuild(before, first, texs[0], old_id);
    assert(m1 =~= kept.insert(first, texs[0]));
    assert(rebuild_chain(before, start, texs, old_id) == rebuild_chain(m1, start + 1, texs.drop_first(), first));
    if texs.len() == 1 {
        assert(texs.drop_first().len() == 0);
        assert(rebuild_chain(m1, start + 1, texs.drop_first(), first) == m1);
        assert(texs.last() == texs[0]);
        assert((start + texs.len() - 1) as usize == first);
    } else {
        assert forall|k: usize| #[trigger] m1.contains_key(k) implies k < start + 1 by {
            if k != first {
                assert(before.contains_key(k));
            }
        }
        law_rebuild_chain(m1, start + 1, texs.drop_first(), first);
        assert(!kept.contains_key(first));
        assert(m1.remove(first) =~= kept);
        assert(texs.drop_first().last() == texs.last());
    }
}

} // verus!
