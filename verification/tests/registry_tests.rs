use imgui_godot::atlas::replace_atlas_texture;
use imgui_godot::registry::TextureRegistry;

#[test]
fn new_registry_is_empty() {
    let reg: TextureRegistry<&str> = TextureRegistry::new();
    assert_eq!(reg.lookup(0), None);
    assert_eq!(reg.lookup(1), None);
}

#[test]
fn register_hands_out_ids_from_one() {
    let mut reg = TextureRegistry::new();
    assert_eq!(reg.register("font"), 1);
    assert_eq!(reg.register("icon"), 2);
    assert_eq!(reg.lookup(1), Some(&"font"));
    assert_eq!(reg.lookup(2), Some(&"icon"));
    assert_eq!(reg.lookup(3), None);
}

#[test]
fn remove_releases_only_that_id() {
    let mut reg = TextureRegistry::new();
    let a = reg.register(10u32);
    let b = reg.register(20u32);
    reg.remove(a);
    assert_eq!(reg.lookup(a), None);
    assert_eq!(reg.lookup(b), Some(&20));
    reg.remove(a);
    assert_eq!(reg.lookup(b), Some(&20));
}

#[test]
fn removed_ids_are_not_reused() {
    let mut reg = TextureRegistry::new();
    let a = reg.register('a');
    reg.remove(a);
    let b = reg.register('b');
    assert_ne!(a, b);
    assert_eq!(b, 2);
    assert_eq!(reg.lookup(a), None);
    assert_eq!(reg.lookup(b), Some(&'b'));
}

#[test]
fn zero_is_never_an_id() {
    let mut reg = TextureRegistry::new();
    for n in 0..5u8 {
        assert_ne!(reg.register(n), 0);
    }
    assert_eq!(reg.lookup(0), None);
}

#[test]
fn first_atlas_build_releases_nothing() {
    let mut reg = TextureRegistry::new();
    let other = reg.register("other");
    let id = replace_atlas_texture(&mut reg, "atlas", 0);
    assert_eq!(id, 2);
    assert_eq!(reg.lookup(id), Some(&"atlas"));
    assert_eq!(reg.lookup(other), Some(&"other"));
}

#[test]
fn atlas_rebuild_releases_previous_texture() {
    let mut reg = TextureRegistry::new();
    let first = replace_atlas_texture(&mut reg, "atlas@1x", 0);
    let keep = reg.register("image");
    let second = replace_atlas_texture(&mut reg, "atlas@2x", first);
    assert_eq!(second, 3);
    assert_eq!(reg.lookup(first), None);
    assert_eq!(reg.lookup(second), Some(&"atlas@2x"));
    assert_eq!(reg.lookup(keep), Some(&"image"));
}

#[test]
fn chain_of_rebuilds_keeps_one_atlas() {
    let mut reg = TextureRegistry::new();
    let keep = reg.register("image");
    let mut id = 0;
    let mut ids = vec![];
    for tex in ["a", "b", "c", "d"] {
        id = replace_atlas_texture(&mut reg, tex, id);
        ids.push(id);
    }
    assert_eq!(ids, vec![2, 3, 4, 5]);
    for old in &ids[..3] {
        assert_eq!(reg.lookup(*old), None);
    }
    assert_eq!(reg.lookup(5), Some(&"d"));
    assert_eq!(reg.lookup(keep), Some(&"image"));
    assert_eq!(reg.upcoming_id(), 6);
}
