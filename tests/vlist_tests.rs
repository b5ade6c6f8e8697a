use vlist::keyed::FullyKeyedState;
use vlist::node::{Key, VComp, VNode, VTag, VText};
use vlist::vlist::VList;

fn keyed_tag(name: &str, key: &str) -> VNode {
    let mut tag = VTag::new(name);
    tag.key = Some(Key::new(key.to_string()));
    VNode::VTag(tag)
}

fn text(s: &str) -> VNode {
    VNode::VText(VText::new(s))
}

#[test]
fn mutably_change_children() {
    let mut vlist = VList::new();
    assert_eq!(
        vlist.fully_keyed_state(),
        FullyKeyedState::KnownFullyKeyed,
        "should start fully keyed"
    );
    // add a child that is keyed
    vlist.add_child(VNode::VTag({
        let mut tag = VTag::new("a");
        tag.key = Some(Key::new(42u32.to_string()));
        tag
    }));
    assert_eq!(
        vlist.fully_keyed_state(),
        FullyKeyedState::KnownFullyKeyed,
        "should still be fully keyed"
    );
    assert_eq!(vlist.len(), 1, "should contain 1 child");
    // now add a child that is not keyed
    vlist.add_child(VNode::VText(VText::new("lorem ipsum")));
    assert_eq!(
        vlist.fully_keyed_state(),
        FullyKeyedState::KnownMissingKeys,
        "should not be fully keyed, text tags have no key"
    );
    let _: &mut [VNode] = &mut vlist; // Use deref mut
    assert_eq!(
        vlist.fully_keyed_state(),
        FullyKeyedState::Unknown,
        "key state should be unknown, since it was potentially modified through children"
    );
}

#[test]
fn keyed_appends_stay_fully_keyed() {
    let mut vlist = VList::new();
    for i in 0..5 {
        vlist.add_child(keyed_tag("li", &i.to_string()));
        assert_eq!(vlist.fully_keyed_state(), FullyKeyedState::KnownFullyKeyed);
        assert!(vlist.fully_keyed());
    }
    assert_eq!(vlist.len(), 5);
}

#[test]
fn keyless_append_is_sticky() {
    let mut vlist = VList::new();
    vlist.add_child(keyed_tag("li", "a"));
    vlist.add_child(keyed_tag("li", "b"));
    assert!(vlist.fully_keyed());
    vlist.add_child(text("x"));
    assert!(!vlist.fully_keyed());
    assert_eq!(vlist.fully_keyed_state(), FullyKeyedState::KnownMissingKeys);
    vlist.add_child(keyed_tag("li", "c"));
    assert_eq!(vlist.fully_keyed_state(), FullyKeyedState::KnownMissingKeys);
    assert!(!vlist.fully_keyed());
}

#[test]
fn generic_write_forces_unknown_even_when_all_keyed() {
    let mut vlist = VList::new();
    vlist.add_child(keyed_tag("li", "a"));
    vlist.add_child(keyed_tag("li", "b"));
    {
        let children = vlist.children_mut_unkeyed();
        children.swap(0, 1);
    }
    assert_eq!(vlist.fully_keyed_state(), FullyKeyedState::Unknown);
    // the query scans: every child still has a key
    assert!(vlist.fully_keyed());
    vlist.children_mut_unkeyed().push(text("t"));
    assert_eq!(vlist.fully_keyed_state(), FullyKeyedState::Unknown);
    assert!(!vlist.fully_keyed());
}

#[test]
fn recheck_after_unknown_matches_scan() {
    let mut vlist = VList::new();
    vlist.add_child(keyed_tag("li", "a"));
    vlist.add_child(text("t"));
    vlist.children_mut_unkeyed().pop();
    assert_eq!(vlist.fully_keyed_state(), FullyKeyedState::Unknown);
    vlist.recheck_fully_keyed();
    assert_eq!(vlist.fully_keyed_state(), FullyKeyedState::KnownFullyKeyed);
    vlist.children_mut_unkeyed().push(text("u"));
    vlist.recheck_fully_keyed();
    assert_eq!(vlist.fully_keyed_state(), FullyKeyedState::KnownMissingKeys);
}

#[test]
fn with_children_scans_once() {
    let keyed = VList::with_children(vec![keyed_tag("a", "1"), keyed_tag("b", "2")], None);
    assert_eq!(keyed.fully_keyed_state(), FullyKeyedState::KnownFullyKeyed);
    let mixed = VList::with_children(vec![keyed_tag("a", "1"), text("x")], None);
    assert_eq!(mixed.fully_keyed_state(), FullyKeyedState::KnownMissingKeys);
    let empty = VList::with_children(vec![], Some(Key::new("k".to_string())));
    assert_eq!(empty.fully_keyed_state(), FullyKeyedState::KnownFullyKeyed);
    assert!(empty.is_empty());
    assert!(empty.key.is_some());
}

#[test]
fn macro_new_keeps_given_state() {
    let l = VList::__macro_new(vec![text("x")], None, FullyKeyedState::Unknown);
    assert_eq!(l.fully_keyed_state(), FullyKeyedState::Unknown);
    assert!(!l.fully_keyed());
    let k = VList::__macro_new(vec![keyed_tag("a", "1")], None, FullyKeyedState::KnownFullyKeyed);
    assert_eq!(k.fully_keyed_state(), FullyKeyedState::KnownFullyKeyed);
}

#[test]
fn add_children_appends_in_order() {
    let mut vlist = VList::new();
    vlist.add_child(keyed_tag("a", "0"));
    vlist.add_children(vec![keyed_tag("b", "1"), text("x"), keyed_tag("c", "2")]);
    assert_eq!(vlist.len(), 4);
    assert_eq!(vlist.fully_keyed_state(), FullyKeyedState::KnownMissingKeys);
    match vlist.get(2) {
        Some(VNode::VText(t)) => assert_eq!(t.text, "x"),
        _ => panic!("expected the text child at index 2"),
    }
    assert!(vlist.get(4).is_none());
    let mut all_keyed = VList::new();
    all_keyed.add_children(vec![keyed_tag("b", "1"), keyed_tag("c", "2")]);
    assert_eq!(all_keyed.fully_keyed_state(), FullyKeyedState::KnownFullyKeyed);
    assert_eq!(all_keyed.len(), 2);
}

#[test]
fn equality_ignores_cached_state() {
    let a = VList::with_children(vec![keyed_tag("a", "1")], Some(Key::new("k".to_string())));
    let b = VList::__macro_new(vec![keyed_tag("a", "1")], Some(Key::new("k".to_string())), FullyKeyedState::Unknown);
    assert!(a == b);
    let c = VList::with_children(vec![keyed_tag("a", "1")], Some(Key::new("other".to_string())));
    assert!(a != c);
    let d = VList::with_children(vec![keyed_tag("a", "2")], Some(Key::new("k".to_string())));
    assert!(a != d);
    let e = VList::with_children(vec![keyed_tag("a", "1"), text("x")], Some(Key::new("k".to_string())));
    assert!(a != e);
    assert!(VList::new() == VList::default());
    assert!(VList::new() == VList::with_children(vec![], None));
}

#[test]
fn clone_shares_then_copies_on_write() {
    let mut a = VList::new();
    a.add_child(text("x"));
    let b = a.clone();
    assert!(a == b);
    a.children_mut_unkeyed().push(text("y"));
    assert_eq!(a.len(), 2);
    assert_eq!(b.len(), 1);
    assert!(a != b);
    let mut c = b.clone();
    c.add_child(text("z"));
    assert_eq!(b.len(), 1);
    assert_eq!(c.len(), 2);
}

#[test]
fn deref_reads_children() {
    let l = VList::with_children(vec![text("x"), text("y")], None);
    assert_eq!(l.iter().count(), 2);
    let empty = VList::new();
    assert_eq!(empty.iter().count(), 0);
    let n = VNode::VComp(VComp::new(None, true, VList::new()));
    assert!(!n.has_key());
}

#[test]
fn recheck_replaces_a_stale_cached_state() {
    let mut l = VList::__macro_new(vec![text("x")], None, FullyKeyedState::KnownFullyKeyed);
    l.recheck_fully_keyed();
    assert_eq!(l.fully_keyed_state(), FullyKeyedState::KnownMissingKeys);
    let mut k = VList::__macro_new(vec![keyed_tag("a", "1")], None, FullyKeyedState::KnownMissingKeys);
    k.recheck_fully_keyed();
    assert_eq!(k.fully_keyed_state(), FullyKeyedState::KnownFullyKeyed);
}
