use tvb::fps::Counter;
use tvb::panels::{
    add_to_root, draw_step, layout_order, root_panels, set_parent, visit_order, Hierarchy, HierarchyStorage,
    PanelLayer, Root,
};
use tvb::ui::{self, set_root, Node};

fn storage(entities: &[u64]) -> HierarchyStorage {
    let mut h = HierarchyStorage::new();
    for e in entities {
        h.insert(*e, Hierarchy::new());
    }
    h
}

fn children(h: &HierarchyStorage, e: u64) -> Vec<u64> {
    h.get(e).unwrap().children().to_vec()
}

fn parent(h: &HierarchyStorage, e: u64) -> Option<u64> {
    *h.get(e).unwrap().parent()
}

#[test]
fn set_parent_links_child_and_parent() {
    let mut h = storage(&[1, 2, 3]);
    set_parent(&mut h, 2, Some(1));
    set_parent(&mut h, 3, Some(1));
    assert_eq!(parent(&h, 2), Some(1));
    assert_eq!(children(&h, 1), vec![2, 3]);
    assert!(children(&h, 2).is_empty());
}

#[test]
fn set_parent_twice_is_once() {
    let mut h = storage(&[1, 2]);
    set_parent(&mut h, 2, Some(1));
    set_parent(&mut h, 2, Some(1));
    assert_eq!(children(&h, 1), vec![2]);
    assert_eq!(parent(&h, 2), Some(1));
}

#[test]
fn set_parent_none_detaches_from_old_parent() {
    let mut h = storage(&[1, 2, 3]);
    set_parent(&mut h, 2, Some(1));
    set_parent(&mut h, 3, Some(1));
    set_parent(&mut h, 2, None);
    assert_eq!(parent(&h, 2), None);
    assert_eq!(children(&h, 1), vec![3]);
}

#[test]
fn reparenting_keeps_old_parent_children() {
    // Moving a child to another parent leaves it listed under the old one.
    let mut h = storage(&[1, 2, 3]);
    set_parent(&mut h, 3, Some(1));
    set_parent(&mut h, 3, Some(2));
    assert_eq!(parent(&h, 3), Some(2));
    assert_eq!(children(&h, 2), vec![3]);
    assert_eq!(children(&h, 1), vec![3]);
}

#[test]
fn detaching_from_missing_old_parent() {
    let mut h = storage(&[1, 2]);
    set_parent(&mut h, 2, Some(9));
    assert_eq!(parent(&h, 2), Some(9));
    set_parent(&mut h, 2, None);
    assert_eq!(parent(&h, 2), None);
    assert!(h.get(9).is_none());
}

#[test]
fn add_to_root_uses_root_entity() {
    let mut h = storage(&[1, 2]);
    add_to_root(&Root { entity: Some(1) }, &mut h, 2);
    assert_eq!(parent(&h, 2), Some(1));
    assert_eq!(children(&h, 1), vec![2]);
    add_to_root(&Root { entity: None }, &mut h, 2);
    assert_eq!(parent(&h, 2), None);
    assert!(children(&h, 1).is_empty());
}

#[test]
fn draw_steps_visit_in_stack_order() {
    let mut h = storage(&[1, 2, 3, 4]);
    set_parent(&mut h, 2, Some(1));
    set_parent(&mut h, 3, Some(1));
    set_parent(&mut h, 4, Some(2));
    let layer = PanelLayer { root: 1 };
    let mut stack = vec![layer.root];
    let mut order = Vec::new();
    while let Some(e) = draw_step(&h, &mut stack) {
        order.push(e);
    }
    assert_eq!(order, vec![1, 3, 2, 4]);
    assert!(stack.is_empty());
    // An entity without a hierarchy component is drawn without children.
    let mut stack = vec![8];
    assert_eq!(draw_step(&h, &mut stack), Some(8));
    assert!(stack.is_empty());
    assert_eq!(draw_step(&h, &mut stack), None);
}

#[test]
fn ui_set_root() {
    let mut h = ui::Hierarchy::default();
    h.sorted.push(5);
    set_root(&mut h, 3);
    assert_eq!(h.root, Some(3));
    assert_eq!(h.sorted, vec![5]);
    let n = Node::default();
    assert_eq!(n.parent(), None);
    assert!(n.children().is_empty());
}

#[test]
fn counter_counts_frames_and_remembers_previous() {
    let mut c = Counter::new();
    assert_eq!(c.frame_count(), 0);
    let t0 = std::time::Instant::now();
    assert_eq!(c.record_frame(t0), None);
    let t1 = t0 + std::time::Duration::from_millis(16);
    assert_eq!(c.record_frame(t1), Some(t0));
    assert_eq!(c.record_frame(t1), Some(t1));
    assert_eq!(c.frame_count(), 3);
}

#[test]
fn hierarchy_stays_consistent_without_direct_moves() {
    let mut h = storage(&[1, 2, 3, 4]);
    set_parent(&mut h, 2, Some(1));
    set_parent(&mut h, 3, Some(1));
    set_parent(&mut h, 4, Some(3));
    set_parent(&mut h, 3, None);
    set_parent(&mut h, 3, Some(2));
    for e in [1u64, 2, 3, 4] {
        for c in children(&h, e) {
            assert_eq!(parent(&h, c), Some(e));
        }
        if let Some(p) = parent(&h, e) {
            assert!(children(&h, p).contains(&e));
        }
    }
}

#[test]
fn each_child_listed_once() {
    let mut h = storage(&[1, 2, 3]);
    set_parent(&mut h, 2, Some(1));
    set_parent(&mut h, 2, Some(1));
    set_parent(&mut h, 3, Some(1));
    set_parent(&mut h, 2, None);
    set_parent(&mut h, 2, Some(1));
    assert_eq!(children(&h, 1), vec![3, 2]);
}

fn tree() -> HierarchyStorage {
    let mut h = storage(&[1, 2, 3, 4, 5]);
    set_parent(&mut h, 2, Some(1));
    set_parent(&mut h, 3, Some(1));
    set_parent(&mut h, 4, Some(2));
    h
}

fn has_duplicates(order: &[u64]) -> bool {
    (0..order.len()).any(|i| order[i + 1..].contains(&order[i]))
}

#[test]
fn panels_are_drawn_depth_first_last_child_first() {
    let h = tree();
    let layer = PanelLayer { root: 1 };
    let order = layer.draw_order(&h);
    assert_eq!(order, vec![1, 3, 2, 4]);
    assert!(!has_duplicates(&order));
    assert_eq!(PanelLayer { root: 2 }.draw_order(&h), vec![2, 4]);
    assert_eq!(PanelLayer { root: 9 }.draw_order(&h), vec![9]);
}

#[test]
fn draw_order_matches_draw_steps() {
    let h = tree();
    let mut stack = vec![1];
    let mut steps = Vec::new();
    while let Some(e) = draw_step(&h, &mut stack) {
        steps.push(e);
    }
    assert_eq!(steps, PanelLayer { root: 1 }.draw_order(&h));
}

#[test]
fn visit_order_takes_the_stack_top_first() {
    let h = tree();
    assert_eq!(visit_order(&h, &vec![2, 3]), vec![3, 2, 4]);
    assert_eq!(visit_order(&h, &Vec::new()), Vec::<u64>::new());
}

#[test]
fn layout_starts_from_every_root_panel() {
    let h = tree();
    let entities = vec![1, 2, 3, 4, 5, 6];
    assert_eq!(root_panels(&h, &entities), vec![1, 5]);
    let order = layout_order(&h, &entities);
    assert_eq!(order, vec![5, 1, 3, 2, 4]);
    assert!(!has_duplicates(&order));
}

#[test]
fn moved_panel_stays_listed_by_old_parent_and_is_drawn_twice() {
    let mut h = tree();
    set_parent(&mut h, 4, Some(3));
    assert_eq!(children(&h, 2), vec![4]);
    assert_eq!(children(&h, 3), vec![4]);
    assert_eq!(PanelLayer { root: 1 }.draw_order(&h), vec![1, 3, 4, 2, 4]);
}
