//! User-interface panels: the hierarchy that relates them and the order in
//! which they are laid out and drawn. Their rectangles are fractional and
//! are computed by the application, in that order.
mod drawing;
mod hierarchy;
mod layout;
mod traversal;

pub use self::drawing::{draw_step, PanelLayer};
pub use self::hierarchy::{
    add_to_root, consistent, lemma_set_parent_idempotent, lemma_set_parent_keeps_consistency,
    lemma_set_parent_links, lemma_set_parent_lists_once, set_parent, uniquely_linked, spec_set_parent, spec_without, Hierarchy,
    HierarchyStorage, Root,
};
pub use self::layout::{layout_order, lemma_layout_once, root_panels, spec_root_panels};
pub use self::traversal::{
    acyclic_from, children_of, lemma_visit_once, lemma_visit_order_any_ranking, lemma_visit_reaches, parentless, ranked, spec_forest, spec_ranked_stack, spec_subtree, spec_visit_order,
    visit_order, visit_ranking,
};
