//! The browser side of the page's accessibility tree: transactional validation
//! of renderer deltas, identity mapping for the platform adapter, and the
//! bounded queue of assistive-technology requests.
pub mod node_store;
pub mod tree_check;
pub mod document;
pub mod chrome;
pub mod chrome_tree;
pub mod actions;
