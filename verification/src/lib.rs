//! Sentinel: continuous-observation core for an agent browser.
//!
//! The verified library holds the decision logic of the page observer:
//! the dual-mode stability tracker, the bounded event timeline, the
//! network request tracker, the live DOM tree, snapshot reconstruction,
//! the CDP client's call book, screenshot hashing and change regions, and
//! the small parsers and verdicts around them (sensor methods, daemon
//! commands, budget rules, baseline comparisons).

pub mod clock;
pub mod text;
pub mod stability;
pub mod timeline;
pub mod table;
pub mod network;
pub mod regions;
pub mod dom_node;
pub mod cdp_types;
pub mod snapshot;
pub mod dom_tree;
pub mod page;
pub mod daemon;
pub mod recording;
pub mod budget;
pub mod compare;
pub mod sensor;
pub mod actuator;
pub mod screenshot;
pub mod calls;
pub mod browser;
pub mod visual;
pub mod dom_walk;
pub mod dom_build;

