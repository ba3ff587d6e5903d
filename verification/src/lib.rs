//! Absolute placement of content inside a region-based layout pipeline.
//!
//! A node is offered regions and answers with frames, each carrying the
//! constraints under which it may be reused. The placed node lays its child
//! out against the full extent of the first region and anchors the result
//! either to the flow cursor or to the origin of the region.
//!
//! - [`geom`]: lengths, points, sizes and per-axis pairs.
//! - [`frame`]: frames, and how they are moved, resized and shared.
//! - [`regions`]: regions and constraints.
//! - [`node`]: the kinds of node and their layout.
//! - [`placed`]: the placed node, and the function that makes its template.
//! - [`layout`]: what all nodes have in common, and the reuse of frames.
//! - [`template`]: content that waits for its style.
//! - [`args`]: the arguments that a placement is made from.

pub mod args;
pub mod frame;
pub mod geom;
pub mod layout;
pub mod node;
pub mod placed;
pub mod regions;
pub mod template;
