//! Decision core of a periodic speaker-grouping loop: classifies each
//! discovered speaker against its zone topology snapshot and plans the join
//! commands that reconcile ungrouped speakers into groups.

pub mod classifier;
pub mod laws;
pub mod model;
pub mod pass;

pub use classifier::Disposition;
pub use classifier::TopologyError;
pub use model::Group;
pub use model::Member;
pub use pass::GroupPlan;
pub use pass::PassPlan;
pub use pass::PassState;
