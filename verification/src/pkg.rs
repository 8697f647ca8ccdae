//! The export machinery: the dist layout, the per-node export plan, the
//! patch plans and the launcher script.

pub mod paths;
pub mod patch;
pub mod export;
pub mod bootstrap;
