//! The bookkeeping layer of the ISIS craft minds: entity indices, flock
//! membership with change tracking, formation slots, strategy directive
//! decisions, steering routine composition and player input mapping.

pub mod ids;
pub mod collision;
pub mod compose;
pub mod directives;
pub mod flock;
pub mod formation;
pub mod input;
pub mod idmap;
pub mod sensors;
pub mod svec;
pub mod tags;
