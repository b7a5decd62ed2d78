//! A shared pixel canvas: an authoritative map from coordinates to painted
//! cells, a roster of contributors, and a fan-out of every accepted change to
//! independently paced subscribers.

pub mod boardstate;
pub mod broadcast;
pub mod plot;
