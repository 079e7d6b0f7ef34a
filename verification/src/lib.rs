//! A linear chain of lamps, linked pairwise, with a symmetric "ripple"
//! traversal: starting from a chosen lamp, an action is applied to that lamp
//! and then to its neighbours at growing distance on both sides at once,
//! until both directions run out of lamps.

pub mod chain;
pub mod lamp;
pub mod laws;
pub mod traversal;
