//! The three kinds of tape: one tape with one head, several tapes with one
//! head each, and one tape with several heads.

pub mod head;
pub mod multi;
pub mod single;
