//! An interpreter for the eight-instruction tape language, driven one
//! instruction at a time by the caller.
pub mod brackets;
pub mod engine;
pub mod tape;
pub mod utf8;

pub use engine::{
    get_value_at,
    new_bf_state,
    new_bf_state_with,
    set_value_at,
    step_bf,
    wants_input,
    BFState,
};
pub use tape::Tape;
