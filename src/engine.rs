//! The interpreter state and its single-step operation.
//!
//! The caller owns the execution loop and the streams: before each step it
//! asks `wants_input` whether the next instruction reads a byte, fetches one
//! if so, and hands it to `step_bf`, which appends whatever text became
//! decodable to an output buffer the caller then writes out.
use vstd::prelude::*;
use vstd::slice::slice_to_vec;
use vstd::string::StringSliceAdditionalSpecFns;
use crate::brackets::{
    backward_jump,
    backward_target,
    closes,
    forward_jump,
    forward_target,
    lemma_skip_to_matching_end,
    BLOCK_BEGIN,
    BLOCK_END,
};
use crate::tape::Tape;
use crate::utf8::{decodes_as_utf8, is_utf8};

verus! {

/// Cells pre-allocated on the positive side of a fresh tape.
pub const TAPE_LEN: usize = 3000;

pub const NEWLINE: u8 = 10;

pub const DECREMENT_VALUE: u8 = 45;

pub const INCREMENT_VALUE: u8 = 43;

pub const INPUT: u8 = 44;

pub const PRINT: u8 = 46;

pub const SHIFT_LEFT: u8 = 60;

pub const SHIFT_RIGHT: u8 = 62;

pub struct BFState {
    code: Vec<u8>,
    tape: Tape,
    instruction_position: usize,
    cursor_position: isize,
    output: Vec<u8>,
    newline_0: bool,
}

/// A byte plus one, 255 wrapping to 0.
pub open spec fn inc(x: u8) -> u8 {
    if x == 255 {
        0
    } else {
        (x + 1) as u8
    }
}

/// A byte minus one, 0 wrapping to 255.
pub open spec fn dec(x: u8) -> u8 {
    if x == 0 {
        255
    } else {
        (x - 1) as u8
    }
}

pub fn wrapping_increment(x: u8) -> (r: u8)
    ensures
        r == inc(x),
{
    if x < 255 {
        x + 1
    } else {
        0
    }
}

pub fn wrapping_decrement(x: u8) -> (r: u8)
    ensures
        r == dec(x),
{
    if x > 0 {
        x - 1
    } else {
        255
    }
}

/// The byte that the input instruction stores, given what the input
/// stream yielded (`None` at its end).
pub open spec fn stored_input(input: Option<u8>, newline_to_zero: bool) -> u8 {
    match input {
        Some(c) => if c == NEWLINE && newline_to_zero {
            0
        } else {
            c
        },
        None => 0,
    }
}

impl BFState {
    pub closed spec fn code(&self) -> Seq<u8> {
        self.code@
    }

    pub closed spec fn tape(&self) -> Tape {
        self.tape
    }

    pub closed spec fn ip(&self) -> int {
        self.instruction_position as int
    }

    pub closed spec fn cursor(&self) -> int {
        self.cursor_position as int
    }

    /// Output bytes not yet decodable as text.
    pub closed spec fn pending(&self) -> Seq<u8> {
        self.output@
    }

    pub closed spec fn newline_to_zero(&self) -> bool {
        self.newline_0
    }

    pub open spec fn wf(&self) -> bool {
        &&& self.tape().wf()
        &&& 0 <= self.ip() <= self.code().len()
        &&& self.tape().wraps() ==> 0 <= self.cursor() < self.tape().pos().len()
    }

    pub open spec fn halted(&self) -> bool {
        self.ip() >= self.code().len()
    }

    /// The value of the active cell.
    pub open spec fn current(&self) -> u8 {
        self.tape().value(self.cursor())
    }

    /// The cursor can move one cell either way without leaving `isize`.
    pub open spec fn can_move(&self) -> bool {
        isize::MIN < self.cursor() < isize::MAX
    }

    /// The next instruction reads a byte of input.
    pub open spec fn reads_input(&self) -> bool {
        !self.halted() && self.code()[self.ip()] == INPUT
    }

    pub fn instruction_position(&self) -> (r: usize)
        ensures
            r == self.ip(),
    {
        self.instruction_position
    }

    pub fn cursor_position(&self) -> (r: isize)
        ensures
            r == self.cursor(),
    {
        self.cursor_position
    }

    /// The output bytes still waiting to form decodable text.
    pub fn pending_output(&self) -> (r: Vec<u8>)
        ensures
            r@ == self.pending(),
    {
        slice_to_vec(self.output.as_slice())
    }
}

/// Where the shift-left instruction moves the cursor.
pub open spec fn shifted_left(s: BFState) -> int {
    if s.tape().wraps() && s.cursor() <= 0 {
        s.tape().pos().len() - 1
    } else {
        s.cursor() - 1
    }
}

/// Where the shift-right instruction moves the cursor.
pub open spec fn shifted_right(s: BFState) -> int {
    if s.tape().wraps() && s.cursor() + 1 >= s.tape().pos().len() {
        0
    } else {
        s.cursor() + 1
    }
}

/// Only the instruction pointer moved, by one.
pub open spec fn just_advanced(pre: BFState, post: BFState) -> bool {
    &&& post.tape() == pre.tape()
    &&& post.cursor() == pre.cursor()
    &&& post.pending() == pre.pending()
    &&& post.ip() == pre.ip() + 1
}

/// The active cell was set to `v` and the instruction pointer moved by one.
pub open spec fn cell_set(pre: BFState, v: u8, post: BFState) -> bool {
    &&& Tape::is_write(pre.tape(), pre.cursor(), v, post.tape())
    &&& post.cursor() == pre.cursor()
    &&& post.pending() == pre.pending()
    &&& post.ip() == pre.ip() + 1
}

/// Executing the instruction at `pre.ip()`, with `input` as the next byte
/// of the input stream, takes `pre` to `post` and the output buffer from
/// `out0` to `out1`.
pub open spec fn steps_to(
    pre: BFState,
    input: Option<u8>,
    post: BFState,
    out0: Seq<u8>,
    out1: Seq<u8>,
) -> bool {
    let op = pre.code()[pre.ip()];
    let cur = pre.current();
    let acc = pre.pending().push(cur);
    &&& post.code() == pre.code()
    &&& post.newline_to_zero() == pre.newline_to_zero()
    &&& op != PRINT ==> out1 == out0
    &&& if op == INCREMENT_VALUE {
        cell_set(pre, inc(cur), post)
    } else if op == DECREMENT_VALUE {
        cell_set(pre, dec(cur), post)
    } else if op == INPUT {
        cell_set(pre, stored_input(input, pre.newline_to_zero()), post)
    } else if op == SHIFT_LEFT || op == SHIFT_RIGHT {
        &&& post.tape() == pre.tape()
        &&& post.pending() == pre.pending()
        &&& post.ip() == pre.ip() + 1
        &&& post.cursor() == if op == SHIFT_LEFT {
            shifted_left(pre)
        } else {
            shifted_right(pre)
        }
    } else if op == PRINT {
        &&& post.tape() == pre.tape()
        &&& post.cursor() == pre.cursor()
        &&& post.ip() == pre.ip() + 1
        &&& if is_utf8(acc) {
            post.pending() == Seq::<u8>::empty() && out1 == out0 + acc
        } else {
            post.pending() == acc && out1 == out0
        }
    } else if op == BLOCK_BEGIN && cur == 0 {
        &&& post.tape() == pre.tape()
        &&& post.cursor() == pre.cursor()
        &&& post.pending() == pre.pending()
        &&& post.ip() == forward_jump(pre.code(), pre.ip())
    } else if op == BLOCK_END && cur != 0 {
        &&& post.tape() == pre.tape()
        &&& post.cursor() == pre.cursor()
        &&& post.pending() == pre.pending()
        &&& post.ip() == backward_jump(pre.code(), pre.ip())
    } else {
        just_advanced(pre, post)
    }
}

/// On a wraparound tape, shifting right from the last cell of the positive
/// side lands on cell 0, and shifting left from cell 0 lands on that last
/// cell.
pub proof fn lemma_wraparound_shifts(
    pre: BFState,
    input: Option<u8>,
    post: BFState,
    out0: Seq<u8>,
    out1: Seq<u8>,
)
    requires
        pre.wf(),
        !pre.halted(),
        pre.tape().wraps(),
        steps_to(pre, input, post, out0, out1),
    ensures
        pre.code()[pre.ip()] == SHIFT_RIGHT && pre.cursor() == pre.tape().pos().len() - 1
            ==> post.cursor() == 0,
        pre.code()[pre.ip()] == SHIFT_LEFT && pre.cursor() == 0 ==> post.cursor()
            == pre.tape().pos().len() - 1,
{
}

/// A loop-begin met with the active cell at 0 sends the instruction pointer
/// just past its matching loop-end, whatever loops are nested in between.
pub proof fn lemma_loop_begin_skips(
    pre: BFState,
    input: Option<u8>,
    post: BFState,
    out0: Seq<u8>,
    out1: Seq<u8>,
    j: int,
)
    requires
        pre.wf(),
        !pre.halted(),
        pre.current() == 0,
        closes(pre.code(), pre.ip(), j),
        steps_to(pre, input, post, out0, out1),
    ensures
        post.ip() == j + 1,
{
    lemma_skip_to_matching_end(pre.code(), pre.ip(), j);
}

/// A fresh interpreter for program `code`, with the given tape mode and
/// newline handling.
pub fn new_bf_state_with(code: &str, wraparound: bool, newline_to_zero: bool) -> (s: BFState)
    ensures
        s.wf(),
        s.code() == code.spec_bytes(),
        s.ip() == 0,
        s.cursor() == 0,
        s.pending() == Seq::<u8>::empty(),
        s.newline_to_zero() == newline_to_zero,
        s.tape().wraps() == wraparound,
        s.tape().pos().len() == TAPE_LEN,
        s.tape().neg().len() == 0,
        forall|i: int| #[trigger] s.tape().value(i) == 0,
{
    BFState {
        code: slice_to_vec(code.as_bytes()),
        tape: Tape::new(TAPE_LEN, wraparound),
        instruction_position: 0,
        cursor_position: 0,
        output: Vec::new(),
        newline_0: newline_to_zero,
    }
}

/// A fresh interpreter for program `code`: expanding tape, line feeds read
/// as they are.
pub fn new_bf_state(code: &str) -> (s: BFState)
    ensures
        s.wf(),
        s.code() == code.spec_bytes(),
        s.ip() == 0,
        s.cursor() == 0,
        s.pending() == Seq::<u8>::empty(),
        !s.newline_to_zero(),
        !s.tape().wraps(),
        s.tape().pos().len() == TAPE_LEN,
        s.tape().neg().len() == 0,
        forall|i: int| #[trigger] s.tape().value(i) == 0,
{
    new_bf_state_with(code, false, false)
}

/// Whether the next step executes an input instruction, so that the caller
/// should fetch a byte for it.
pub fn wants_input(state: &BFState) -> (r: bool)
    requires
        state.wf(),
    ensures
        r == state.reads_input(),
{
    state.instruction_position < state.code.len()
        && state.code[state.instruction_position] == INPUT
}

/// The byte at tape index `index`; 0 for a cell never written.
pub fn get_value_at(state: &BFState, index: isize) -> (r: u8)
    requires
        state.wf(),
    ensures
        r == state.tape().value(index as int),
{
    state.tape.read(index)
}

/// Stores `value` at tape index `index`; nothing else changes.
pub fn set_value_at(state: &mut BFState, index: isize, value: u8)
    requires
        old(state).wf(),
        isize::MIN < index < isize::MAX,
    ensures
        final(state).wf(),
        Tape::is_write(old(state).tape(), index as int, value, final(state).tape()),
        final(state).code() == old(state).code(),
        final(state).ip() == old(state).ip(),
        final(state).cursor() == old(state).cursor(),
        final(state).pending() == old(state).pending(),
        final(state).newline_to_zero() == old(state).newline_to_zero(),
{
    state.tape.write(index, value);
}

/// Moves the pending output bytes to `out` when they decode as text
/// (`decoded`), and leaves both as they are otherwise.
pub fn flush_if_decoded(pending: &mut Vec<u8>, decoded: bool, out: &mut Vec<u8>)
    ensures
        decoded ==> final(pending)@ == Seq::<u8>::empty() && final(out)@ == old(out)@ + old(
            pending,
        )@,
        !decoded ==> final(pending)@ == old(pending)@ && final(out)@ == old(out)@,
{
    if decoded {
        out.append(pending);
    }
}

fn print_char(state: &mut BFState, out: &mut Vec<u8>)
    requires
        old(state).wf(),
    ensures
        final(state).code() == old(state).code(),
        final(state).tape() == old(state).tape(),
        final(state).ip() == old(state).ip(),
        final(state).cursor() == old(state).cursor(),
        final(state).newline_to_zero() == old(state).newline_to_zero(),
        ({
            let acc = old(state).pending().push(old(state).current());
            if is_utf8(acc) {
                final(state).pending() == Seq::<u8>::empty() && final(out)@ == old(out)@ + acc
            } else {
                final(state).pending() == acc && final(out)@ == old(out)@
            }
        }),
{
    let value = state.tape.read(state.cursor_position);
    state.output.push(value);
    let decoded = decodes_as_utf8(&state.output);
    flush_if_decoded(&mut state.output, decoded, out);
}

fn read_input(state: &mut BFState, input: Option<u8>)
    requires
        old(state).wf(),
        old(state).can_move(),
    ensures
        final(state).code() == old(state).code(),
        Tape::is_write(
            old(state).tape(),
            old(state).cursor(),
            stored_input(input, old(state).newline_to_zero()),
            final(state).tape(),
        ),
        final(state).ip() == old(state).ip(),
        final(state).cursor() == old(state).cursor(),
        final(state).pending() == old(state).pending(),
        final(state).newline_to_zero() == old(state).newline_to_zero(),
{
    let c: u8 = match input {
        Some(c) => if c == NEWLINE && state.newline_0 {
            0
        } else {
            c
        },
        None => 0,
    };
    let cursor = state.cursor_position;
    state.tape.write(cursor, c);
}

/// Executes one instruction. Returns false, changing nothing, once the
/// instruction pointer has reached the end of the program; otherwise
/// applies the instruction and returns true.
///
/// `input` is the next byte of the input stream, `None` at its end; only
/// an input instruction consumes it. Text that becomes decodable is
/// appended to `out`.
pub fn step_bf(state: &mut BFState, input: Option<u8>, out: &mut Vec<u8>) -> (running: bool)
    requires
        old(state).wf(),
        old(state).can_move(),
    ensures
        final(state).wf(),
        running == !old(state).halted(),
        !running ==> *final(state) == *old(state) && final(out)@ == old(out)@,
        running ==> steps_to(*old(state), input, *final(state), old(out)@, final(out)@),
{
    if state.instruction_position >= state.code.len() {
        return false;
    }
    let opcode = state.code[state.instruction_position];
    let current = state.tape.read(state.cursor_position);
    if opcode == INCREMENT_VALUE {
        let cursor = state.cursor_position;
        state.tape.write(cursor, wrapping_increment(current));
        state.instruction_position = state.instruction_position + 1;
    } else if opcode == DECREMENT_VALUE {
        let cursor = state.cursor_position;
        state.tape.write(cursor, wrapping_decrement(current));
        state.instruction_position = state.instruction_position + 1;
    } else if opcode == INPUT {
        read_input(state, input);
        state.instruction_position = state.instruction_position + 1;
    } else if opcode == SHIFT_LEFT {
        if state.tape.is_wraparound() && state.cursor_position <= 0 {
            state.cursor_position = (state.tape.positive_len() - 1) as isize;
        } else {
            state.cursor_position = state.cursor_position - 1;
        }
        state.instruction_position = state.instruction_position + 1;
    } else if opcode == SHIFT_RIGHT {
        if state.tape.is_wraparound() && state.cursor_position >= (state.tape.positive_len()
            - 1) as isize {
            state.cursor_position = 0;
        } else {
            state.cursor_position = state.cursor_position + 1;
        }
        state.instruction_position = state.instruction_position + 1;
    } else if opcode == PRINT {
        print_char(state, out);
        state.instruction_position = state.instruction_position + 1;
    } else if opcode == BLOCK_BEGIN {
        if current == 0 {
            state.instruction_position = forward_target(&state.code, state.instruction_position);
        } else {
            state.instruction_position = state.instruction_position + 1;
        }
    } else if opcode == BLOCK_END {
        if current != 0 {
            state.instruction_position = backward_target(&state.code, state.instruction_position);
        } else {
            state.instruction_position = state.instruction_position + 1;
        }
    } else {
        state.instruction_position = state.instruction_position + 1;
    }
    true
}

} // verus!
