use brainfuckers::brackets::{backward_target, forward_target};
use brainfuckers::engine::{flush_if_decoded, wrapping_decrement, wrapping_increment, TAPE_LEN};
use brainfuckers::{
    get_value_at, new_bf_state, new_bf_state_with, set_value_at, step_bf, wants_input, BFState,
    Tape,
};

fn run(state: &mut BFState, input: &[u8]) -> Vec<u8> {
    let mut out: Vec<u8> = Vec::new();
    let mut next: usize = 0;
    loop {
        let byte = if wants_input(state) {
            let b = input.get(next).copied();
            next += 1;
            b
        } else {
            None
        };
        if !step_bf(state, byte, &mut out) {
            break;
        }
    }
    out
}

fn repeat(c: char, n: usize) -> String {
    std::iter::repeat(c).take(n).collect()
}

#[test]
fn increment_wraps_at_255() {
    assert_eq!(wrapping_increment(255), 0);
    assert_eq!(wrapping_increment(7), 8);
    assert_eq!(wrapping_increment(0), 1);
}

#[test]
fn decrement_wraps_at_0() {
    assert_eq!(wrapping_decrement(0), 255);
    assert_eq!(wrapping_decrement(8), 7);
    assert_eq!(wrapping_decrement(255), 254);
}

#[test]
fn increment_instruction_wraps() {
    let mut s = new_bf_state(&format!("{}", repeat('+', 256)));
    run(&mut s, &[]);
    assert_eq!(get_value_at(&s, 0), 0);
    let mut s = new_bf_state("-");
    run(&mut s, &[]);
    assert_eq!(get_value_at(&s, 0), 255);
}

#[test]
fn unwritten_cells_read_zero() {
    let mut t = Tape::new(10, false);
    t.write(5, 9);
    t.write(-3, 4);
    assert_eq!(t.read(6), 0);
    assert_eq!(t.read(-4), 0);
    assert_eq!(t.read(-1), 0);
    assert_eq!(t.read(100000), 0);
    assert_eq!(t.read(-100000), 0);
    assert_eq!(t.positive_len(), 10);
}

#[test]
fn write_then_read_any_index() {
    let mut t = Tape::new(4, false);
    let indices: [isize; 6] = [0, 3, 4, 17, -1, -9];
    for (k, &i) in indices.iter().enumerate() {
        t.write(i, (k as u8) + 1);
        assert_eq!(t.read(i), (k as u8) + 1);
    }
    for (k, &i) in indices.iter().enumerate() {
        assert_eq!(t.read(i), (k as u8) + 1);
    }
    assert_eq!(t.positive_len(), 18);
    t.write(17, 200);
    assert_eq!(t.read(17), 200);
}

#[test]
fn reads_never_grow_the_tape() {
    let t = Tape::new(4, false);
    assert_eq!(t.read(1000), 0);
    assert_eq!(t.positive_len(), 4);
}

#[test]
fn wraparound_addresses_fold_into_positive_side() {
    let mut t = Tape::new(10, true);
    t.write(9, 7);
    assert_eq!(t.read(-1), 7);
    assert_eq!(t.read(-50), 7);
    t.write(0, 3);
    assert_eq!(t.read(10), 3);
    assert_eq!(t.read(25), 3);
    t.write(-4, 11);
    assert_eq!(t.read(9), 11);
    assert_eq!(t.positive_len(), 10);
}

#[test]
fn state_cells_write_then_read() {
    let mut s = new_bf_state("");
    set_value_at(&mut s, -2, 42);
    set_value_at(&mut s, 5000, 43);
    assert_eq!(get_value_at(&s, -2), 42);
    assert_eq!(get_value_at(&s, 5000), 43);
    assert_eq!(get_value_at(&s, -1), 0);
    assert_eq!(get_value_at(&s, 4999), 0);
}

#[test]
fn wraparound_shift_right_from_last_cell() {
    let mut s = new_bf_state_with(&repeat('>', TAPE_LEN), true, false);
    run(&mut s, &[]);
    assert_eq!(s.cursor_position(), 0);
    let mut s = new_bf_state_with(&repeat('>', TAPE_LEN - 1), true, false);
    run(&mut s, &[]);
    assert_eq!(s.cursor_position(), (TAPE_LEN - 1) as isize);
}

#[test]
fn wraparound_shift_left_from_cell_zero() {
    let mut s = new_bf_state_with("<+", true, false);
    run(&mut s, &[]);
    assert_eq!(s.cursor_position(), (TAPE_LEN - 1) as isize);
    assert_eq!(get_value_at(&s, (TAPE_LEN - 1) as isize), 1);
    let mut s = new_bf_state_with("<>", true, false);
    run(&mut s, &[]);
    assert_eq!(s.cursor_position(), 0);
}

#[test]
fn expanding_tape_goes_negative() {
    let mut s = new_bf_state("<<+++>-");
    run(&mut s, &[]);
    assert_eq!(s.cursor_position(), -1);
    assert_eq!(get_value_at(&s, -2), 3);
    assert_eq!(get_value_at(&s, -1), 255);
    assert_eq!(get_value_at(&s, 0), 0);
}

#[test]
fn step_on_empty_program_halts() {
    let mut s = new_bf_state("");
    let mut out: Vec<u8> = Vec::new();
    assert!(!step_bf(&mut s, None, &mut out));
    assert_eq!(s.instruction_position(), 0);
    assert!(out.is_empty());
}

#[test]
fn step_after_end_changes_nothing() {
    let mut s = new_bf_state("+>");
    let mut out: Vec<u8> = Vec::new();
    assert!(step_bf(&mut s, None, &mut out));
    assert!(step_bf(&mut s, None, &mut out));
    assert!(!step_bf(&mut s, Some(5), &mut out));
    assert!(!step_bf(&mut s, None, &mut out));
    assert_eq!(s.instruction_position(), 2);
    assert_eq!(s.cursor_position(), 1);
    assert_eq!(get_value_at(&s, 0), 1);
    assert!(out.is_empty());
}

#[test]
fn loop_begin_skips_nested_loops() {
    let mut s = new_bf_state("[[]]+");
    let mut out: Vec<u8> = Vec::new();
    assert!(step_bf(&mut s, None, &mut out));
    assert_eq!(s.instruction_position(), 4);
    run(&mut s, &[]);
    assert_eq!(get_value_at(&s, 0), 1);
}

#[test]
fn loop_begin_skips_deeper_nesting() {
    let mut s = new_bf_state("[+[-[+]]>]<");
    let mut out: Vec<u8> = Vec::new();
    assert!(step_bf(&mut s, None, &mut out));
    assert_eq!(s.instruction_position(), 10);
}

#[test]
fn loop_end_jumps_back_past_its_begin() {
    let mut s = new_bf_state("+[[-]]");
    let mut out: Vec<u8> = Vec::new();
    for _ in 0..5 {
        assert!(step_bf(&mut s, None, &mut out));
    }
    assert_eq!(s.instruction_position(), 5);
    assert!(step_bf(&mut s, None, &mut out));
    assert_eq!(s.instruction_position(), 6);
    let mut s = new_bf_state("++[>+<-]");
    run(&mut s, &[]);
    assert_eq!(get_value_at(&s, 0), 0);
    assert_eq!(get_value_at(&s, 1), 2);
}

#[test]
fn bracket_scans() {
    let code: Vec<u8> = b"[[]]".to_vec();
    assert_eq!(forward_target(&code, 0), 4);
    assert_eq!(forward_target(&code, 1), 3);
    assert_eq!(backward_target(&code, 3), 1);
    assert_eq!(backward_target(&code, 2), 2);
    let open: Vec<u8> = b"[[]".to_vec();
    assert_eq!(forward_target(&open, 0), 3);
    let close: Vec<u8> = b"[]]".to_vec();
    assert_eq!(backward_target(&close, 2), 3);
}

#[test]
fn plus_plus_print() {
    let mut s = new_bf_state("++.");
    let out = run(&mut s, &[]);
    assert_eq!(get_value_at(&s, 0), 2);
    assert_eq!(out, vec![2u8]);
    assert!(s.pending_output().is_empty());
}

#[test]
fn read_then_print() {
    let mut s = new_bf_state(",.");
    let out = run(&mut s, &[0x41]);
    assert_eq!(out, b"A".to_vec());
    assert_eq!(String::from_utf8(out).unwrap(), "A");
}

#[test]
fn plus_loop_minus() {
    let mut s = new_bf_state("+[-]");
    let mut out: Vec<u8> = Vec::new();
    assert!(step_bf(&mut s, None, &mut out));
    assert_eq!(get_value_at(&s, 0), 1);
    assert!(step_bf(&mut s, None, &mut out));
    assert_eq!(s.instruction_position(), 2);
    assert!(step_bf(&mut s, None, &mut out));
    assert_eq!(get_value_at(&s, 0), 0);
    assert!(step_bf(&mut s, None, &mut out));
    assert_eq!(s.instruction_position(), 4);
    assert!(!step_bf(&mut s, None, &mut out));
    assert_eq!(get_value_at(&s, 0), 0);
}

#[test]
fn unmatched_open_at_end_with_nonzero_cell() {
    let mut s = new_bf_state("+[");
    let mut out: Vec<u8> = Vec::new();
    assert!(step_bf(&mut s, None, &mut out));
    assert!(step_bf(&mut s, None, &mut out));
    assert_eq!(s.instruction_position(), 2);
    assert!(!step_bf(&mut s, None, &mut out));
}

#[test]
fn unmatched_open_with_zero_cell_halts() {
    let mut s = new_bf_state("[+");
    let mut out: Vec<u8> = Vec::new();
    assert!(step_bf(&mut s, None, &mut out));
    assert_eq!(s.instruction_position(), 2);
    assert!(!step_bf(&mut s, None, &mut out));
    assert_eq!(get_value_at(&s, 0), 0);
}

#[test]
fn unmatched_close_with_nonzero_cell_halts() {
    let mut s = new_bf_state("+]+");
    run(&mut s, &[]);
    assert_eq!(s.instruction_position(), 3);
    assert_eq!(get_value_at(&s, 0), 1);
}

#[test]
fn other_bytes_are_skipped() {
    let mut s = new_bf_state("a +\nb+ é");
    run(&mut s, &[]);
    assert_eq!(get_value_at(&s, 0), 2);
    assert_eq!(s.instruction_position(), "a +\nb+ é".len());
}

#[test]
fn two_byte_character_is_held_until_complete() {
    let code = format!("{}.>{}.", repeat('+', 0xC3), repeat('+', 0xA9));
    let mut s = new_bf_state(&code);
    let mut out: Vec<u8> = Vec::new();
    for _ in 0..0xC4 {
        assert!(step_bf(&mut s, None, &mut out));
    }
    assert!(out.is_empty());
    assert_eq!(s.pending_output(), vec![0xC3u8]);
    let rest = run(&mut s, &[]);
    assert_eq!(rest, vec![0xC3u8, 0xA9u8]);
    assert_eq!(String::from_utf8(rest).unwrap(), "é");
    assert!(s.pending_output().is_empty());
}

#[test]
fn invalid_output_stays_pending() {
    let code = format!("-.>{}.", repeat('+', 65));
    let mut s = new_bf_state(&code);
    let out = run(&mut s, &[]);
    assert!(out.is_empty());
    assert_eq!(s.pending_output(), vec![255u8, 65u8]);
}

#[test]
fn end_of_input_reads_zero() {
    let mut s = new_bf_state("+,");
    run(&mut s, &[]);
    assert_eq!(get_value_at(&s, 0), 0);
}

#[test]
fn newline_kept_by_default() {
    let mut s = new_bf_state(",");
    run(&mut s, &[10]);
    assert_eq!(get_value_at(&s, 0), 10);
}

#[test]
fn newline_read_as_zero_when_configured() {
    let mut s = new_bf_state_with(",>,", false, true);
    run(&mut s, &[10, 11]);
    assert_eq!(get_value_at(&s, 0), 0);
    assert_eq!(get_value_at(&s, 1), 11);
}

#[test]
fn wants_input_only_before_input() {
    let s = new_bf_state(",");
    assert!(wants_input(&s));
    let s = new_bf_state("+,");
    assert!(!wants_input(&s));
    let s = new_bf_state("");
    assert!(!wants_input(&s));
}

#[test]
fn flush_moves_decoded_bytes() {
    let mut pending: Vec<u8> = vec![0xC3, 0xA9];
    let mut out: Vec<u8> = vec![b'x'];
    flush_if_decoded(&mut pending, true, &mut out);
    assert!(pending.is_empty());
    assert_eq!(out, vec![b'x', 0xC3, 0xA9]);
    let mut pending: Vec<u8> = vec![0xC3];
    let mut out: Vec<u8> = Vec::new();
    flush_if_decoded(&mut pending, false, &mut out);
    assert_eq!(pending, vec![0xC3]);
    assert!(out.is_empty());
}

#[test]
fn hello_program() {
    let code = "++++++++[>++++[>++>+++>+++>+<<<<-]>+>+>->>+[<]<-]>>.>---.+++++++..+++.";
    let mut s = new_bf_state(code);
    let out = run(&mut s, &[]);
    assert_eq!(String::from_utf8(out).unwrap(), "Hello");
}
