use befunge::grid::Source;
use befunge::input::parse_input;
use befunge::state::{Output, State};
use befunge::xy::{CardinalDirections, XY};

/// Runs `program` until it halts (at most `limit` steps), feeding `lines` to
/// each `&`, and returns what it wrote and its final state.
fn run(program: &str, lines: &[&str], limit: usize) -> (Vec<Output>, State) {
    let source = Source::parse(program);
    let mut state = State::initial();
    let mut outputs = Vec::new();
    let mut next_line = 0;
    let mut steps = 0;
    while !state.halted && steps < limit {
        assert!(!state.would_fault(&source));
        let line = if state.wants_input(&source) {
            next_line += 1;
            lines.get(next_line - 1).copied()
        } else {
            None
        };
        let out = state.step(line, &source);
        if out != Output::Nothing {
            outputs.push(out);
        }
        steps += 1;
    }
    (outputs, state)
}

fn state_with_stack(stack: Vec<isize>) -> State {
    let mut state = State::initial();
    state.stack = stack;
    state
}

#[test]
fn add_then_print_then_halt() {
    let (out, state) = run("94+.@", &[], 100);
    assert_eq!(out, vec![Output::Number(13)]);
    assert!(state.halted);
    assert!(state.stack.is_empty());
}

#[test]
fn lone_halt_does_nothing() {
    let source = Source::parse("@");
    assert_eq!(source.bounds, XY::new(1, 1));
    let (out, state) = run("@", &[], 10);
    assert!(out.is_empty());
    assert!(state.halted);
    assert!(state.stack.is_empty());
}

#[test]
fn read_then_print() {
    let (out, state) = run("&.@", &["42"], 10);
    assert_eq!(out, vec![Output::Number(42)]);
    assert!(state.halted);
    let (out, _) = run("&.@", &["42\n"], 10);
    assert_eq!(out, vec![Output::Number(42)]);
}

#[test]
fn bridge_skips_next_cell() {
    // Without the skip this would print 1.
    let (out, state) = run("1#.@", &[], 10);
    assert!(out.is_empty());
    assert!(state.halted);
    assert_eq!(state.stack, vec![1]);
    // Skipping the first halt lets the print run.
    let (out, state) = run("1#@.@", &[], 10);
    assert_eq!(out, vec![Output::Number(1)]);
    assert!(state.halted);
}

#[test]
fn bridge_moves_two_cells() {
    let mut state = State::initial();
    state.double_jump = true;
    state.move_pointer();
    assert_eq!(state.position, XY::new(2, 0));
    assert!(!state.double_jump);
    state.move_pointer();
    assert_eq!(state.position, XY::new(3, 0));
}

#[test]
fn lookup_wraps_periodically() {
    let source = Source::parse("ab\ncd");
    assert_eq!(source.bounds, XY::new(2, 2));
    for x in 0..4isize {
        for y in 0..4isize {
            let here = source.lookup(&XY::new(x, y));
            assert_eq!(here, source.lookup(&XY::new(x + 2, y)));
            assert_eq!(here, source.lookup(&XY::new(x, y + 2)));
        }
    }
    assert_eq!(source.lookup(&XY::new(3, 2)), Some('b'));
    assert_eq!(source.lookup(&XY::new(1, 1)), Some('d'));
}

#[test]
fn lookup_negative_coordinates_truncate() {
    let source = Source::parse("ab\ncd");
    // -1 % 2 is -1: no such column, so a space; no such row, so a failure.
    assert_eq!(source.lookup(&XY::new(-1, 0)), Some(' '));
    assert_eq!(source.lookup(&XY::new(0, -1)), None);
    // A whole period below zero reads the same as the cell itself.
    assert_eq!(source.lookup(&XY::new(-2, 0)), Some('a'));
    assert_eq!(source.lookup(&XY::new(-3, 1)), Some(' '));
}

#[test]
fn lookup_on_empty_grid_fails() {
    let source = Source::parse("");
    assert_eq!(source.bounds, XY::new(0, 0));
    assert!(source.instrs.is_empty());
    for x in -3..3isize {
        for y in -3..3isize {
            assert_eq!(source.lookup(&XY::new(x, y)), None);
        }
    }
    let (out, state) = run("", &[], 10);
    assert!(out.is_empty());
    assert!(state.halted);
}

#[test]
fn lookup_ragged_rows_read_spaces() {
    let source = Source::parse("abc\nd");
    assert_eq!(source.bounds, XY::new(3, 2));
    assert_eq!(source.lookup(&XY::new(2, 1)), Some(' '));
    assert_eq!(source.lookup(&XY::new(0, 1)), Some('d'));
}

#[test]
fn parse_splits_lines() {
    let source = Source::parse("ab\r\ncd\n\nxyz\n");
    assert_eq!(
        source.instrs,
        vec![vec!['a', 'b'], vec!['c', 'd'], vec![], vec!['x', 'y', 'z']]
    );
    assert_eq!(source.bounds, XY::new(3, 4));
    let source = Source::parse("\u{e9}x\n");
    assert_eq!(source.instrs, vec![vec!['\u{e9}', 'x']]);
    assert_eq!(source.bounds, XY::new(2, 1));
}

#[test]
fn arithmetic_results() {
    assert_eq!(run("73-.@", &[], 20).0, vec![Output::Number(4)]);
    assert_eq!(run("73*.@", &[], 20).0, vec![Output::Number(21)]);
    assert_eq!(run("73/.@", &[], 20).0, vec![Output::Number(2)]);
    assert_eq!(run("73%.@", &[], 20).0, vec![Output::Number(1)]);
    assert_eq!(run("73`.@", &[], 20).0, vec![Output::Number(1)]);
    assert_eq!(run("37`.@", &[], 20).0, vec![Output::Number(0)]);
    assert_eq!(run("33`.@", &[], 20).0, vec![Output::Number(0)]);
}

#[test]
fn negative_division_truncates() {
    assert_eq!(run("07-3/.@", &[], 20).0, vec![Output::Number(-2)]);
    assert_eq!(run("07-3%.@", &[], 20).0, vec![Output::Number(-1)]);
    assert_eq!(run("703-%.@", &[], 20).0, vec![Output::Number(1)]);
}

#[test]
fn arithmetic_wraps() {
    let mut state = state_with_stack(vec![isize::MAX, 1]);
    state.update(&'+', None, 0);
    assert_eq!(state.stack, vec![isize::MIN]);
    let mut state = state_with_stack(vec![isize::MIN, 1]);
    state.update(&'-', None, 0);
    assert_eq!(state.stack, vec![isize::MAX]);
    let mut state = state_with_stack(vec![isize::MAX, 2]);
    state.update(&'*', None, 0);
    assert_eq!(state.stack, vec![-2]);
    let mut state = state_with_stack(vec![isize::MIN, -1]);
    state.update(&'/', None, 0);
    assert_eq!(state.stack, vec![isize::MIN]);
    let mut state = state_with_stack(vec![isize::MIN, -1]);
    state.update(&'%', None, 0);
    assert_eq!(state.stack, vec![0]);
}

#[test]
fn short_stack_is_kept_by_binary_instructions() {
    for c in ['+', '-', '*', '/', '%', '`', '\\'] {
        let mut state = state_with_stack(vec![]);
        assert_eq!(state.update(&c, None, 0), Output::Nothing);
        assert!(state.stack.is_empty());
        let mut state = state_with_stack(vec![5]);
        assert_eq!(state.update(&c, None, 0), Output::Nothing);
        assert_eq!(state.stack, vec![5]);
        assert_eq!(state.direction, XY::new(1, 0));
    }
}

#[test]
fn duplicate_then_discard() {
    let mut state = state_with_stack(vec![7]);
    state.update(&':', None, 0);
    assert_eq!(state.stack, vec![7, 7]);
    state.update(&'$', None, 0);
    assert_eq!(state.stack, vec![7]);
    let mut state = state_with_stack(vec![]);
    state.update(&':', None, 0);
    state.update(&'$', None, 0);
    assert!(state.stack.is_empty());
}

#[test]
fn string_mode_pushes_code_points() {
    let (out, state) = run("\"AB\"@", &[], 20);
    assert!(out.is_empty());
    assert_eq!(state.stack, vec![65, 66]);
    assert!(!state.string_mode);
    let (out, _) = run("\"@.\",,@", &[], 20);
    assert_eq!(out, vec![Output::Character('.'), Output::Character('@')]);
}

#[test]
fn logical_not() {
    assert_eq!(run("0!.@", &[], 20).0, vec![Output::Number(1)]);
    assert_eq!(run("5!.@", &[], 20).0, vec![Output::Number(0)]);
    let mut state = state_with_stack(vec![]);
    state.update(&'!', None, 0);
    assert!(state.stack.is_empty());
}

#[test]
fn swap_exchanges_top_two() {
    let mut state = state_with_stack(vec![9, 1, 2]);
    state.update(&'\\', None, 0);
    assert_eq!(state.stack, vec![9, 2, 1]);
    assert_eq!(
        run("12\\..@", &[], 20).0,
        vec![Output::Number(1), Output::Number(2)]
    );
}

#[test]
fn arrows_set_direction() {
    let cases = [
        ('v', XY::new(0, 1)),
        ('^', XY::new(0, -1)),
        ('>', XY::new(1, 0)),
        ('<', XY::new(-1, 0)),
    ];
    for (c, d) in cases {
        let mut state = State::initial();
        state.update(&c, None, 0);
        assert_eq!(state.direction, d);
    }
}

#[test]
fn conditionals_pick_direction() {
    let mut state = state_with_stack(vec![0]);
    state.update(&'|', None, 0);
    assert_eq!(state.direction, XY::new(0, 1));
    let mut state = state_with_stack(vec![3]);
    state.update(&'|', None, 0);
    assert_eq!(state.direction, XY::new(0, -1));
    let mut state = state_with_stack(vec![0]);
    state.update(&'_', None, 0);
    assert_eq!(state.direction, XY::new(1, 0));
    assert!(state.stack.is_empty());
    let mut state = state_with_stack(vec![-4]);
    state.update(&'_', None, 0);
    assert_eq!(state.direction, XY::new(-1, 0));
    let mut state = state_with_stack(vec![]);
    state.update(&'|', None, 0);
    assert_eq!(state.direction, XY::new(1, 0));
}

#[test]
fn vertical_program_runs() {
    // Down, push 5, right, print, halt.
    let (out, state) = run("v\n5\n>.@", &[], 20);
    assert_eq!(out, vec![Output::Number(5)]);
    assert!(state.halted);
}

#[test]
fn random_direction_is_cardinal() {
    let cardinal = [
        XY::new(0, -1),
        XY::new(1, 0),
        XY::new(0, 1),
        XY::new(-1, 0),
    ];
    let source = Source::parse("?");
    for _ in 0..50 {
        let mut state = State::initial();
        state.step(None, &source);
        assert!(cardinal.contains(&state.direction));
    }
    for roll in 0..4u8 {
        let mut state = State::initial();
        state.update(&'?', None, roll);
        assert_eq!(
            state.direction,
            CardinalDirections::from_u8(roll).unwrap().to_direction()
        );
    }
}

#[test]
fn step_with_uses_roll() {
    let source = Source::parse("?");
    let mut state = State::initial();
    state.step_with(None, &source, 2);
    assert_eq!(state.direction, XY::new(0, 1));
    assert_eq!(state.position, XY::new(0, 1));
}

#[test]
fn print_character() {
    assert_eq!(run("88*1+,@", &[], 20).0, vec![Output::Character('A')]);
    let mut state = state_with_stack(vec![-1]);
    assert_eq!(state.update(&',', None, 0), Output::Nothing);
    assert!(state.stack.is_empty());
    let mut state = state_with_stack(vec![0xD800]);
    assert_eq!(state.update(&',', None, 0), Output::Nothing);
    let mut state = state_with_stack(vec![0x110000]);
    assert_eq!(state.update(&',', None, 0), Output::Nothing);
    let mut state = state_with_stack(vec![(1 << 32) + 65]);
    assert_eq!(state.update(&',', None, 0), Output::Nothing);
    let mut state = state_with_stack(vec![0x10FFFF]);
    assert_eq!(
        state.update(&',', None, 0),
        Output::Character('\u{10FFFF}')
    );
}

#[test]
fn print_on_empty_stack_is_silent() {
    let mut state = State::initial();
    assert_eq!(state.update(&'.', None, 0), Output::Nothing);
    assert_eq!(state.update(&',', None, 0), Output::Nothing);
    assert_eq!(state.update(&'$', None, 0), Output::Nothing);
    assert!(state.stack.is_empty());
}

#[test]
fn trace_reports_pointer() {
    let (out, state) = run("1;@", &[], 20);
    assert_eq!(out, vec![Output::Trace(XY::new(1, 0), XY::new(1, 0))]);
    assert_eq!(state.stack, vec![1]);
}

#[test]
fn digits_and_unknown_characters() {
    let (out, state) = run("0 9x@", &[], 20);
    assert!(out.is_empty());
    assert_eq!(state.stack, vec![0, 9]);
}

#[test]
fn halting_stays_halted() {
    let source = Source::parse("@1");
    let mut state = State::initial();
    state.step(None, &source);
    assert!(state.halted);
    let before = state.position;
    assert_eq!(state.step(None, &source), Output::Nothing);
    assert_eq!(state.position, before);
    assert!(state.stack.is_empty());
}

#[test]
fn division_by_zero_is_detected() {
    let source = Source::parse("50/@");
    let mut state = State::initial();
    state.step(None, &source);
    state.step(None, &source);
    assert!(state.would_fault(&source));
    let source = Source::parse("50%@");
    let mut state = State::initial();
    state.step(None, &source);
    state.step(None, &source);
    assert!(state.would_fault(&source));
    let source = Source::parse("51/@");
    let mut state = State::initial();
    state.step(None, &source);
    state.step(None, &source);
    assert!(!state.would_fault(&source));
}

#[test]
fn input_request_is_detected() {
    let source = Source::parse("&\"&\"@");
    let mut state = State::initial();
    assert!(state.wants_input(&source));
    state.step(Some("3\n"), &source);
    assert_eq!(state.stack, vec![3]);
    state.step(None, &source);
    assert!(!state.wants_input(&source));
}

#[test]
fn input_lines_parse() {
    assert_eq!(parse_input("42"), 42);
    assert_eq!(parse_input("42\n"), 42);
    assert_eq!(parse_input("-17\n"), -17);
    assert_eq!(parse_input("-17\r\n"), 0);
    assert_eq!(parse_input("42\r"), 0);
    assert_eq!(parse_input("+8\n"), 8);
    assert_eq!(parse_input(""), 0);
    assert_eq!(parse_input("\n"), 0);
    assert_eq!(parse_input("abc\n"), 0);
    assert_eq!(parse_input("4 2"), 0);
    assert_eq!(parse_input(" 42"), 0);
    assert_eq!(parse_input("-"), 0);
    assert_eq!(parse_input("+"), 0);
    assert_eq!(parse_input("--1"), 0);
    assert_eq!(parse_input("99999999999999999999999"), 0);
    assert_eq!(parse_input(&isize::MAX.to_string()), isize::MAX);
    assert_eq!(parse_input(&isize::MIN.to_string()), isize::MIN);
    assert_eq!(parse_input(&format!("{}0", isize::MAX)), 0);
}

#[test]
fn read_failure_pushes_zero() {
    let mut state = State::initial();
    state.update(&'&', None, 0);
    assert_eq!(state.stack, vec![0]);
    let (out, _) = run("&.@", &["x1"], 10);
    assert_eq!(out, vec![Output::Number(0)]);
}

#[test]
fn vector_arithmetic() {
    let a = XY::new(isize::MAX, -3);
    let b = XY::new(1, 1);
    assert_eq!(a.plus(&b), XY::new(isize::MIN, -2));
    assert_eq!(XY::new(7, -7).modulo(&XY::new(3, 3)), XY::new(1, -1));
    assert_eq!(XY::new(7, -7).modulo(&XY::new(-3, -3)), XY::new(1, -1));
    assert_eq!(XY::new(isize::MIN, 5).modulo(&XY::new(7, -5)), XY::new(isize::MIN % 7, 0));
}

#[test]
fn directions_by_index() {
    assert_eq!(CardinalDirections::from_u8(0), Some(CardinalDirections::Up));
    assert_eq!(CardinalDirections::from_u8(1), Some(CardinalDirections::Right));
    assert_eq!(CardinalDirections::from_u8(2), Some(CardinalDirections::Down));
    assert_eq!(CardinalDirections::from_u8(3), Some(CardinalDirections::Left));
    assert_eq!(CardinalDirections::from_u8(4), None);
    assert_eq!(CardinalDirections::Up.to_direction(), XY::new(0, -1));
    assert_eq!(CardinalDirections::Left.to_direction(), XY::new(-1, 0));
}
