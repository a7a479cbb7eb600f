use crate::grid::Source;
use crate::input::{input_value, is_digit, parse_input};
use crate::xy::{direction_of_index, random_index, unit_step, CardinalDirections, Coord, Direction, XY};
use vstd::prelude::*;

verus! {

/// What one step hands to the outside world.
#[derive(Debug, Clone, Copy, PartialEq, Eq)]
pub enum Output {
    /// Nothing to write.
    Nothing,
    /// A number to write in decimal.
    Number(isize),
    /// A character to write.
    Character(char),
    /// A diagnostic dump of the pointer (position, direction) and the stack.
    Trace(Coord, Direction),
}

/// The abstract state of the machine.
pub struct Machine {
    pub position: XY,
    pub direction: XY,
    pub stack: Seq<isize>,
    pub string_mode: bool,
    pub halted: bool,
    pub double_jump: bool,
}

/// The execution state: instruction pointer, stack and flags.
pub struct State {
    pub position: Coord,
    pub direction: Direction,
    pub stack: Vec<isize>,
    pub string_mode: bool,
    pub halted: bool,
    pub double_jump: bool,
}

impl View for State {
    type V = Machine;

    open spec fn view(&self) -> Machine {
        Machine {
            position: self.position,
            direction: self.direction,
            stack: self.stack@,
            string_mode: self.string_mode,
            halted: self.halted,
            double_jump: self.double_jump,
        }
    }
}

pub open spec fn initial_machine() -> Machine {
    Machine {
        position: XY { x: 0, y: 0 },
        direction: XY { x: 1, y: 0 },
        stack: seq![],
        string_mode: false,
        halted: false,
        double_jump: false,
    }
}

pub open spec fn xy_sum(a: XY, b: XY) -> XY {
    XY { x: a.x.wrapping_add(b.x), y: a.y.wrapping_add(b.y) }
}

/// The pointer moves one step along its direction, two where a jump is
/// pending, which is then cleared.
pub open spec fn advance(m: Machine) -> Machine {
    let once = xy_sum(m.position, m.direction);
    if m.double_jump {
        Machine { position: xy_sum(once, m.direction), double_jump: false, ..m }
    } else {
        Machine { position: once, ..m }
    }
}

/// Truncating quotient, wrapping where it overflows.
pub open spec fn quotient(b: isize, a: isize) -> isize {
    match b.checked_div(a) {
        Some(q) => q,
        None => isize::MIN,
    }
}

/// Truncating remainder, 0 where the quotient overflows.
pub open spec fn remainder(b: isize, a: isize) -> isize {
    match b.checked_rem(a) {
        Some(q) => q,
        None => 0,
    }
}

/// `b OP a` for a binary instruction, `a` being the top of the stack.
pub open spec fn dyad_value(c: char, a: isize, b: isize) -> isize {
    if c == '+' {
        b.wrapping_add(a)
    } else if c == '-' {
        b.wrapping_sub(a)
    } else if c == '*' {
        b.wrapping_mul(a)
    } else if c == '/' {
        quotient(b, a)
    } else if c == '%' {
        remainder(b, a)
    } else if b > a {
        1
    } else {
        0
    }
}

pub open spec fn is_dyad(c: char) -> bool {
    c == '+' || c == '-' || c == '*' || c == '/' || c == '%' || c == '`'
}

/// The top two values replaced by `dyad_value`; a shorter stack is kept.
pub open spec fn apply_dyad(s: Seq<isize>, c: char) -> Seq<isize> {
    if s.len() >= 2 {
        s.drop_last().drop_last().push(dyad_value(c, s.last(), s[s.len() - 2]))
    } else {
        s
    }
}

/// The top two values exchanged; a shorter stack is kept.
pub open spec fn swap_top(s: Seq<isize>) -> Seq<isize> {
    if s.len() >= 2 {
        s.drop_last().drop_last().push(s.last()).push(s[s.len() - 2])
    } else {
        s
    }
}

pub open spec fn is_code_point(v: int) -> bool {
    0 <= v <= 0x10FFFF && !(0xD800 <= v <= 0xDFFF)
}

/// The character whose code point is `v`.
pub open spec fn char_with_code(v: int) -> char {
    (v as u32) as char
}

/// What the value that a `&` pushes is, from the line read (`None`: the read
/// failed).
pub open spec fn read_value(input: Option<Seq<char>>) -> isize {
    match input {
        Some(line) => input_value(line),
        None => 0,
    }
}

/// The line that an input option holds.
pub open spec fn line_view(input: Option<&str>) -> Option<Seq<char>> {
    match input {
        Some(l) => Some(l@),
        None => None,
    }
}

/// Whether executing `c` in `m` divides by zero.
pub open spec fn divides_by_zero(m: Machine, c: char) -> bool {
    &&& !m.string_mode
    &&& c == '/' || c == '%'
    &&& m.stack.len() >= 2
    &&& m.stack.last() == 0
}

/// The effect of one instruction on the machine, before the pointer moves.
pub open spec fn update_spec(m: Machine, c: char, input: Option<Seq<char>>, roll: u8) -> (
    Machine,
    Output,
) {
    let s = m.stack;
    if c == '"' {
        (Machine { string_mode: !m.string_mode, ..m }, Output::Nothing)
    } else if m.string_mode {
        (Machine { stack: s.push(c as u32 as isize), ..m }, Output::Nothing)
    } else if c == ';' {
        (m, Output::Trace(m.position, m.direction))
    } else if c == 'v' {
        (Machine { direction: unit_step(CardinalDirections::Down), ..m }, Output::Nothing)
    } else if c == '^' {
        (Machine { direction: unit_step(CardinalDirections::Up), ..m }, Output::Nothing)
    } else if c == '>' {
        (Machine { direction: unit_step(CardinalDirections::Right), ..m }, Output::Nothing)
    } else if c == '<' {
        (Machine { direction: unit_step(CardinalDirections::Left), ..m }, Output::Nothing)
    } else if is_dyad(c) {
        (Machine { stack: apply_dyad(s, c), ..m }, Output::Nothing)
    } else if c == '!' {
        if s.len() > 0 {
            (
                Machine { stack: s.drop_last().push(if s.last() == 0 { 1 } else { 0 }), ..m },
                Output::Nothing,
            )
        } else {
            (m, Output::Nothing)
        }
    } else if c == '\\' {
        (Machine { stack: swap_top(s), ..m }, Output::Nothing)
    } else if c == '$' {
        if s.len() > 0 {
            (Machine { stack: s.drop_last(), ..m }, Output::Nothing)
        } else {
            (m, Output::Nothing)
        }
    } else if c == '?' {
        (
            Machine { direction: unit_step(direction_of_index(roll as int).unwrap()), ..m },
            Output::Nothing,
        )
    } else if c == '|' || c == '_' {
        if s.len() > 0 {
            let d = if c == '|' {
                if s.last() == 0 {
                    CardinalDirections::Down
                } else {
                    CardinalDirections::Up
                }
            } else {
                if s.last() == 0 {
                    CardinalDirections::Right
                } else {
                    CardinalDirections::Left
                }
            };
            (Machine { stack: s.drop_last(), direction: unit_step(d), ..m }, Output::Nothing)
        } else {
            (m, Output::Nothing)
        }
    } else if c == ':' {
        if s.len() > 0 {
            (Machine { stack: s.push(s.last()), ..m }, Output::Nothing)
        } else {
            (m, Output::Nothing)
        }
    } else if c == '.' {
        if s.len() > 0 {
            (Machine { stack: s.drop_last(), ..m }, Output::Number(s.last()))
        } else {
            (m, Output::Nothing)
        }
    } else if c == ',' {
        if s.len() > 0 {
            (
                Machine { stack: s.drop_last(), ..m },
                if is_code_point(s.last() as int) {
                    Output::Character(char_with_code(s.last() as int))
                } else {
                    Output::Nothing
                },
            )
        } else {
            (m, Output::Nothing)
        }
    } else if c == '#' {
        (Machine { double_jump: true, ..m }, Output::Nothing)
    } else if c == '@' {
        (Machine { halted: true, ..m }, Output::Nothing)
    } else if c == '&' {
        (Machine { stack: s.push(read_value(input)), ..m }, Output::Nothing)
    } else if is_digit(c) {
        (Machine { stack: s.push((c as u32 - '0' as u32) as isize), ..m }, Output::Nothing)
    } else {
        (m, Output::Nothing)
    }
}

/// One step: a halted machine stays as it is; a failed lookup halts; else the
/// instruction under the pointer runs and the pointer moves.
pub open spec fn step_spec(m: Machine, source: Source, input: Option<Seq<char>>, roll: u8) -> (
    Machine,
    Output,
) {
    if m.halted {
        (m, Output::Nothing)
    } else {
        match source.lookup_spec(m.position.x as int, m.position.y as int) {
            None => (Machine { halted: true, ..m }, Output::Nothing),
            Some(c) => {
                let r = update_spec(m, c, input, roll);
                (advance(r.0), r.1)
            },
        }
    }
}

/// Whether the next step of `m` divides by zero.
pub open spec fn step_faults(m: Machine, source: Source) -> bool {
    &&& !m.halted
    &&& source.lookup_spec(m.position.x as int, m.position.y as int) matches Some(c)
    &&& divides_by_zero(m, c)
}

impl State {
    pub fn initial() -> (r: State)
        ensures
            r@ == initial_machine(),
    {
        State {
            position: XY::new(0, 0),
            direction: XY::new(1, 0),
            stack: Vec::new(),
            string_mode: false,
            halted: false,
            double_jump: false,
        }
    }

    pub fn move_pointer(&mut self)
        ensures
            final(self)@ == advance(old(self)@),
    {
        self.position = self.position.plus(&self.direction);
        if self.double_jump {
            self.double_jump = false;
            self.position = self.position.plus(&self.direction);
        }
    }

    /// The instruction under the pointer; `None` once halted or where the
    /// lookup fails.
    pub fn next_instruction(&self, source: &Source) -> (r: Option<char>)
        requires
            source.wf(),
        ensures
            r == (if self.halted {
                None
            } else {
                source.lookup_spec(self.position.x as int, self.position.y as int)
            }),
    {
        if self.halted {
            None
        } else {
            source.lookup(&self.position)
        }
    }

    /// Whether the next step reads a line of input.
    pub fn wants_input(&self, source: &Source) -> (r: bool)
        requires
            source.wf(),
        ensures
            r == (!self.halted && !self.string_mode && source.lookup_spec(
                self.position.x as int,
                self.position.y as int,
            ) == Some('&')),
    {
        match self.next_instruction(source) {
            Some(c) => !self.string_mode && c == '&',
            None => false,
        }
    }

    /// Whether the next step divides by zero.
    pub fn would_fault(&self, source: &Source) -> (r: bool)
        requires
            source.wf(),
        ensures
            r == step_faults(self@, *source),
    {
        match self.next_instruction(source) {
            Some(c) => !self.string_mode && (c == '/' || c == '%') && self.stack.len() >= 2
                && self.stack[self.stack.len() - 1] == 0,
            None => false,
        }
    }

    /// One step, with `roll` picking the direction that a `?` takes.
    pub fn step_with(&mut self, input: Option<&str>, source: &Source, roll: u8) -> (out: Output)
        requires
            source.wf(),
            roll < 4,
            !step_faults(old(self)@, *source),
        ensures
            (final(self)@, out) == step_spec(old(self)@, *source, line_view(input), roll),
    {
        if self.halted {
            return Output::Nothing;
        }
        match source.lookup(&self.position) {
            None => {
                self.halted = true;
                Output::Nothing
            },
            Some(instr) => {
                let out = self.update(&instr, input, roll);
                self.move_pointer();
                out
            },
        }
    }

    /// One step; a `?` takes a direction drawn at random.
    pub fn step(&mut self, input: Option<&str>, source: &Source) -> (out: Output)
        requires
            source.wf(),
            !step_faults(old(self)@, *source),
        ensures
            exists|roll: u8|
                roll < 4 && (final(self)@, out) == #[trigger] step_spec(
                    old(self)@,
                    *source,
                    line_view(input),
                    roll,
                ),
    {
        let draws: bool = match self.next_instruction(source) {
            Some(c) => !self.string_mode && c == '?',
            None => false,
        };
        let roll: u8 = if draws {
            random_index()
        } else {
            0
        };
        let out = self.step_with(input, source, roll);
        assert((self@, out) == step_spec(old(self)@, *source, line_view(input), roll));
        out
    }

    /// Runs instruction `c`: `input` is the line that a `&` reads (`None`
    /// where reading failed), `roll` picks the direction that a `?` takes.
    pub fn update(&mut self, c: &char, input: Option<&str>, roll: u8) -> (out: Output)
        requires
            roll < 4,
            !divides_by_zero(old(self)@, *c),
        ensures
            (final(self)@, out) == update_spec(old(self)@, *c, line_view(input), roll),
    {
        let c: char = *c;
        let ghost s = self.stack@;
        if c == '"' {
            self.string_mode = !self.string_mode;
            return Output::Nothing;
        }
        if self.string_mode {
            self.stack.push(c as u32 as isize);
            return Output::Nothing;
        }
        match c {
            ';' => {
                return Output::Trace(self.position, self.direction);
            },
            'v' => {
                self.direction = CardinalDirections::Down.to_direction();
            },
            '^' => {
                self.direction = CardinalDirections::Up.to_direction();
            },
            '>' => {
                self.direction = CardinalDirections::Right.to_direction();
            },
            '<' => {
                self.direction = CardinalDirections::Left.to_direction();
            },
            '+' => {
                self.stack_2to1(sum);
                proof {
                    self.lemma_dyad_stack(s, c);
                }
            },
            '-' => {
                self.stack_2to1(difference);
                proof {
                    self.lemma_dyad_stack(s, c);
                }
            },
            '*' => {
                self.stack_2to1(product);
                proof {
                    self.lemma_dyad_stack(s, c);
                }
            },
            '/' => {
                self.stack_2to1(divided);
                proof {
                    self.lemma_dyad_stack(s, c);
                }
            },
            '%' => {
                self.stack_2to1(modulus);
                proof {
                    self.lemma_dyad_stack(s, c);
                }
            },
            '`' => {
                self.stack_2to1(greater);
                proof {
                    self.lemma_dyad_stack(s, c);
                }
            },
            '!' => {
                self.stack_1to1(negation);
                proof {
                    if s.len() > 0 {
                        assert(self.stack@ == s.drop_last().push(self.stack@.last()));
                    }
                }
            },
            '\\' => {
                self.stack_2to2(swapped);
                proof {
                    if s.len() >= 2 {
                        let t = self.stack@;
                        assert(t == t.drop_last().drop_last().push(t[t.len() - 2]).push(t.last()));
                        assert(t == swap_top(s));
                    }
                }
            },
            '$' => {
                self.stack.pop();
            },
            '?' => {
                let d = CardinalDirections::from_u8(roll);
                match d {
                    Some(d) => {
                        self.direction = d.to_direction();
                    },
                    None => {},
                }
            },
            '|' => {
                if let Some(top) = self.stack.pop() {
                    if top == 0 {
                        self.direction = CardinalDirections::Down.to_direction();
                    } else {
                        self.direction = CardinalDirections::Up.to_direction();
                    }
                }
            },
            '_' => {
                if let Some(top) = self.stack.pop() {
                    if top == 0 {
                        self.direction = CardinalDirections::Right.to_direction();
                    } else {
                        self.direction = CardinalDirections::Left.to_direction();
                    }
                }
            },
            ':' => {
                if let Some(top) = self.stack.pop() {
                    self.stack.push(top);
                    self.stack.push(top);
                    assert(self.stack@ == s.push(s.last()));
                }
            },
            '.' => {
                if let Some(top) = self.stack.pop() {
                    return Output::Number(top);
                }
            },
            ',' => {
                if let Some(top) = self.stack.pop() {
                    if 0 <= top && top <= 0x10FFFF {
                        if let Some(ch) = char_from_code(top as u32) {
                            proof {
                                vstd::utf8::char_u32_cast(ch, top as u32);
                            }
                            return Output::Character(ch);
                        }
                    }
                }
            },
            '#' => {
                self.double_jump = true;
            },
            '@' => {
                self.halted = true;
            },
            '&' => {
                let v: isize = match input {
                    Some(line) => parse_input(line),
                    None => 0,
                };
                self.stack.push(v);
            },
            _ => {
                if '0' <= c && c <= '9' {
                    self.stack.push((c as u32 - '0' as u32) as isize);
                }
            },
        }
        Output::Nothing
    }

    proof fn lemma_dyad_stack(&self, s: Seq<isize>, c: char)
        requires
            is_dyad(c),
            s.len() < 2 ==> self.stack@ == s,
            s.len() >= 2 ==> {
                &&& self.stack@.drop_last() == s.drop_last().drop_last()
                &&& self.stack@.len() == s.len() - 1
                &&& self.stack@.last() == dyad_value(c, s.last(), s[s.len() - 2])
            },
        ensures
            self.stack@ == apply_dyad(s, c),
    {
        if s.len() >= 2 {
            assert(self.stack@ == self.stack@.drop_last().push(self.stack@.last()));
        }
    }

    /// Pops `a`, then `b`, and pushes `dyad(a, b)`; a lone value is put
    /// back, an empty stack is kept.
    pub fn stack_2to1<F: FnOnce(isize, isize) -> isize>(&mut self, dyad: F)
        requires
            old(self).stack@.len() >= 2 ==> dyad.requires(
                (old(self).stack@.last(), old(self).stack@[old(self).stack@.len() - 2]),
            ),
        ensures
            final(self)@ == (Machine { stack: final(self).stack@, ..old(self)@ }),
            old(self).stack@.len() < 2 ==> final(self).stack@ == old(self).stack@,
            old(self).stack@.len() >= 2 ==> {
                &&& final(self).stack@.drop_last() == old(self).stack@.drop_last().drop_last()
                &&& final(self).stack@.len() == old(self).stack@.len() - 1
                &&& dyad.ensures(
                    (old(self).stack@.last(), old(self).stack@[old(self).stack@.len() - 2]),
                    final(self).stack@.last(),
                )
            },
    {
        if let Some(arg1) = self.stack.pop() {
            if let Some(arg2) = self.stack.pop() {
                let r = dyad(arg1, arg2);
                self.stack.push(r);
            } else {
                self.stack.push(arg1);
            }
        }
    }

    /// Pops `a`, then `b`, and pushes the two values of `dyad(a, b)`, the
    /// first one last; a lone value is put back, an empty stack is kept.
    pub fn stack_2to2<F: FnOnce(isize, isize) -> (isize, isize)>(&mut self, dyad: F)
        requires
            old(self).stack@.len() >= 2 ==> dyad.requires(
                (old(self).stack@.last(), old(self).stack@[old(self).stack@.len() - 2]),
            ),
        ensures
            final(self)@ == (Machine { stack: final(self).stack@, ..old(self)@ }),
            old(self).stack@.len() < 2 ==> final(self).stack@ == old(self).stack@,
            old(self).stack@.len() >= 2 ==> {
                &&& final(self).stack@.drop_last().drop_last()
                    == old(self).stack@.drop_last().drop_last()
                &&& final(self).stack@.len() == old(self).stack@.len()
                &&& dyad.ensures(
                    (old(self).stack@.last(), old(self).stack@[old(self).stack@.len() - 2]),
                    (final(self).stack@.last(), final(self).stack@[final(self).stack@.len() - 2]),
                )
            },
    {
        if let Some(arg1) = self.stack.pop() {
            if let Some(arg2) = self.stack.pop() {
                let (out1, out2) = dyad(arg1, arg2);
                self.stack.push(out2);
                self.stack.push(out1);
            } else {
                self.stack.push(arg1);
            }
        }
    }

    /// Pops `a` and pushes `monad(a)`; an empty stack is kept.
    pub fn stack_1to1<F: FnOnce(isize) -> isize>(&mut self, monad: F)
        requires
            old(self).stack@.len() >= 1 ==> monad.requires((old(self).stack@.last(),)),
        ensures
            final(self)@ == (Machine { stack: final(self).stack@, ..old(self)@ }),
            old(self).stack@.len() == 0 ==> final(self).stack@ == old(self).stack@,
            old(self).stack@.len() >= 1 ==> {
                &&& final(self).stack@.drop_last() == old(self).stack@.drop_last()
                &&& final(self).stack@.len() == old(self).stack@.len()
                &&& monad.ensures((old(self).stack@.last(),), final(self).stack@.last())
            },
    {
        if let Some(arg1) = self.stack.pop() {
            let r = monad(arg1);
            self.stack.push(r);
        }
    }
}

/// `y + x`, wrapping.
fn sum(x: isize, y: isize) -> (r: isize)
    ensures
        r == dyad_value('+', x, y),
{
    y.wrapping_add(x)
}

/// `y - x`, wrapping.
fn difference(x: isize, y: isize) -> (r: isize)
    ensures
        r == dyad_value('-', x, y),
{
    y.wrapping_sub(x)
}

/// `y * x`, wrapping.
fn product(x: isize, y: isize) -> (r: isize)
    ensures
        r == dyad_value('*', x, y),
{
    y.wrapping_mul(x)
}

/// `y / x`, truncating and wrapping.
fn divided(x: isize, y: isize) -> (r: isize)
    requires
        x != 0,
    ensures
        r == dyad_value('/', x, y),
{
    match y.checked_div(x) {
        Some(q) => q,
        None => isize::MIN,
    }
}

/// `y % x`, truncating.
fn modulus(x: isize, y: isize) -> (r: isize)
    requires
        x != 0,
    ensures
        r == dyad_value('%', x, y),
{
    match y.checked_rem(x) {
        Some(q) => q,
        None => 0,
    }
}

/// 1 where `y > x`, else 0.
fn greater(x: isize, y: isize) -> (r: isize)
    ensures
        r == dyad_value('`', x, y),
{
    if y > x {
        1
    } else {
        0
    }
}

/// 1 where `x == 0`, else 0.
fn negation(x: isize) -> (r: isize)
    ensures
        r == (if x == 0 {
            1isize
        } else {
            0isize
        }),
{
    if x == 0 {
        1
    } else {
        0
    }
}

/// The pair exchanged.
fn swapped(x: isize, y: isize) -> (r: (isize, isize))
    ensures
        r == (y, x),
{
    (y, x)
}

/// Relies on `char::from_u32`: the character with that code point, `None`
/// for a surrogate or a value past `0x10FFFF`.
#[verifier::external_body]
fn char_from_code(v: u32) -> (r: Option<char>)
    ensures
        r is Some <==> is_code_point(v as int),
        r matches Some(c) ==> c as u32 == v,
{
    char::from_u32(v)
}

/// A binary instruction or a swap leaves a stack of fewer than two values
/// (and the rest of the machine) as it was.
pub proof fn lemma_short_stack_unchanged(m: Machine, c: char, input: Option<Seq<char>>, roll: u8)
    requires
        !m.string_mode,
        is_dyad(c) || c == '\\',
        m.stack.len() <= 1,
    ensures
        update_spec(m, c, input, roll).0 == m,
        update_spec(m, c, input, roll).0.stack == m.stack,
{
}

/// On a stack holding one value `a`, `:` gives `[a, a]` and a following `$`
/// gives `[a]` back.
pub proof fn lemma_dup_then_drop(m: Machine, input: Option<Seq<char>>, roll: u8, a: isize)
    requires
        !m.string_mode,
        m.stack == seq![a],
    ensures
        update_spec(m, ':', input, roll).0.stack == seq![a, a],
        update_spec(update_spec(m, ':', input, roll).0, '$', input, roll).0.stack == seq![a],
{
    assert(seq![a].push(a) == seq![a, a]);
    assert(seq![a, a].drop_last() == seq![a]);
}

/// `"AB"` pushes the code points of `A` and then `B`, and the closing quote
/// pushes nothing and leaves string mode.
pub proof fn lemma_string_mode_round_trip(m: Machine, input: Option<Seq<char>>, roll: u8)
    requires
        !m.string_mode,
    ensures
        ({
            let m1 = update_spec(m, '"', input, roll).0;
            let m2 = update_spec(m1, 'A', input, roll).0;
            let m3 = update_spec(m2, 'B', input, roll).0;
            let m4 = update_spec(m3, '"', input, roll).0;
            &&& m4.stack == m.stack.push(65).push(66)
            &&& m4.stack.last() == 66
            &&& !m4.string_mode
            &&& m4.stack.len() == m.stack.len() + 2
        }),
{
}

} // verus!
