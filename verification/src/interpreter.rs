use vstd::prelude::*;
use rand::Rng;
use crate::arith::{
    checked_difference, checked_product, checked_quotient, checked_remainder, checked_sum,
    divided, fitted, low_byte, low_byte_of, reduced,
};
use crate::decimal::{decimal, digit_value, is_digit, parse_decimal, parsed, write_decimal};
use crate::error::ExecutionError;
use crate::grid::{canvas, cell, in_bounds, text_of, with_cell, Grid, COLS, ROWS};
use crate::input::{after_line, first_line, holds_line, Input};
use crate::pointer::{Cursor, Direction, Pointer};
use crate::stack::{below, char_of, peeked, to_char, top, Stack};

verus! {

/// All that a program in execution consists of.
pub struct State {
    /// The canvas, row by row.
    pub grid: Seq<char>,
    /// Where the cursor stands and where it is heading.
    pub cursor: Cursor,
    /// The stack, bottom first.
    pub stack: Seq<i32>,
    /// Whether cells are pushed as characters, not obeyed as commands.
    pub string_mode: bool,
    /// Whether the program has not halted.
    pub running: bool,
    /// The characters that the program can still read.
    pub input: Seq<char>,
    /// The characters that the program has written.
    pub output: Seq<char>,
}

/// The state that a step leaves, and whether the step succeeded.
pub struct Outcome {
    pub state: State,
    pub result: Result<(), ExecutionError>,
}

impl State {
    /// The state of a program that is about to start on `grid`.
    pub open spec fn initial(grid: Seq<char>) -> State {
        State {
            grid,
            cursor: Cursor {
                row: 0,
                col: 0,
                direction: Direction::Right,
                rows: ROWS as int,
                cols: COLS as int,
            },
            stack: Seq::empty(),
            string_mode: false,
            running: true,
            input: Seq::empty(),
            output: Seq::empty(),
        }
    }

    /// The canvas is whole and the cursor stands on one of its cells.
    pub open spec fn wf(self) -> bool {
        &&& self.grid.len() == ROWS * COLS
        &&& self.cursor.wf()
        &&& self.cursor.rows == ROWS
        &&& self.cursor.cols == COLS
    }

    /// The character under the cursor.
    pub open spec fn fetch(self) -> char {
        cell(self.grid, self.cursor.row, self.cursor.col)
    }

    /// This state, reached without error.
    pub open spec fn done(self) -> Outcome {
        Outcome { state: self, result: Ok(()) }
    }

    /// This state, in which `error` stopped the step.
    pub open spec fn failed(self, error: ExecutionError) -> Outcome {
        Outcome { state: self, result: Err(error) }
    }

    /// This state with another stack.
    pub open spec fn with_stack(self, stack: Seq<i32>) -> State {
        State { stack, ..self }
    }

    /// This state with the cursor facing `direction`.
    pub open spec fn heading(self, direction: Direction) -> State {
        State { cursor: self.cursor.turn(direction), ..self }
    }

    /// This state with the cursor one cell further.
    pub open spec fn advanced(self) -> State {
        State { cursor: self.cursor.advance(), ..self }
    }
}

/// Whether `command` is a character that the language gives a meaning to.
pub open spec fn is_command(command: char) -> bool {
    ||| is_digit(command)
    ||| command == '+' || command == '-' || command == '*' || command == '/' || command == '%'
    ||| command == '!' || command == '`'
    ||| command == '>' || command == '<' || command == '^' || command == 'v' || command == '?'
    ||| command == '_' || command == '|'
    ||| command == '"' || command == ':' || command == '\\' || command == '$'
    ||| command == '.' || command == ','
    ||| command == '#' || command == 'p' || command == 'g'
    ||| command == '&' || command == '~'
    ||| command == '@' || command == ' '
}

/// The outcome of a command that takes two values off the stack of `s` and
/// puts back `value`, or fails.
pub open spec fn replaced_two(s: State, value: Result<i32, ExecutionError>) -> Outcome {
    match value {
        Ok(v) => s.with_stack(below(below(s.stack)).push(v)).done(),
        Err(e) => s.failed(e),
    }
}

/// What obeying `command` makes of `s`. Values leave the stack top first:
/// below, `a` is the first that a command pops, `b` the second and `c` the
/// third. `drawn` is the heading that `?` takes; no other command looks at it.
/// A command that fails changes nothing: the values and the input that made
/// it fail are still there.
pub open spec fn after_command(s: State, command: char, drawn: Direction) -> Outcome {
    let a = top(s.stack);
    let one_off = below(s.stack);
    let b = top(one_off);
    let two_off = below(one_off);
    let c = top(two_off);
    let three_off = below(two_off);
    if is_digit(command) {
        s.with_stack(s.stack.push(digit_value(command) as i32)).done()
    } else if command == '+' {
        replaced_two(s, fitted(a + b))
    } else if command == '-' {
        replaced_two(s, fitted(b - a))
    } else if command == '*' {
        replaced_two(s, fitted(a * b))
    } else if command == '/' {
        replaced_two(s, divided(b as int, a as int))
    } else if command == '%' {
        replaced_two(s, reduced(b as int, a as int))
    } else if command == '!' {
        s.with_stack(one_off.push(if a == 0 { 1i32 } else { 0i32 })).done()
    } else if command == '`' {
        s.with_stack(two_off.push(if b > a { 1i32 } else { 0i32 })).done()
    } else if command == '>' {
        s.heading(Direction::Right).done()
    } else if command == '<' {
        s.heading(Direction::Left).done()
    } else if command == '^' {
        s.heading(Direction::Up).done()
    } else if command == 'v' {
        s.heading(Direction::Down).done()
    } else if command == '?' {
        s.heading(drawn).done()
    } else if command == '_' {
        s.with_stack(one_off).heading(if a == 0 { Direction::Right } else { Direction::Left }).done()
    } else if command == '|' {
        s.with_stack(one_off).heading(if a == 0 { Direction::Down } else { Direction::Up }).done()
    } else if command == '"' {
        (State { string_mode: true, ..s }).done()
    } else if command == ':' {
        s.with_stack(one_off.push(a).push(a)).done()
    } else if command == '\\' {
        s.with_stack(two_off.push(a).push(b)).done()
    } else if command == '$' {
        s.with_stack(one_off).done()
    } else if command == '.' {
        (State { stack: one_off, output: s.output + decimal(a as int) + seq![' '], ..s }).done()
    } else if command == ',' {
        match char_of(a) {
            Ok(written) => (State { stack: one_off, output: s.output.push(written), ..s }).done(),
            Err(e) => s.failed(e),
        }
    } else if command == '#' {
        s.advanced().done()
    } else if command == 'p' {
        (State {
            stack: three_off,
            grid: with_cell(s.grid, b as int, a as int, low_byte(c as int)),
            ..s
        }).done()
    } else if command == 'g' {
        s.with_stack(two_off.push(cell(s.grid, b as int, a as int) as i32)).done()
    } else if command == '&' {
        match parsed(first_line(s.input)) {
            Some(value) => (State {
                stack: s.stack.push(value),
                input: after_line(s.input),
                ..s
            }).done(),
            None => s.failed(ExecutionError::InputParseError),
        }
    } else if command == '~' {
        if s.input.len() > 0 {
            (State { stack: s.stack.push(s.input[0] as i32), input: s.input.drop_first(), ..s }).done()
        } else {
            s.failed(ExecutionError::InputExhausted)
        }
    } else if command == '@' {
        (State { running: false, ..s }).done()
    } else if command == ' ' {
        s.done()
    } else {
        s.failed(ExecutionError::UnknownCommand(command))
    }
}

/// What string mode makes of `s` and the character under the cursor: the
/// quote ends string mode, every other character is pushed.
pub open spec fn after_character(s: State, character: char) -> State {
    if character == '"' {
        State { string_mode: false, ..s }
    } else {
        s.with_stack(s.stack.push(character as i32))
    }
}

/// One step of the program: the cell under the cursor is pushed or obeyed,
/// and the cursor moves on. A step that fails changes nothing, so the cursor
/// stays on the cell that failed. A program that has halted takes no step.
pub open spec fn step(s: State, drawn: Direction) -> Outcome {
    if !s.running {
        s.failed(ExecutionError::NotRunning)
    } else if s.string_mode {
        after_character(s, s.fetch()).advanced().done()
    } else {
        let obeyed = after_command(s, s.fetch(), drawn);
        if obeyed.result is Ok {
            obeyed.state.advanced().done()
        } else {
            obeyed
        }
    }
}

/// Whether the next step would read more input than `s` holds: a line for
/// `&`, a character for `~`.
pub open spec fn awaits_input(s: State) -> bool {
    &&& s.running
    &&& !s.string_mode
    &&& (s.fetch() == '&' && !holds_line(s.input)) || (s.fetch() == '~' && s.input.len() == 0)
}

/// Trusted: `rand::Rng::gen_range` on the generator that `rand::thread_rng`
/// returns, asked for a number from `0` up to and not including `4`. The
/// range sampler of `rand` returns `low` plus a number below `high - low`,
/// so the result is below `4`; which number it is, is left open. The call
/// panics where the operating system gives the generator no seed.
#[verifier::external_body]
fn random_index() -> (index: u32)
    ensures
        index < 4,
{
    rand::thread_rng().gen_range(0u32, 4u32)
}

/// A program in execution. The view is its [`State`].
#[derive(Debug)]
pub struct Interpreter {
    /// The canvas that holds the program.
    pub source_matrix: Grid,
    /// The cursor.
    pub pointer: Pointer,
    /// The stack.
    pub stack: Stack,
    /// Whether the program has not halted.
    pub running: bool,
    /// Whether cells are pushed as characters, not obeyed as commands.
    pub string_mode: bool,
    /// What the program can still read.
    pub stdin: Input,
    /// What the program has written and nobody has taken yet.
    pub stdout: Vec<char>,
}

impl View for Interpreter {
    type V = State;

    open spec fn view(&self) -> State {
        State {
            grid: self.source_matrix@,
            cursor: self.pointer@,
            stack: self.stack@,
            string_mode: self.string_mode,
            running: self.running,
            input: self.stdin@,
            output: self.stdout@,
        }
    }
}

impl Interpreter {
    /// The canvas is whole and the cursor stands on one of its cells.
    pub open spec fn wf(&self) -> bool {
        self@.wf()
    }

    /// Loads the program text `source`, one line to a row of the canvas, and
    /// puts the cursor on the top left cell, facing right.
    pub fn new(source: &Vec<String>) -> (r: Self)
        ensures
            r.wf(),
            r@ == State::initial(canvas(text_of(source@))),
    {
        Interpreter {
            source_matrix: Grid::new(source),
            pointer: Pointer::default(),
            stack: Stack::default(),
            running: true,
            string_mode: false,
            stdin: Input::default(),
            stdout: Vec::new(),
        }
    }

    /// Whether the program has halted.
    pub fn program_ended(&self) -> (r: bool)
        ensures
            r == !self@.running,
    {
        !self.running
    }

    /// Takes one step. The outcome is that of [`step`], with the heading
    /// that `?` drew, if it drew one, being the one the cursor now has.
    pub fn execute(&mut self) -> (r: Result<(), ExecutionError>)
        requires
            old(self).wf(),
        ensures
            final(self).wf(),
            step(old(self)@, final(self)@.cursor.direction) == (Outcome {
                state: final(self)@,
                result: r,
            }),
            r is Err ==> final(self)@ == old(self)@,
    {
        if !self.running {
            return Err(ExecutionError::NotRunning);
        }
        let (x, y) = self.pointer.coordinates();
        let command: char = self.source_matrix.get(x, y);
        if self.string_mode {
            self.string_mode_execution(command);
        } else {
            match self.command_execution(command) {
                Ok(()) => {},
                Err(e) => {
                    return Err(e);
                },
            }
        }
        self.pointer.increase();
        Ok(())
    }

    /// Takes `character` as string mode does.
    pub fn string_mode_execution(&mut self, character: char)
        ensures
            final(self)@ == after_character(old(self)@, character),
    {
        if character == '"' {
            self.string_mode = false;
        } else {
            self.stack.push_char(character);
        }
    }

    /// Obeys `command`. The outcome is that of [`after_command`], with the
    /// heading that `?` drew being the one the cursor now has.
    pub fn command_execution(&mut self, command: char) -> (r: Result<(), ExecutionError>)
        requires
            old(self).wf(),
        ensures
            final(self).wf(),
            after_command(old(self)@, command, final(self)@.cursor.direction) == (Outcome {
                state: final(self)@,
                result: r,
            }),
            r is Err ==> final(self)@ == old(self)@,
    {
        proof {
            reveal_with_fuel(peeked, 3);
        }
        match command {
            '0' | '1' | '2' | '3' | '4' | '5' | '6' | '7' | '8' | '9' => {
                self.stack.push((command as u32 - 48) as i32);
            },
            '+' => {
                let a: i32 = self.stack.peek(0);
                let b: i32 = self.stack.peek(1);
                match checked_sum(a, b) {
                    Ok(v) => self.replace_two(v),
                    Err(e) => {
                        return Err(e);
                    },
                }
            },
            '-' => {
                let a: i32 = self.stack.peek(0);
                let b: i32 = self.stack.peek(1);
                match checked_difference(b, a) {
                    Ok(v) => self.replace_two(v),
                    Err(e) => {
                        return Err(e);
                    },
                }
            },
            '*' => {
                let a: i32 = self.stack.peek(0);
                let b: i32 = self.stack.peek(1);
                match checked_product(a, b) {
                    Ok(v) => self.replace_two(v),
                    Err(e) => {
                        return Err(e);
                    },
                }
            },
            '/' => {
                let a: i32 = self.stack.peek(0);
                let b: i32 = self.stack.peek(1);
                match checked_quotient(b, a) {
                    Ok(v) => self.replace_two(v),
                    Err(e) => {
                        return Err(e);
                    },
                }
            },
            '%' => {
                let a: i32 = self.stack.peek(0);
                let b: i32 = self.stack.peek(1);
                match checked_remainder(b, a) {
                    Ok(v) => self.replace_two(v),
                    Err(e) => {
                        return Err(e);
                    },
                }
            },
            '!' => {
                let a: i32 = self.stack.pop();
                if a == 0 {
                    self.stack.push(1);
                } else {
                    self.stack.push(0);
                }
            },
            '`' => {
                let a: i32 = self.stack.pop();
                let b: i32 = self.stack.pop();
                if b > a {
                    self.stack.push(1);
                } else {
                    self.stack.push(0);
                }
            },
            '>' => {
                self.pointer.set_direction(Direction::Right);
            },
            '<' => {
                self.pointer.set_direction(Direction::Left);
            },
            '^' => {
                self.pointer.set_direction(Direction::Up);
            },
            'v' => {
                self.pointer.set_direction(Direction::Down);
            },
            '?' => {
                let drawn: u32 = random_index();
                self.pointer.set_direction(Direction::from_index(drawn));
            },
            '_' => {
                let condition: i32 = self.stack.pop();
                if condition == 0 {
                    self.pointer.set_direction(Direction::Right);
                } else {
                    self.pointer.set_direction(Direction::Left);
                }
            },
            '|' => {
                let condition: i32 = self.stack.pop();
                if condition == 0 {
                    self.pointer.set_direction(Direction::Down);
                } else {
                    self.pointer.set_direction(Direction::Up);
                }
            },
            '"' => {
                self.string_mode = true;
            },
            ':' => {
                let value: i32 = self.stack.pop();
                self.stack.push(value);
                self.stack.push(value);
            },
            '\\' => {
                let a: i32 = self.stack.pop();
                let b: i32 = self.stack.pop();
                self.stack.push(a);
                self.stack.push(b);
            },
            '$' => {
                let _value: i32 = self.stack.pop();
            },
            '.' => {
                let value: i32 = self.stack.pop();
                write_decimal(value, &mut self.stdout);
                self.stdout.push(' ');
                assert(self.stdout@ =~= old(self).stdout@ + decimal(value as int) + seq![' ']);
            },
            ',' => {
                match to_char(self.stack.peek(0)) {
                    Ok(character) => {
                        let _code: i32 = self.stack.pop();
                        self.stdout.push(character);
                    },
                    Err(e) => {
                        return Err(e);
                    },
                }
            },
            '#' => {
                self.pointer.increase();
            },
            'p' => {
                let y: i32 = self.stack.pop();
                let x: i32 = self.stack.pop();
                let v: i32 = self.stack.pop();
                self.source_matrix.put(x, y, low_byte_of(v));
            },
            'g' => {
                let y: i32 = self.stack.pop();
                let x: i32 = self.stack.pop();
                let read: char = self.source_matrix.get(x, y);
                self.stack.push_char(read);
            },
            '&' => {
                let line: Vec<char> = self.stdin.peek_line();
                match parse_decimal(&line) {
                    Some(value) => {
                        self.stdin.skip_line();
                        self.stack.push(value);
                    },
                    None => {
                        return Err(ExecutionError::InputParseError);
                    },
                }
            },
            '~' => {
                match self.stdin.read_char() {
                    Some(read) => self.stack.push_char(read),
                    None => {
                        return Err(ExecutionError::InputExhausted);
                    },
                }
            },
            '@' => {
                self.running = false;
            },
            ' ' => {},
            _ => {
                return Err(ExecutionError::UnknownCommand(command));
            },
        }
        Ok(())
    }

    /// Takes two values off the stack and puts `value` there.
    fn replace_two(&mut self, value: i32)
        ensures
            final(self)@ == old(self)@.with_stack(below(below(old(self)@.stack)).push(value)),
    {
        let _a: i32 = self.stack.pop();
        let _b: i32 = self.stack.pop();
        self.stack.push(value);
    }

    /// Whether the next step would read more input than is waiting: before
    /// such a step the caller can fetch more and feed it to `stdin`.
    pub fn awaits_input(&self) -> (r: bool)
        requires
            self.wf(),
        ensures
            r == awaits_input(self@),
    {
        if !self.running || self.string_mode {
            return false;
        }
        let (x, y) = self.pointer.coordinates();
        let command: char = self.source_matrix.get(x, y);
        if command == '&' {
            !self.stdin.holds_line()
        } else if command == '~' {
            self.stdin.is_empty()
        } else {
            false
        }
    }

    /// Hands over what the program has written since the last call, and
    /// starts collecting afresh.
    pub fn take_output(&mut self) -> (written: Vec<char>)
        ensures
            written@ == old(self)@.output,
            final(self)@ == (State { output: Seq::empty(), ..old(self)@ }),
    {
        let mut written: Vec<char> = Vec::new();
        std::mem::swap(&mut written, &mut self.stdout);
        written
    }
}

/// With `a` and `b` on top of the stack, `b` uppermost, `:` leaves `a`, `b`, `b`.
pub proof fn lemma_duplicate(s: State, rest: Seq<i32>, a: i32, b: i32, drawn: Direction)
    requires
        s.stack == rest.push(a).push(b),
    ensures
        after_command(s, ':', drawn) == s.with_stack(rest.push(a).push(b).push(b)).done(),
{
    assert(below(s.stack) =~= rest.push(a));
}

/// With `a` and `b` on top of the stack, `b` uppermost, `\` leaves `b`, `a`.
pub proof fn lemma_swap(s: State, rest: Seq<i32>, a: i32, b: i32, drawn: Direction)
    requires
        s.stack == rest.push(a).push(b),
    ensures
        after_command(s, '\\', drawn) == s.with_stack(rest.push(b).push(a)).done(),
{
    assert(below(s.stack) =~= rest.push(a));
    assert(below(below(s.stack)) =~= rest);
}

/// `g` with coordinates outside the canvas pushes `0`, however far outside
/// they are and whatever their sign.
pub proof fn lemma_get_outside(s: State, rest: Seq<i32>, x: i32, y: i32, drawn: Direction)
    requires
        s.stack == rest.push(x).push(y),
        !in_bounds(x as int, y as int),
    ensures
        after_command(s, 'g', drawn) == s.with_stack(rest.push(0i32)).done(),
{
    assert(below(s.stack) =~= rest.push(x));
    assert(below(below(s.stack)) =~= rest);
}

/// What `p` writes into a cell of the canvas, `g` reads back from it: with
/// `v`, `x`, `y` on the stack, `p` leaves the lowest eight bits of `v` in
/// cell `(x, y)`, and `g` with `x`, `y` on the stack then pushes them.
pub proof fn lemma_put_then_get(s: State, rest: Seq<i32>, v: i32, x: i32, y: i32, drawn: Direction)
    requires
        s.wf(),
        s.stack == rest.push(v).push(x).push(y),
        in_bounds(x as int, y as int),
    ensures
        after_command(s, 'p', drawn).result is Ok,
        after_command(s, 'p', drawn).state.stack == rest,
        after_command(
            after_command(s, 'p', drawn).state.with_stack(rest.push(x).push(y)),
            'g',
            drawn,
        ) == after_command(s, 'p', drawn).state.with_stack(rest.push(low_byte(v as int) as i32)).done(),
        0 <= v < 256 ==> low_byte(v as int) == v,
{
    assert(below(s.stack) =~= rest.push(v).push(x));
    assert(below(below(s.stack)) =~= rest.push(v));
    assert(below(below(below(s.stack))) =~= rest);
    let written = after_command(s, 'p', drawn).state;
    let asked = written.with_stack(rest.push(x).push(y));
    assert(below(asked.stack) =~= rest.push(x));
    assert(below(below(asked.stack)) =~= rest);
}

/// A character that is no command fails the step with that very character,
/// and leaves the state as it was; a command never fails so.
pub proof fn lemma_unknown_command(s: State, command: char, drawn: Direction)
    ensures
        !is_command(command) ==> after_command(s, command, drawn) == s.failed(
            ExecutionError::UnknownCommand(command),
        ),
        is_command(command) ==> !(after_command(s, command, drawn).result matches Err(
            ExecutionError::UnknownCommand(_),
        )),
{
}

/// Only `?` looks at the heading that was drawn.
pub proof fn lemma_drawn_only_by_random(s: State, command: char, one: Direction, other: Direction)
    requires
        command != '?',
    ensures
        after_command(s, command, one) == after_command(s, command, other),
{
}

/// In string mode a step pushes the character under the cursor, whatever
/// it is, and never fails; only the quote is not pushed: it ends string mode.
pub proof fn lemma_string_mode(s: State, drawn: Direction)
    requires
        s.running,
        s.string_mode,
    ensures
        step(s, drawn).result is Ok,
        s.fetch() != '"' ==> step(s, drawn).state == s.with_stack(
            s.stack.push(s.fetch() as i32),
        ).advanced(),
        s.fetch() == '"' ==> step(s, drawn).state == (State { string_mode: false, ..s }).advanced(),
{
}

/// A command that fails, and a step that fails, change nothing.
pub proof fn lemma_failure_changes_nothing(s: State, command: char, drawn: Direction)
    ensures
        after_command(s, command, drawn).result is Err ==> after_command(s, command, drawn).state
            == s,
        step(s, drawn).result is Err ==> step(s, drawn).state == s,
{
}

/// A step leaves the canvas whole and the cursor on it.
pub proof fn lemma_step_wf(s: State, drawn: Direction)
    requires
        s.wf(),
    ensures
        step(s, drawn).state.wf(),
{
}

/// A program that has halted takes no step and stays halted; a running
/// program halts at `@` outside string mode and nowhere else.
pub proof fn lemma_halting(s: State, drawn: Direction)
    ensures
        !s.running ==> step(s, drawn) == s.failed(ExecutionError::NotRunning),
        step(s, drawn).state.running == (s.running && (s.string_mode || s.fetch() != '@')),
{
}

} // verus!
