use vstd::prelude::*;
use crate::error::ExecutionError;

verus! {

/// Whether `code` is a Unicode scalar value, the code point of some `char`.
pub open spec fn is_char_code(code: int) -> bool {
    0 <= code <= 0xD7FF || 0xE000 <= code <= 0x10FFFF
}

/// The value a pop takes from `values`: the last one, or `0` where there is none.
pub open spec fn top(values: Seq<i32>) -> i32 {
    if values.len() > 0 {
        values.last()
    } else {
        0
    }
}

/// What a pop leaves of `values`: all but the last; an empty stack stays empty.
pub open spec fn below(values: Seq<i32>) -> Seq<i32> {
    if values.len() > 0 {
        values.drop_last()
    } else {
        values
    }
}

/// The value that lies `depth` values under the top of `values`: the one
/// that a pop would return after `depth` pops before it.
pub open spec fn peeked(values: Seq<i32>, depth: nat) -> i32
    decreases depth,
{
    if depth == 0 {
        top(values)
    } else {
        peeked(below(values), (depth - 1) as nat)
    }
}

/// The character that `value` stands for, or the error that a pop of it as a
/// character gives.
pub open spec fn char_of(value: i32) -> Result<char, ExecutionError> {
    if is_char_code(value as int) {
        Ok(value as char)
    } else {
        Err(ExecutionError::InvalidCharacterCode(value))
    }
}

/// Trusted: `char::from_u32` of the standard library. Its documentation says
/// that it returns the character with code point `i` where `i` is a Unicode
/// scalar value, and `None` for every other `i`.
pub assume_specification[ char::from_u32 ](i: u32) -> (r: Option<char>)
    ensures
        r == (if is_char_code(i as int) {
            Some(i as char)
        } else {
            None::<char>
        }),
;

/// Reads `value` as a code point.
pub fn to_char(value: i32) -> (r: Result<char, ExecutionError>)
    ensures
        r == char_of(value),
{
    if value < 0 {
        return Err(ExecutionError::InvalidCharacterCode(value));
    }
    match char::from_u32(value as u32) {
        Some(c) => Ok(c),
        None => Err(ExecutionError::InvalidCharacterCode(value)),
    }
}

/// A stack of integers that never underflows: the view is the sequence of
/// its values, bottom first.
#[derive(Debug)]
pub struct Stack {
    stack: Vec<i32>,
}

impl View for Stack {
    type V = Seq<i32>;

    closed spec fn view(&self) -> Seq<i32> {
        self.stack@
    }
}

impl Default for Stack {
    fn default() -> (r: Self)
        ensures
            r@ == Seq::<i32>::empty(),
    {
        Stack { stack: Vec::new() }
    }
}

impl Stack {
    /// Removes and returns the top value; an empty stack gives `0` and stays empty.
    pub fn pop(&mut self) -> (value: i32)
        ensures
            value == top(old(self)@),
            final(self)@ == below(old(self)@),
            old(self)@.len() == 0 ==> value == 0 && final(self)@.len() == 0,
    {
        match self.stack.pop() {
            Some(value) => value,
            None => 0,
        }
    }

    /// Puts `value` on top.
    pub fn push(&mut self, value: i32)
        ensures
            final(self)@ == old(self)@.push(value),
    {
        self.stack.push(value);
    }

    /// Pops a value and reads it as a code point. The value leaves the stack
    /// whether or not it is the code point of a character.
    pub fn pop_char(&mut self) -> (r: Result<char, ExecutionError>)
        ensures
            r == char_of(top(old(self)@)),
            final(self)@ == below(old(self)@),
    {
        let value: i32 = self.pop();
        to_char(value)
    }

    /// The value that lies `depth` values under the top, or `0` where the
    /// stack is not that deep. The stack stays as it is.
    pub fn peek(&self, depth: usize) -> (value: i32)
        ensures
            value == peeked(self@, depth as nat),
    {
        let n: usize = self.stack.len();
        proof {
            lemma_peeked(self@, depth as nat);
        }
        if depth < n {
            self.stack[n - 1 - depth]
        } else {
            0
        }
    }

    /// Pushes the code point of `value`.
    pub fn push_char(&mut self, value: char)
        ensures
            final(self)@ == old(self)@.push(value as i32),
            char_of(value as i32) == Ok::<char, ExecutionError>(value),
    {
        self.push(value as i32);
    }

    /// The values on the stack, bottom first.
    pub fn values(&self) -> (r: &Vec<i32>)
        ensures
            r@ == self@,
    {
        &self.stack
    }
}

/// The value `depth` under the top is counted from the end of the
/// sequence, and is `0` where the sequence is not that long.
pub proof fn lemma_peeked(values: Seq<i32>, depth: nat)
    ensures
        peeked(values, depth) == (if depth < values.len() {
            values[values.len() - 1 - depth]
        } else {
            0i32
        }),
    decreases depth,
{
    if depth > 0 {
        lemma_peeked(below(values), (depth - 1) as nat);
    }
}

/// A pop from the empty stack yields `0` and leaves the stack empty.
pub proof fn lemma_pop_empty()
    ensures
        top(Seq::<i32>::empty()) == 0,
        below(Seq::<i32>::empty()) == Seq::<i32>::empty(),
{
}

/// A push followed by a pop returns the pushed value and restores the stack.
pub proof fn lemma_push_pop(values: Seq<i32>, value: i32)
    ensures
        top(values.push(value)) == value,
        below(values.push(value)) == values,
{
    assert(values.push(value).drop_last() =~= values);
}

/// A character pushed and popped again as a character comes back unchanged.
pub proof fn lemma_push_char_pop_char(values: Seq<i32>, c: char)
    ensures
        char_of(top(values.push(c as i32))) == Ok::<char, ExecutionError>(c),
        below(values.push(c as i32)) == values,
{
    lemma_push_pop(values, c as i32);
}

} // verus!
