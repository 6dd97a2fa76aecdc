use vstd::prelude::*;
use std::collections::VecDeque;

verus! {

/// How many characters of `input` stand before its first line feed: all of
/// them where it has none.
pub open spec fn line_end(input: Seq<char>) -> int
    decreases input.len(),
{
    if input.len() == 0 || input[0] == '\n' {
        0
    } else {
        1 + line_end(input.drop_first())
    }
}

/// Whether `input` holds a whole line, closed by a line feed.
pub open spec fn holds_line(input: Seq<char>) -> bool {
    line_end(input) < input.len()
}

/// The first line of `input`, without the line feed that closes it.
pub open spec fn first_line(input: Seq<char>) -> Seq<char> {
    input.subrange(0, line_end(input))
}

/// What follows the first line of `input` and the line feed that closes it.
pub open spec fn after_line(input: Seq<char>) -> Seq<char> {
    if holds_line(input) {
        input.subrange(line_end(input) + 1, input.len() as int)
    } else {
        Seq::empty()
    }
}

/// The first line ends where the first line feed stands.
pub proof fn lemma_line_end(input: Seq<char>)
    ensures
        0 <= line_end(input) <= input.len(),
        forall|i: int| 0 <= i < line_end(input) ==> input[i] != '\n',
        holds_line(input) ==> input[line_end(input)] == '\n',
    decreases input.len(),
{
    if input.len() == 0 || input[0] == '\n' {
    } else {
        let rest = input.drop_first();
        lemma_line_end(rest);
        assert forall|i: int| 0 <= i < line_end(input) implies input[i] != '\n' by {
            if i > 0 {
                assert(input[i] == rest[i - 1]);
            }
        }
        if holds_line(input) {
            assert(input[line_end(input)] == rest[line_end(rest)]);
        }
    }
}

/// A place with no line feed before it, which holds one or is the end of
/// `input`, is where the first line ends.
pub proof fn lemma_line_end_is(input: Seq<char>, end: int)
    requires
        0 <= end <= input.len(),
        forall|i: int| 0 <= i < end ==> input[i] != '\n',
        end == input.len() || input[end] == '\n',
    ensures
        line_end(input) == end,
    decreases end,
{
    if end > 0 {
        let rest = input.drop_first();
        assert(input[0] != '\n');
        assert forall|i: int| 0 <= i < end - 1 implies rest[i] != '\n' by {
            assert(rest[i] == input[i + 1]);
        }
        lemma_line_end_is(rest, end - 1);
    }
}

/// The characters that a program has been given and has not read yet, in
/// the order in which it will read them.
#[derive(Debug)]
pub struct Input {
    pending: VecDeque<char>,
}

impl View for Input {
    type V = Seq<char>;

    closed spec fn view(&self) -> Seq<char> {
        self.pending@
    }
}

impl Default for Input {
    fn default() -> (r: Self)
        ensures
            r@ == Seq::<char>::empty(),
    {
        Input { pending: VecDeque::new() }
    }
}

impl Input {
    /// Adds `text` behind what is still unread.
    pub fn feed(&mut self, text: &str)
        ensures
            final(self)@ == old(self)@ + text@,
    {
        for c in iter: text.chars()
            invariant
                iter.seq() == text@,
                self@ == old(self)@ + text@.subrange(0, iter.index() as int),
        {
            self.pending.push_back(c);
        }
    }

    /// Takes the next character, where there is one.
    pub fn read_char(&mut self) -> (r: Option<char>)
        ensures
            r == (if old(self)@.len() > 0 {
                Some(old(self)@[0])
            } else {
                None::<char>
            }),
            final(self)@ == (if old(self)@.len() > 0 {
                old(self)@.drop_first()
            } else {
                old(self)@
            }),
    {
        self.pending.pop_front()
    }

    /// The next line, which stays unread: the characters up to the first
    /// line feed, without it. Where no line feed is left, the line is all
    /// that is left.
    pub fn peek_line(&self) -> (line: Vec<char>)
        ensures
            line@ == first_line(self@),
    {
        let mut line: Vec<char> = Vec::new();
        let n: usize = self.pending.len();
        let mut i: usize = 0;
        while i < n
            invariant
                i <= n,
                n == self@.len(),
                line@ == self@.subrange(0, i as int),
                forall|k: int| 0 <= k < i ==> self@[k] != '\n',
            decreases n - i,
        {
            let c: char = self.pending[i];
            if c == '\n' {
                proof {
                    lemma_line_end_is(self@, i as int);
                }
                return line;
            }
            line.push(c);
            assert(line@ =~= self@.subrange(0, i + 1));
            i = i + 1;
        }
        proof {
            lemma_line_end_is(self@, n as int);
        }
        line
    }

    /// Drops the next line and the line feed that closes it.
    pub fn skip_line(&mut self)
        ensures
            final(self)@ == after_line(old(self)@),
    {
        let ghost all = self@;
        loop
            invariant
                all == old(self)@,
                self@.len() <= all.len(),
                self@ == all.subrange(all.len() - self@.len(), all.len() as int),
                forall|i: int| 0 <= i < all.len() - self@.len() ==> all[i] != '\n',
            decreases self@.len(),
        {
            let ghost taken = all.len() - self@.len();
            match self.pending.pop_front() {
                None => {
                    proof {
                        lemma_line_end_is(all, taken);
                        assert(self@ =~= after_line(all));
                    }
                    return ;
                },
                Some(c) => {
                    assert(c == all[taken]);
                    assert(self@ =~= all.subrange(taken + 1, all.len() as int));
                    if c == '\n' {
                        proof {
                            lemma_line_end_is(all, taken);
                        }
                        return ;
                    }
                },
            }
        }
    }

    /// Takes the next line: the characters up to the first line feed, which
    /// is taken too and left out of the result. Where no line feed is left,
    /// the line is all that is left.
    pub fn read_line(&mut self) -> (line: Vec<char>)
        ensures
            line@ == first_line(old(self)@),
            final(self)@ == after_line(old(self)@),
    {
        let line: Vec<char> = self.peek_line();
        self.skip_line();
        line
    }

    /// Whether a whole line, closed by a line feed, is waiting to be read.
    pub fn holds_line(&self) -> (r: bool)
        ensures
            r == holds_line(self@),
    {
        let n: usize = self.pending.len();
        let mut i: usize = 0;
        while i < n
            invariant
                i <= n,
                n == self@.len(),
                forall|k: int| 0 <= k < i ==> self@[k] != '\n',
            decreases n - i,
        {
            if self.pending[i] == '\n' {
                proof {
                    lemma_line_end_is(self@, i as int);
                }
                return true;
            }
            i = i + 1;
        }
        proof {
            lemma_line_end_is(self@, n as int);
        }
        false
    }

    /// Whether nothing is waiting to be read.
    pub fn is_empty(&self) -> (r: bool)
        ensures
            r == (self@.len() == 0),
    {
        self.pending.len() == 0
    }
}

/// The input is its first line, the line feed that closes it, and what
/// follows; or, with no line feed in it, its first line alone.
pub proof fn lemma_line_split(input: Seq<char>)
    ensures
        !first_line(input).contains('\n'),
        holds_line(input) ==> input == first_line(input) + seq!['\n'] + after_line(input),
        !holds_line(input) ==> input == first_line(input) && after_line(input).len() == 0,
{
    lemma_line_end(input);
    if holds_line(input) {
        assert(input =~= first_line(input) + seq!['\n'] + after_line(input));
    } else {
        assert(input =~= first_line(input));
    }
}

} // verus!
