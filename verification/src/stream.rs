//! Character input streams.
use vstd::prelude::*;
use crate::position::{Position, advanced};
use crate::text::chars_of_str;

verus! {

/// The room to put characters back is kept: it does not shrink, or at least two characters fit.
pub open spec fn room_kept(before: nat, after: nat) -> bool {
    after >= before || after >= 2
}

/// A peekable character input stream into which a few characters can be put back.
pub trait InputStream {
    /// The characters that remain to be read, in order.
    spec fn remaining(&self) -> Seq<char>;

    /// How many characters can be put back before reading again.
    spec fn room(&self) -> nat;

    /// Un-get a character back into the stream: the next `get_next` or `peek_next` returns it.
    fn unget(&mut self, ch: char)
        requires
            old(self).room() > 0,
        ensures
            final(self).remaining() == seq![ch] + old(self).remaining(),
            final(self).room() == old(self).room() - 1,
    ;

    /// Get the next character from the stream.
    fn get_next(&mut self) -> (r: Option<char>)
        ensures
            old(self).remaining().len() == 0 ==> r is None && final(self).remaining() == old(self).remaining() && final(self).room() >= old(self).room(),
            old(self).remaining().len() > 0 ==> r == Some(old(self).remaining()[0])
                && final(self).remaining() == old(self).remaining().drop_first() && (final(self).room() >= old(self).room() + 1 || final(self).room() >= 2),
    ;

    /// Peek the next character in the stream.
    fn peek_next(&mut self) -> (r: Option<char>)
        ensures
            r == (if old(self).remaining().len() > 0 {
                Some(old(self).remaining()[0])
            } else {
                None
            }),
            final(self).remaining() == old(self).remaining(),
            final(self).room() == old(self).room(),
    ;

    /// Consume the next character, moving the position on by one.
    fn eat_next_and_advance(&mut self, pos: &mut Position) -> (r: Option<char>)
        requires
            old(pos).line >= 1,
        ensures
            *final(pos) == advanced(*old(pos)),
            old(self).remaining().len() == 0 ==> r is None && final(self).remaining() == old(self).remaining() && final(self).room() >= old(self).room(),
            old(self).remaining().len() > 0 ==> r == Some(old(self).remaining()[0])
                && final(self).remaining() == old(self).remaining().drop_first() && (final(self).room() >= old(self).room() + 1 || final(self).room() >= 2),
    {
        pos.advance();
        self.get_next()
    }
}

/// A character stream made of several input texts joined together, with room for two
/// characters put back.
pub struct MultiInputsStream {
    /// Characters put back, if any (the second one is read first).
    buf: [Option<char>; 2],
    /// The index of the next character to read from `chars`.
    index: usize,
    /// The characters of all inputs, one after the other.
    chars: Vec<char>,
}

/// All characters of a sequence of texts, one after the other.
pub open spec fn joined(inputs: Seq<Seq<char>>) -> Seq<char>
    decreases inputs.len(),
{
    if inputs.len() == 0 {
        seq![]
    } else {
        joined(inputs.drop_last()) + inputs.last()
    }
}

impl MultiInputsStream {
    #[verifier::type_invariant]
    spec fn well_formed(&self) -> bool {
        &&& self.buf[0] is None ==> self.buf[1] is None
        &&& self.index <= self.chars@.len()
    }

    /// The characters put back, in the order in which they will be read.
    pub closed spec fn buffered(&self) -> Seq<char> {
        if self.buf[0] is None {
            seq![]
        } else if self.buf[1] is None {
            seq![self.buf[0]->0]
        } else {
            seq![self.buf[1]->0, self.buf[0]->0]
        }
    }

    /// Create a stream over the given input texts, joined together.
    pub fn new(inputs: &[&str]) -> (r: Self)
        ensures
            r.remaining() == joined(inputs@.map_values(|s: &str| s@)),
            r.room() == 2,
    {
        let mut chars: Vec<char> = Vec::new();
        let mut i: usize = 0;
        while i < inputs.len()
            invariant
                i <= inputs.len(),
                chars@ == joined(inputs@.map_values(|s: &str| s@).take(i as int)),
            decreases inputs.len() - i,
        {
            let mut more = chars_of_str(inputs[i]);
            proof {
                let all = inputs@.map_values(|s: &str| s@);
                assert(all.take(i + 1).drop_last() =~= all.take(i as int));
            }
            chars.append(&mut more);
            i = i + 1;
        }
        proof {
            let all = inputs@.map_values(|s: &str| s@);
            assert(all.take(inputs@.len() as int) =~= all);
        }
        let r = MultiInputsStream { buf: [None, None], index: 0, chars };
        assert(r.chars@.skip(0) =~= r.chars@);
        r
    }
}

impl InputStream for MultiInputsStream {
    closed spec fn remaining(&self) -> Seq<char> {
        self.buffered() + self.chars@.skip(self.index as int)
    }

    closed spec fn room(&self) -> nat {
        (2 - self.buffered().len()) as nat
    }

    fn unget(&mut self, ch: char) {
        proof {
            use_type_invariant(&*self);
        }
        if self.buf[0].is_none() {
            self.buf = [Some(ch), None];
        } else if self.buf[1].is_none() {
            self.buf = [self.buf[0], Some(ch)];
        }
        assert(self.remaining() =~= seq![ch] + old(self).remaining());
    }

    fn get_next(&mut self) -> (r: Option<char>) {
        proof {
            use_type_invariant(&*self);
        }
        if self.buf[0].is_some() {
            if self.buf[1].is_none() {
                let ch = self.buf[0];
                self.buf = [None, None];
                assert(self.remaining() =~= old(self).remaining().drop_first());
                return ch;
            } else {
                let ch = self.buf[1];
                self.buf = [self.buf[0], None];
                assert(self.remaining() =~= old(self).remaining().drop_first());
                return ch;
            }
        }
        if self.index >= self.chars.len() {
            assert(old(self).remaining() =~= seq![]);
            return None;
        }
        let ch = self.chars[self.index];
        self.index = self.index + 1;
        assert(self.remaining() =~= old(self).remaining().drop_first());
        Some(ch)
    }

    fn peek_next(&mut self) -> (r: Option<char>) {
        proof {
            use_type_invariant(&*self);
        }
        if self.buf[0].is_some() {
            if self.buf[1].is_none() {
                return self.buf[0];
            } else {
                return self.buf[1];
            }
        }
        if self.index >= self.chars.len() {
            return None;
        }
        Some(self.chars[self.index])
    }
}

} // verus!
