//! Positions (line and column) within a script.
use vstd::prelude::*;

verus! {

/// A location (line number and character position within the line) in a script.
///
/// Line numbers start from 1 and character positions start from 1; a position of 0 means
/// "at the beginning of the line, before any character".  The value with line 0 and
/// position 0 stands for "no position".  Both counters saturate at `u16::MAX`.
#[derive(Clone, Copy, Debug, PartialEq, Eq, Hash)]
pub struct Position {
    /// Line number: 0 means "no position".
    pub line: u16,
    /// Character position within the line: 0 means "beginning of the line".
    pub pos: u16,
}

/// The position after one more character on the same line (saturating).
pub open spec fn advanced(p: Position) -> Position {
    Position { line: p.line, pos: if p.pos < u16::MAX { (p.pos + 1) as u16 } else { p.pos } }
}

/// The position `n` characters further on the same line (saturating).
pub open spec fn advanced_by(p: Position, n: nat) -> Position
    decreases n,
{
    if n == 0 {
        p
    } else {
        advanced(advanced_by(p, (n - 1) as nat))
    }
}

/// The position at the beginning of the next line; a position on the last representable line
/// stays where it is.
pub open spec fn next_line(p: Position) -> Position {
    if p.line < u16::MAX {
        Position { line: (p.line + 1) as u16, pos: 0 }
    } else {
        p
    }
}

/// The position one character back on the same line.
pub open spec fn rewound(p: Position) -> Position {
    Position { line: p.line, pos: (p.pos - 1) as u16 }
}

impl Position {
    /// No position.
    pub fn none() -> (r: Self)
        ensures
            r.line == 0 && r.pos == 0,
    {
        Position { line: 0, pos: 0 }
    }

    /// The first position in a script: line 1, before the first character.
    pub fn start() -> (r: Self)
        ensures
            r.line == 1 && r.pos == 0,
    {
        Position { line: 1, pos: 0 }
    }

    /// Create a new position.  The line number cannot be zero.
    pub fn new(line: u16, position: u16) -> (r: Self)
        requires
            line != 0,
        ensures
            r.line == line && r.pos == position,
    {
        Position { line, pos: position }
    }

    /// The line number, if any.
    pub fn line(self) -> (r: Option<usize>)
        ensures
            r == (if self.line == 0 && self.pos == 0 { None } else { Some(self.line as usize) }),
    {
        if self.is_none() {
            None
        } else {
            Some(self.line as usize)
        }
    }

    /// The character position within the line, if any (none at the beginning of a line).
    pub fn position(self) -> (r: Option<usize>)
        ensures
            r == (if (self.line == 0 && self.pos == 0) || self.pos == 0 {
                None
            } else {
                Some(self.pos as usize)
            }),
    {
        if self.is_none() || self.pos == 0 {
            None
        } else {
            Some(self.pos as usize)
        }
    }

    /// Is this "no position"?
    pub fn is_none(self) -> (r: bool)
        ensures
            r == (self.line == 0 && self.pos == 0),
    {
        self.line == 0 && self.pos == 0
    }

    /// Is this the beginning of a line?
    pub fn is_beginning_of_line(self) -> (r: bool)
        ensures
            r == (self.pos == 0 && !(self.line == 0 && self.pos == 0)),
    {
        self.pos == 0 && !self.is_none()
    }

    /// Advance by one character position, saturating at the maximum.
    pub fn advance(&mut self)
        requires
            !(old(self).line == 0 && old(self).pos == 0),
        ensures
            *final(self) == advanced(*old(self)),
    {
        if self.pos < u16::MAX {
            self.pos = self.pos + 1;
        }
    }

    /// Go back by one character position.
    pub fn rewind(&mut self)
        requires
            !(old(self).line == 0 && old(self).pos == 0),
            old(self).pos > 0,
        ensures
            *final(self) == rewound(*old(self)),
    {
        self.pos = self.pos - 1;
    }

    /// Advance to the beginning of the next line; on the last representable line nothing moves.
    pub fn new_line(&mut self)
        requires
            !(old(self).line == 0 && old(self).pos == 0),
        ensures
            *final(self) == next_line(*old(self)),
    {
        if self.line < u16::MAX {
            self.line = self.line + 1;
            self.pos = 0;
        }
    }
}

} // verus!
