//! A position-addressable view over a sequence of characters, offering the
//! one-character lookahead and rewind that the parser needs.

use vstd::prelude::*;

verus! {

/// A character cursor: an index into a buffer of characters.
pub struct Cursor {
    chars: Vec<char>,
    pos: usize,
}

impl Cursor {
    /// The characters the cursor ranges over.
    pub closed spec fn text(&self) -> Seq<char> {
        self.chars@
    }

    /// The current read position.
    pub closed spec fn at(&self) -> int {
        self.pos as int
    }

    /// The read position never passes the end of the text.
    pub closed spec fn wf(&self) -> bool {
        self.pos <= self.chars.len()
    }

    /// A well-formed cursor's position lies within its text.
    pub proof fn bounds(&self)
        requires
            self.wf(),
        ensures
            0 <= self.at() <= self.text().len(),
    {
    }

    /// A cursor over `chars`, positioned at the start.
    pub fn new(chars: Vec<char>) -> (c: Cursor)
        ensures
            c.wf(),
            c.text() == chars@,
            c.at() == 0,
    {
        Cursor { chars, pos: 0 }
    }

    /// Returns the next character and moves forward, or nothing at end of
    /// input.
    pub fn next(&mut self) -> (r: Option<char>)
        requires
            old(self).wf(),
        ensures
            final(self).wf(),
            final(self).text() == old(self).text(),
            if old(self).at() < old(self).text().len() {
                r == Some(old(self).text()[old(self).at()]) && final(self).at() == old(self).at()
                    + 1
            } else {
                r is None && final(self).at() == old(self).at()
            },
    {
        if self.pos < self.chars.len() {
            let c = self.chars[self.pos];
            self.pos = self.pos + 1;
            Some(c)
        } else {
            None
        }
    }

    /// Returns the next character without moving.
    pub fn peek(&self) -> (r: Option<char>)
        requires
            self.wf(),
        ensures
            r == if self.at() < self.text().len() {
                Some(self.text()[self.at()])
            } else {
                None::<char>
            },
    {
        if self.pos < self.chars.len() {
            Some(self.chars[self.pos])
        } else {
            None
        }
    }

    /// Moves the read position back by exactly one character.
    pub fn step_back(&mut self)
        requires
            old(self).wf(),
            old(self).at() >= 1,
        ensures
            final(self).wf(),
            final(self).text() == old(self).text(),
            final(self).at() == old(self).at() - 1,
    {
        self.pos = self.pos - 1;
    }
}

} // verus!
