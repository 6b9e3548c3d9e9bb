//! A forward-only cursor over the characters of a borrowed string,
//! offering two characters of lookahead without consuming input.

use vstd::prelude::*;
use vstd::string::StrSliceExecFns;

verus! {

/// A sequence cursor with two-token lookahead. Peeking at either lookahead
/// depth never consumes input, so peeking twice without an intervening
/// `next` returns the same value.
pub struct DoublePeekIterator<'a> {
    text: &'a str,
    pos: usize,
}

impl<'a> DoublePeekIterator<'a> {
    /// The character sequence the cursor walks over.
    pub closed spec fn chars(&self) -> Seq<char> {
        self.text@
    }

    /// How many characters have been consumed so far.
    pub closed spec fn position(&self) -> int {
        self.pos as int
    }

    pub open spec fn wf(&self) -> bool {
        0 <= self.position() <= self.chars().len()
    }

    pub fn new(text: &'a str) -> (it: Self)
        ensures
            it.wf(),
            it.chars() == text@,
            it.position() == 0,
    {
        DoublePeekIterator { text, pos: 0 }
    }

    /// Look at the next character without consuming it.
    pub fn peek(&self) -> (r: Option<char>)
        requires
            self.wf(),
        ensures
            r == (if self.position() < self.chars().len() {
                Some(self.chars()[self.position()])
            } else {
                None::<char>
            }),
    {
        let n = self.text.unicode_len();
        if self.pos < n {
            Some(self.text.get_char(self.pos))
        } else {
            None
        }
    }

    /// Look one character past the next one, without consuming either.
    pub fn peek2(&self) -> (r: Option<char>)
        requires
            self.wf(),
        ensures
            r == (if self.position() + 1 < self.chars().len() {
                Some(self.chars()[self.position() + 1])
            } else {
                None::<char>
            }),
    {
        let n = self.text.unicode_len();
        if n >= 2 && self.pos <= n - 2 {
            Some(self.text.get_char(self.pos + 1))
        } else {
            None
        }
    }

    /// Return and consume the earliest unconsumed character, if any.
    pub fn next(&mut self) -> (r: Option<char>)
        requires
            old(self).wf(),
        ensures
            final(self).wf(),
            final(self).chars() == old(self).chars(),
            r == (if old(self).position() < old(self).chars().len() {
                Some(old(self).chars()[old(self).position()])
            } else {
                None::<char>
            }),
            final(self).position() == (if old(self).position() < old(self).chars().len() {
                old(self).position() + 1
            } else {
                old(self).position()
            }),
    {
        let n = self.text.unicode_len();
        if self.pos < n {
            let c = self.text.get_char(self.pos);
            self.pos = self.pos + 1;
            Some(c)
        } else {
            None
        }
    }
}

} // verus!
