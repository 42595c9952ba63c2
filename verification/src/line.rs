//! Gathering the bytes of a line as they come in.

use vstd::prelude::*;

verus! {

/// The greatest number of bytes that a line may have; carriage returns and the
/// newline do not count.
pub const LINE_CAPACITY: usize = 32;

/// The byte that ends a line.
pub const NEWLINE: u8 = 10;

/// The byte that may stand before the end of a line.
pub const CARRIAGE_RETURN: u8 = 13;

/// What has come in of the current line, as far as it may still be read.
pub struct LineBuffer {
    buf: [u8; 32],
    len: usize,
    overrun: bool,
}

impl View for LineBuffer {
    /// The bytes of the line, or nothing where there were too many.
    type V = Option<Seq<u8>>;

    closed spec fn view(&self) -> Option<Seq<u8>> {
        if self.overrun {
            None
        } else {
            Some(self.buf@.take(self.len as int))
        }
    }
}

/// A line of which nothing has come in.
pub open spec fn empty_line() -> Option<Seq<u8>> {
    Some(Seq::empty())
}

/// What a line holds after one more byte that is not a newline: carriage
/// returns are passed over, and a byte too many drops the whole line, with all
/// that still comes of it.
pub open spec fn gathered(line: Option<Seq<u8>>, c: u8) -> Option<Seq<u8>> {
    match line {
        Some(bytes) => if c == CARRIAGE_RETURN {
            Some(bytes)
        } else if bytes.len() < LINE_CAPACITY {
            Some(bytes.push(c))
        } else {
            None
        },
        None => None,
    }
}

impl LineBuffer {
    #[verifier::type_invariant]
    closed spec fn within_capacity(self) -> bool {
        self.len <= 32
    }

    /// A line of which nothing has come in.
    pub fn new() -> (r: Self)
        ensures
            r@ == empty_line(),
    {
        let r: LineBuffer = LineBuffer { buf: [0u8; 32], len: 0, overrun: false };
        assert(r@->0 == Seq::<u8>::empty());
        r
    }

    /// Takes in one byte that is not a newline.
    pub fn gather(&mut self, c: u8)
        ensures
            final(self)@ == gathered(old(self)@, c),
    {
        proof {
            use_type_invariant(&*self);
        }
        if c != CARRIAGE_RETURN && !self.overrun {
            if self.len < LINE_CAPACITY {
                let at: usize = self.len;
                self.buf[at] = c;
                self.len = at + 1;
                assert(self@->0 == old(self)@->0.push(c));
            } else {
                self.overrun = true;
            }
        }
    }

    /// What has come in of the line, or nothing where that was too much.
    pub fn bytes(&self) -> (r: Option<&[u8]>)
        ensures
            r is Some <==> self@ is Some,
            r matches Some(bytes) ==> self@ == Some(bytes@),
    {
        proof {
            use_type_invariant(self);
        }
        if self.overrun {
            None
        } else {
            let r: &[u8] = vstd::slice::slice_subrange(self.buf.as_slice(), 0, self.len);
            assert(r@ == self@->0);
            Some(r)
        }
    }

    /// Starts a new line.
    pub fn clear(&mut self)
        ensures
            final(self)@ == empty_line(),
    {
        self.len = 0;
        self.overrun = false;
        assert(self@->0 == Seq::<u8>::empty());
    }
}

} // verus!
