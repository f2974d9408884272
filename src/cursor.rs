use vstd::prelude::*;

verus! {

/// The largest number of bytes a cursor holds.
pub const MAX_CURSOR_LEN: usize = 1024;

/// The encoded progress state of the step that is running: a byte buffer of
/// at most `MAX_CURSOR_LEN` bytes.
#[derive(Debug, PartialEq, Eq)]
pub struct Cursor {
    bytes: Vec<u8>,
}

impl View for Cursor {
    type V = Seq<u8>;

    closed spec fn view(&self) -> Seq<u8> {
        self.bytes@
    }
}

impl Cursor {
    #[verifier::type_invariant]
    spec fn bounded(self) -> bool {
        self.bytes@.len() <= MAX_CURSOR_LEN
    }

    /// The cursor holding `bytes`, if they fit.
    pub fn from_bytes(bytes: Vec<u8>) -> (r: Option<Cursor>)
        ensures
            r is Some <==> bytes@.len() <= MAX_CURSOR_LEN,
            r matches Some(c) ==> c@ == bytes@,
    {
        if bytes.len() <= MAX_CURSOR_LEN {
            Some(Cursor { bytes })
        } else {
            None
        }
    }

    pub fn as_bytes(&self) -> (r: &[u8])
        ensures
            r@ == self@,
            r@.len() <= MAX_CURSOR_LEN,
    {
        proof {
            use_type_invariant(self);
        }
        self.bytes.as_slice()
    }

    pub fn len(&self) -> (r: usize)
        ensures
            r == self@.len(),
            r <= MAX_CURSOR_LEN,
    {
        proof {
            use_type_invariant(self);
        }
        self.bytes.len()
    }
}

} // verus!
