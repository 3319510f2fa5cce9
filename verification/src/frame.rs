//! One command frame, as read off the serial line.
//!
//! A read fills a buffer of fixed size and ends when the buffer is full or
//! the line has gone quiet. What arrived in between is one frame.

use vstd::prelude::*;

verus! {

/// The size of the buffer a frame is read into, and so the most bytes a
/// frame can hold.
pub const FRAME_CAPACITY: usize = 1024;

/// The bytes that one read captured. Never more than [`FRAME_CAPACITY`].
#[derive(Debug, PartialEq, Eq)]
pub struct CommandFrame {
    bytes: Vec<u8>,
}

impl View for CommandFrame {
    type V = Seq<u8>;

    closed spec fn view(&self) -> Seq<u8> {
        self.bytes@
    }
}

impl CommandFrame {
    #[verifier::type_invariant]
    spec fn bounded(&self) -> bool {
        self.bytes@.len() <= FRAME_CAPACITY
    }

    /// The frame that a read left in `buffer` when it reported `length`
    /// bytes: the first `length` bytes of the buffer. There is no frame when
    /// the buffer does not hold that many bytes, or when no read could have
    /// reported so many.
    pub fn capture(buffer: &[u8], length: usize) -> (frame: Option<CommandFrame>)
        ensures
            frame is Some <==> length <= buffer@.len() && length <= FRAME_CAPACITY,
            frame matches Some(captured) ==> captured@ == buffer@.take(length as int),
    {
        if length > buffer.len() || length > FRAME_CAPACITY {
            return None;
        }
        let mut bytes: Vec<u8> = Vec::new();
        let mut at: usize = 0;
        while at < length
            invariant
                at <= length <= buffer@.len(),
                bytes@ == buffer@.take(at as int),
            decreases length - at,
        {
            bytes.push(buffer[at]);
            at = at + 1;
            assert(buffer@.take(at as int) =~= buffer@.take(at - 1).push(buffer@[at - 1]));
        }
        Some(CommandFrame { bytes })
    }

    /// The number of bytes captured.
    pub fn len(&self) -> (len: usize)
        ensures
            len == self@.len(),
            len <= FRAME_CAPACITY,
    {
        proof {
            use_type_invariant(self);
        }
        self.bytes.len()
    }

    /// Whether the read captured nothing.
    pub fn is_empty(&self) -> (empty: bool)
        ensures
            empty <==> self@.len() == 0,
    {
        self.bytes.len() == 0
    }

    /// The captured bytes, in the order they arrived.
    pub fn as_bytes(&self) -> (bytes: &[u8])
        ensures
            bytes@ == self@,
    {
        self.bytes.as_slice()
    }
}

} // verus!
