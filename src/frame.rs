use vstd::prelude::*;

verus! {

/// One opaque wire frame: a byte buffer that is not changed once built.
#[derive(Clone, Debug, PartialEq, Eq)]
pub struct Frame {
    bytes: Vec<u8>,
}

impl View for Frame {
    type V = Seq<u8>;

    closed spec fn view(&self) -> Seq<u8> {
        self.bytes@
    }
}

/// An ordered sequence of frames sent and received as one unit.
pub type Multipart = Vec<Frame>;

/// The bytes of each frame of a multipart message, in order.
pub open spec fn frames_view(m: Seq<Frame>) -> Seq<Seq<u8>> {
    m.map_values(|f: Frame| f@)
}

/// Why a frame or a multipart message could not be decoded.
#[derive(Clone, Copy, Debug, PartialEq, Eq)]
pub enum DecodeError {
    /// The bytes of a frame do not have the shape its codec expects.
    MalformedFrame,
}

impl Frame {
    /// A frame holding exactly the given bytes.
    pub fn from_bytes(bytes: Vec<u8>) -> (f: Frame)
        ensures
            f@ == bytes@,
    {
        Frame { bytes }
    }

    /// The bytes of the frame.
    pub fn as_bytes(&self) -> (b: &[u8])
        ensures
            b@ == self@,
    {
        self.bytes.as_slice()
    }

    /// The number of bytes in the frame.
    pub fn len(&self) -> (n: usize)
        ensures
            n == self@.len(),
    {
        self.bytes.len()
    }
}

} // verus!
