use vstd::prelude::*;

use crate::frame::{frames_view, DecodeError, Frame, Multipart};

verus! {

/// A type whose values travel as one frame.
///
/// The abstract value (the view) is what the codec preserves: decoding the
/// frame that a well-formed value encodes to gives that value back.
pub trait MessageEncode: Sized + View {
    /// The values of the type that can be encoded.
    spec fn well_formed(v: Self::V) -> bool;

    /// The bytes that a value is encoded to.
    spec fn encoding(v: Self::V) -> Seq<u8>;

    /// The value that a frame decodes to, if it is valid for this codec.
    spec fn decoding(b: Seq<u8>) -> Option<Self::V>;

    /// Decoding the encoding of a well-formed value gives the value back.
    proof fn lemma_round_trip(v: Self::V)
        requires
            Self::well_formed(v),
        ensures
            Self::decoding(Self::encoding(v)) == Some(v),
    ;

    /// Decoding is canonical: a frame that decodes is exactly the encoding
    /// of the well-formed value it decodes to.
    proof fn lemma_decoding_canonical(b: Seq<u8>)
        requires
            Self::decoding(b) is Some,
        ensures
            Self::well_formed(Self::decoding(b)->0),
            Self::encoding(Self::decoding(b)->0) == b,
    ;

    fn into_message(&self) -> (m: Frame)
        requires
            Self::well_formed(self@),
        ensures
            m@ == Self::encoding(self@),
    ;

    fn try_from_message(message: &Frame) -> (r: Result<Self, DecodeError>)
        ensures
            match r {
                Ok(v) => Self::decoding(message@) == Some(v@),
                Err(e) => Self::decoding(message@) is None && e == DecodeError::MalformedFrame,
            },
    ;
}


/// The frames that a sequence of values encodes to: one per value, in order.
pub open spec fn encode_seq<T: MessageEncode>(s: Seq<T::V>) -> Seq<Seq<u8>> {
    s.map_values(|v: T::V| T::encoding(v))
}

/// Every frame is valid for the codec of `T`.
pub open spec fn all_decode<T: MessageEncode>(f: Seq<Seq<u8>>) -> bool {
    forall|i: int| 0 <= i < f.len() ==> (#[trigger] T::decoding(f[i])) is Some
}

/// The values that a sequence of frames decodes to, in order, or `None`
/// where any one frame does not decode.
pub open spec fn decode_seq<T: MessageEncode>(f: Seq<Seq<u8>>) -> Option<Seq<T::V>> {
    if all_decode::<T>(f) {
        Some(f.map_values(|b: Seq<u8>| T::decoding(b)->0))
    } else {
        None
    }
}

/// Every value of the sequence can be encoded.
pub open spec fn all_well_formed<T: MessageEncode>(s: Seq<T::V>) -> bool {
    forall|i: int| 0 <= i < s.len() ==> #[trigger] T::well_formed(s[i])
}

/// Decoding the frames of a sequence of well-formed values gives back the
/// same values in the same order.
pub proof fn lemma_sequence_round_trip<T: MessageEncode>(s: Seq<T::V>)
    requires
        all_well_formed::<T>(s),
    ensures
        decode_seq::<T>(encode_seq::<T>(s)) == Some(s),
{
    let f = encode_seq::<T>(s);
    assert forall|i: int| 0 <= i < f.len() implies T::decoding(f[i]) == Some(s[i]) by {
        T::lemma_round_trip(s[i]);
    }
    assert(all_decode::<T>(f));
    assert(f.map_values(|b: Seq<u8>| T::decoding(b)->0) =~= s);
}

/// Where any one frame fails to decode, the whole sequence fails: no
/// shorter sequence of values comes out.
pub proof fn lemma_sequence_decode_atomic<T: MessageEncode>(f: Seq<Seq<u8>>, k: int)
    requires
        0 <= k < f.len(),
        T::decoding(f[k]) is None,
    ensures
        decode_seq::<T>(f) is None,
{
}

/// The empty sequence encodes to no frames, and no frames decode to the
/// empty sequence.
pub proof fn lemma_sequence_empty<T: MessageEncode>()
    ensures
        encode_seq::<T>(Seq::empty()) == Seq::<Seq<u8>>::empty(),
        decode_seq::<T>(Seq::empty()) == Some(Seq::<T::V>::empty()),
{
    assert(encode_seq::<T>(Seq::empty()) =~= Seq::<Seq<u8>>::empty());
    assert(Seq::<Seq<u8>>::empty().map_values(|b: Seq<u8>| T::decoding(b)->0) =~= Seq::<T::V>::empty());
}

/// A type whose values travel as a multipart message.
pub trait MultipartEncode: Sized + View {
    /// The values of the type that can be encoded.
    spec fn well_formed_parts(v: Self::V) -> bool;

    /// The bytes of each frame that a value is encoded to, in order.
    spec fn multipart_encoding(v: Self::V) -> Seq<Seq<u8>>;

    /// The value that a sequence of frames decodes to, if it is valid.
    spec fn multipart_decoding(f: Seq<Seq<u8>>) -> Option<Self::V>;

    fn into_multipart(self) -> (m: Multipart)
        requires
            Self::well_formed_parts(self@),
        ensures
            frames_view(m@) == Self::multipart_encoding(self@),
    ;

    fn try_from_multipart(frames: &[Frame]) -> (r: Result<Self, DecodeError>)
        ensures
            match r {
                Ok(v) => Self::multipart_decoding(frames_view(frames@)) == Some(v@),
                Err(e) => Self::multipart_decoding(frames_view(frames@)) is None && e
                    == DecodeError::MalformedFrame,
            },
    ;
}

/// An ordered collection of values sent as one frame per value.
pub struct VecEncoding<T: MessageEncode> {
    items: Vec<T>,
}

impl<T: MessageEncode> View for VecEncoding<T> {
    type V = Seq<T::V>;

    closed spec fn view(&self) -> Seq<T::V> {
        self.items@.map_values(|t: T| t@)
    }
}

impl<T: MessageEncode> VecEncoding<T> {
    /// The collection of the values of `vec`, in order.
    pub fn new(vec: Vec<T>) -> (r: VecEncoding<T>)
        ensures
            r@ == vec@.map_values(|t: T| t@),
    {
        VecEncoding { items: vec }
    }

    /// The values, in order.
    pub fn iter(&self) -> (r: &[T])
        ensures
            r@.map_values(|t: T| t@) == self@,
    {
        self.items.as_slice()
    }

    /// The collection as a vector.
    pub fn into_vec(self) -> (r: Vec<T>)
        ensures
            r@.map_values(|t: T| t@) == self@,
    {
        self.items
    }
}

impl<T: MessageEncode> MultipartEncode for VecEncoding<T> {
    open spec fn well_formed_parts(v: Seq<T::V>) -> bool {
        all_well_formed::<T>(v)
    }

    open spec fn multipart_encoding(v: Seq<T::V>) -> Seq<Seq<u8>> {
        encode_seq::<T>(v)
    }

    open spec fn multipart_decoding(f: Seq<Seq<u8>>) -> Option<Seq<T::V>> {
        decode_seq::<T>(f)
    }

    fn into_multipart(self) -> (m: Multipart) {
        let mut m: Vec<Frame> = Vec::new();
        let n = self.items.len();
        let mut i: usize = 0;
        while i < n
            invariant
                n == self.items@.len(),
                i <= n,
                all_well_formed::<T>(self@),
                m@.len() == i,
                forall|j: int| 0 <= j < i ==> (#[trigger] m@[j])@ == T::encoding(self.items@[j]@),
            decreases n - i,
        {
            assert(T::well_formed(self@[i as int]));
            m.push(self.items[i].into_message());
            i = i + 1;
        }
        assert(frames_view(m@) =~= encode_seq::<T>(self@));
        m
    }

    fn try_from_multipart(frames: &[Frame]) -> (r: Result<VecEncoding<T>, DecodeError>) {
        let mut items: Vec<T> = Vec::new();
        let n = frames.len();
        let mut i: usize = 0;
        while i < n
            invariant
                n == frames@.len(),
                i <= n,
                items@.len() == i,
                forall|j: int| 0 <= j < i ==> T::decoding(frames@[j]@) == Some((#[trigger] items@[j])@),
            decreases n - i,
        {
            match T::try_from_message(&frames[i]) {
                Ok(v) => {
                    items.push(v);
                },
                Err(e) => {
                    proof {
                        assert(frames_view(frames@)[i as int] == frames@[i as int]@);
                        lemma_sequence_decode_atomic::<T>(frames_view(frames@), i as int);
                    }
                    return Err(e);
                },
            }
            i = i + 1;
        }
        let r = VecEncoding { items };
        proof {
            let f = frames_view(frames@);
            assert forall|j: int| 0 <= j < f.len() implies T::decoding(f[j]) == Some(r@[j]) by {
                assert(f[j] == frames@[j]@);
            }
            assert(all_decode::<T>(f));
            assert(f.map_values(|b: Seq<u8>| T::decoding(b)->0) =~= r@);
        }
        Ok(r)
    }
}

} // verus!
