use vstd::prelude::*;

use bitcoin::consensus::encode::{deserialize as consensus_deserialize, serialize as consensus_serialize};

use crate::classify::CodecDescriptor;
use crate::encode::MessageEncode;
use crate::frame::{DecodeError, Frame};

verus! {

/// The ledger decoder's error, carried only to be turned into a `DecodeError`.
#[verifier::external_type_specification]
#[verifier::external_body]
pub struct ExConsensusError(bitcoin::consensus::encode::Error);

/// Four bytes of `v`, least significant first.
pub open spec fn le32(v: u32) -> Seq<u8> {
    seq![
        (v & 0xff) as u8,
        ((v >> 8u32) & 0xff) as u8,
        ((v >> 16u32) & 0xff) as u8,
        ((v >> 24u32) & 0xff) as u8,
    ]
}

/// The number that four bytes hold, least significant first.
pub open spec fn from_le32(b: Seq<u8>) -> u32 {
    (b[0] as u32) | ((b[1] as u32) << 8u32) | ((b[2] as u32) << 16u32) | ((b[3] as u32) << 24u32)
}

/// Eight bytes of `v`, least significant first.
pub open spec fn le64(v: u64) -> Seq<u8> {
    le32((v & 0xffff_ffff) as u32) + le32((v >> 32u64) as u32)
}

/// The number that eight bytes hold, least significant first.
pub open spec fn from_le64(b: Seq<u8>) -> u64 {
    (from_le32(b.subrange(0, 4)) as u64) | ((from_le32(b.subrange(4, 8)) as u64) << 32u64)
}

/// Two bytes of `v`, least significant first.
pub open spec fn le16(v: u16) -> Seq<u8> {
    seq![(v & 0xff) as u8, ((v >> 8u16) & 0xff) as u8]
}

/// The number that two bytes hold, least significant first.
pub open spec fn from_le16(b: Seq<u8>) -> u16 {
    (b[0] as u16) | ((b[1] as u16) << 8u16)
}

/// The ledger's compact-size prefix of a length below 2^32: one byte below
/// 0xfd, else a marker byte and two or four little-endian bytes.
pub open spec fn compact_size(n: nat) -> Seq<u8> {
    if n < 0xfd {
        seq![n as u8]
    } else if n <= 0xffff {
        seq![0xfdu8] + le16(n as u16)
    } else {
        seq![0xfeu8] + le32(n as u32)
    }
}

/// The largest byte string that the ledger decoder accepts.
pub const MAX_VEC_SIZE: usize = 4_000_000;

/// The length that a compact-size prefix at the start of `b` gives, and the
/// length of the prefix itself. `None` where the prefix is cut short or not
/// written in its shortest form, and for the eight-byte form, which never
/// gives a length that the decoder accepts.
pub open spec fn compact_size_header(b: Seq<u8>) -> Option<(nat, nat)> {
    if b.len() == 0 {
        None
    } else if b[0] < 0xfd {
        Some((b[0] as nat, 1))
    } else if b[0] == 0xfd {
        if b.len() >= 3 && from_le16(b.subrange(1, 3)) >= 0xfd {
            Some((from_le16(b.subrange(1, 3)) as nat, 3))
        } else {
            None
        }
    } else if b[0] == 0xfe {
        if b.len() >= 5 && from_le32(b.subrange(1, 5)) >= 0x10000 {
            Some((from_le32(b.subrange(1, 5)) as nat, 5))
        } else {
            None
        }
    } else {
        None
    }
}

/// The byte string that `b` holds in ledger encoding: a compact-size length
/// of at most `MAX_VEC_SIZE`, then exactly that many bytes.
pub open spec fn byte_string_decoding(b: Seq<u8>) -> Option<Seq<u8>> {
    match compact_size_header(b) {
        Some((n, h)) => if n <= MAX_VEC_SIZE && b.len() == h + n {
            Some(b.subrange(h as int, b.len() as int))
        } else {
            None
        },
        None => None,
    }
}

/// Ledger encoding of a transaction output: the amount as eight
/// little-endian bytes, then the script as a byte string.
pub open spec fn txout_bytes(value: u64, script: Seq<u8>) -> Seq<u8> {
    le64(value) + compact_size(script.len()) + script
}

/// The transaction output that `b` holds in ledger encoding.
pub open spec fn txout_decoding(b: Seq<u8>) -> Option<TxOutView> {
    if b.len() >= 8 {
        match byte_string_decoding(b.subrange(8, b.len() as int)) {
            Some(script) => Some(TxOutView { value: from_le64(b.subrange(0, 8)), script_pubkey: script }),
            None => None,
        }
    } else {
        None
    }
}

/// Ledger encoding of an output reference: the transaction id, then the
/// output index as four little-endian bytes.
pub open spec fn outpoint_bytes(txid: Seq<u8>, vout: u32) -> Seq<u8> {
    txid + le32(vout)
}

/// Ledger-encoded values tagged as ledger data.
pub trait BitcoinData: MessageEncode {
}

/// Ledger scripts, in all their variants.
pub trait ScriptData: BitcoinData {
}

/// Reference to one output of a ledger transaction.
#[derive(Clone, Copy, Debug, PartialEq, Eq)]
pub struct OutPoint {
    /// The id of the transaction, in the byte order the ledger encodes.
    pub txid: [u8; 32],
    /// The index of the output in that transaction.
    pub vout: u32,
}

/// The abstract value of an output reference.
pub struct OutPointView {
    pub txid: Seq<u8>,
    pub vout: u32,
}

impl View for OutPoint {
    type V = OutPointView;

    open spec fn view(&self) -> OutPointView {
        OutPointView { txid: self.txid@, vout: self.vout }
    }
}

/// Relies on bitcoin::consensus::encode::serialize of a bitcoin::OutPoint:
/// the 32 bytes of the txid as they are held, then vout little-endian.
#[verifier::external_body]
fn serialize_outpoint(txid: [u8; 32], vout: u32) -> (r: Vec<u8>)
    ensures
        r@ == outpoint_bytes(txid@, vout),
{
    consensus_serialize(&bitcoin::OutPoint { txid: <bitcoin::Txid as bitcoin::hashes::Hash>::from_inner(txid), vout })
}

/// Relies on bitcoin::consensus::encode::deserialize of a bitcoin::OutPoint:
/// it reads 32 txid bytes and a little-endian vout, and fails unless that
/// consumes the input exactly.
#[verifier::external_body]
fn deserialize_outpoint(b: &[u8]) -> (r: Result<([u8; 32], u32), bitcoin::consensus::encode::Error>)
    ensures
        r is Ok <==> b@.len() == 36,
        r matches Ok((t, v)) ==> t@ == b@.subrange(0, 32) && v == from_le32(b@.subrange(32, 36)),
{
    consensus_deserialize::<bitcoin::OutPoint>(b).map(|o| (<bitcoin::Txid as bitcoin::hashes::Hash>::into_inner(o.txid), o.vout))
}

/// Relies on bitcoin::consensus::encode::serialize of a bitcoin::Script:
/// the length as a compact size, then the bytes.
#[verifier::external_body]
fn serialize_script(bytes: &Vec<u8>) -> (r: Vec<u8>)
    requires
        bytes@.len() <= 0xffff_ffff,
    ensures
        r@ == compact_size(bytes@.len()) + bytes@,
{
    consensus_serialize(&bitcoin::Script::from(bytes.clone()))
}

/// Relies on bitcoin::consensus::encode::deserialize of a bitcoin::Script:
/// it reads a canonical compact-size length of at most MAX_VEC_SIZE and that
/// many bytes, and fails unless that consumes the input exactly.
#[verifier::external_body]
fn deserialize_script(b: &[u8]) -> (r: Result<Vec<u8>, bitcoin::consensus::encode::Error>)
    ensures
        match r {
            Ok(p) => byte_string_decoding(b@) == Some(p@),
            Err(_) => byte_string_decoding(b@) is None,
        },
{
    consensus_deserialize::<bitcoin::Script>(b).map(|s| s.into_bytes())
}

/// Two little-endian bytes read back as the number they were written from.
pub proof fn lemma_le16_round_trip(v: u16)
    ensures
        from_le16(le16(v)) == v,
{
    let b0 = (v & 0xff) as u8;
    let b1 = ((v >> 8u16) & 0xff) as u8;
    assert(le16(v)[0] == b0 && le16(v)[1] == b1);
    assert((b0 as u16) | ((b1 as u16) << 8u16) == v) by (bit_vector)
        requires
            b0 == (v & 0xff) as u8,
            b1 == ((v >> 8u16) & 0xff) as u8,
    ;
}

/// A byte string of at most `MAX_VEC_SIZE` bytes decodes from its ledger
/// encoding.
pub proof fn lemma_byte_string_round_trip(p: Seq<u8>)
    requires
        p.len() <= MAX_VEC_SIZE,
    ensures
        byte_string_decoding(compact_size(p.len()) + p) == Some(p),
{
    let n = p.len();
    let pre = compact_size(n);
    let b = pre + p;
    if n < 0xfd {
        assert(b[0] == n as u8);
    } else if n <= 0xffff {
        lemma_le16_round_trip(n as u16);
        assert(b.subrange(1, 3) =~= le16(n as u16));
    } else {
        lemma_le32_round_trip(n as u32);
        assert(b.subrange(1, 5) =~= le32(n as u32));
    }
    assert(compact_size_header(b) == Some((n, pre.len())));
    assert(b.subrange(pre.len() as int, b.len() as int) =~= p);
}

/// Relies on bitcoin::consensus::encode::serialize of a bitcoin::TxOut: the
/// value little-endian, then the script as a compact-size byte string.
#[verifier::external_body]
fn serialize_txout(value: u64, script: &Vec<u8>) -> (r: Vec<u8>)
    requires
        script@.len() <= 0xffff_ffff,
    ensures
        r@ == txout_bytes(value, script@),
{
    consensus_serialize(&bitcoin::TxOut { value, script_pubkey: bitcoin::Script::from(script.clone()) })
}

/// Relies on bitcoin::consensus::encode::deserialize of a bitcoin::TxOut: it
/// reads an eight-byte value, then a script as a byte string, and fails
/// unless that consumes the input exactly.
#[verifier::external_body]
fn deserialize_txout(b: &[u8]) -> (r: Result<(u64, Vec<u8>), bitcoin::consensus::encode::Error>)
    ensures
        match r {
            Ok((v, s)) => txout_decoding(b@) == Some(TxOutView { value: v, script_pubkey: s@ }),
            Err(_) => txout_decoding(b@) is None,
        },
{
    consensus_deserialize::<bitcoin::TxOut>(b).map(|o| (o.value, o.script_pubkey.into_bytes()))
}

/// Eight little-endian bytes read back as the number they were written from.
pub proof fn lemma_le64_round_trip(v: u64)
    ensures
        from_le64(le64(v)) == v,
{
    let lo = (v & 0xffff_ffff) as u32;
    let hi = (v >> 32u64) as u32;
    lemma_le32_round_trip(lo);
    lemma_le32_round_trip(hi);
    assert(le64(v).subrange(0, 4) =~= le32(lo));
    assert(le64(v).subrange(4, 8) =~= le32(hi));
    assert((lo as u64) | ((hi as u64) << 32u64) == v) by (bit_vector)
        requires
            lo == (v & 0xffff_ffff) as u32,
            hi == (v >> 32u64) as u32,
    ;
}

/// Any eight bytes are the little-endian bytes of the number they hold.
pub proof fn lemma_le64_bytes(b: Seq<u8>)
    requires
        b.len() == 8,
    ensures
        le64(from_le64(b)) == b,
{
    let lo = from_le32(b.subrange(0, 4));
    let hi = from_le32(b.subrange(4, 8));
    let v = from_le64(b);
    assert((v & 0xffff_ffff) as u32 == lo && (v >> 32u64) as u32 == hi) by (bit_vector)
        requires
            v == (lo as u64) | ((hi as u64) << 32u64),
    ;
    lemma_le32_bytes(b.subrange(0, 4));
    lemma_le32_bytes(b.subrange(4, 8));
    assert(le64(v) =~= b);
}

/// Any two bytes are the little-endian bytes of the number they hold.
pub proof fn lemma_le16_bytes(b: Seq<u8>)
    requires
        b.len() == 2,
    ensures
        le16(from_le16(b)) == b,
{
    let (b0, b1) = (b[0], b[1]);
    let v = from_le16(b);
    assert((v & 0xff) as u8 == b0 && ((v >> 8u16) & 0xff) as u8 == b1) by (bit_vector)
        requires
            v == (b0 as u16) | ((b1 as u16) << 8u16),
    ;
    assert(le16(v) =~= b);
}

/// Any four bytes are the little-endian bytes of the number they hold.
pub proof fn lemma_le32_bytes(b: Seq<u8>)
    requires
        b.len() == 4,
    ensures
        le32(from_le32(b)) == b,
{
    let (b0, b1, b2, b3) = (b[0], b[1], b[2], b[3]);
    let v = from_le32(b);
    assert((v & 0xff) as u8 == b0 && ((v >> 8u32) & 0xff) as u8 == b1 && ((v >> 16u32) & 0xff) as u8
        == b2 && ((v >> 24u32) & 0xff) as u8 == b3) by (bit_vector)
        requires
            v == (b0 as u32) | ((b1 as u32) << 8u32) | ((b2 as u32) << 16u32) | ((b3 as u32) << 24u32),
    ;
    assert(le32(v) =~= b);
}

/// Four little-endian bytes read back as the number they were written from.
pub proof fn lemma_le32_round_trip(v: u32)
    ensures
        from_le32(le32(v)) == v,
{
    let b0 = (v & 0xff) as u8;
    let b1 = ((v >> 8u32) & 0xff) as u8;
    let b2 = ((v >> 16u32) & 0xff) as u8;
    let b3 = ((v >> 24u32) & 0xff) as u8;
    assert(le32(v)[0] == b0 && le32(v)[1] == b1 && le32(v)[2] == b2 && le32(v)[3] == b3);
    assert((b0 as u32) | ((b1 as u32) << 8u32) | ((b2 as u32) << 16u32) | ((b3 as u32) << 24u32)
        == v) by (bit_vector)
        requires
            b0 == (v & 0xff) as u8,
            b1 == ((v >> 8u32) & 0xff) as u8,
            b2 == ((v >> 16u32) & 0xff) as u8,
            b3 == ((v >> 24u32) & 0xff) as u8,
    ;
}

impl MessageEncode for OutPoint {
    open spec fn well_formed(v: OutPointView) -> bool {
        v.txid.len() == 32
    }

    open spec fn encoding(v: OutPointView) -> Seq<u8> {
        outpoint_bytes(v.txid, v.vout)
    }

    open spec fn decoding(b: Seq<u8>) -> Option<OutPointView> {
        if b.len() == 36 {
            Some(OutPointView { txid: b.subrange(0, 32), vout: from_le32(b.subrange(32, 36)) })
        } else {
            None
        }
    }

    proof fn lemma_round_trip(v: OutPointView) {
        let b = outpoint_bytes(v.txid, v.vout);
        lemma_le32_round_trip(v.vout);
        assert(b.subrange(0, 32) =~= v.txid);
        assert(b.subrange(32, 36) =~= le32(v.vout));
    }

    proof fn lemma_decoding_canonical(b: Seq<u8>) {
        lemma_le32_bytes(b.subrange(32, 36));
        assert(b =~= b.subrange(0, 32) + b.subrange(32, 36));
    }

    fn into_message(&self) -> (m: Frame) {
        Frame::from_bytes(serialize_outpoint(self.txid, self.vout))
    }

    fn try_from_message(message: &Frame) -> (r: Result<OutPoint, DecodeError>) {
        match deserialize_outpoint(message.as_bytes()) {
            Ok((txid, vout)) => Ok(OutPoint { txid, vout }),
            Err(_) => Err(DecodeError::MalformedFrame),
        }
    }
}

impl BitcoinData for OutPoint {
}

/// A ledger script, held as its bytes.
#[derive(Clone, Debug, PartialEq, Eq)]
pub struct Script {
    pub bytes: Vec<u8>,
}

impl View for Script {
    type V = Seq<u8>;

    open spec fn view(&self) -> Seq<u8> {
        self.bytes@
    }
}

impl MessageEncode for Script {
    open spec fn well_formed(v: Seq<u8>) -> bool {
        v.len() <= MAX_VEC_SIZE
    }

    open spec fn encoding(v: Seq<u8>) -> Seq<u8> {
        compact_size(v.len()) + v
    }

    open spec fn decoding(b: Seq<u8>) -> Option<Seq<u8>> {
        byte_string_decoding(b)
    }

    proof fn lemma_round_trip(v: Seq<u8>) {
        lemma_byte_string_round_trip(v);
    }

    proof fn lemma_decoding_canonical(b: Seq<u8>) {
        let (n, h) = compact_size_header(b)->0;
        if b[0] == 0xfd {
            lemma_le16_bytes(b.subrange(1, 3));
            assert(b =~= seq![0xfdu8] + b.subrange(1, 3) + b.subrange(3, b.len() as int));
        } else if b[0] == 0xfe {
            lemma_le32_bytes(b.subrange(1, 5));
            assert(b =~= seq![0xfeu8] + b.subrange(1, 5) + b.subrange(5, b.len() as int));
        } else {
            assert(b =~= seq![b[0]] + b.subrange(1, b.len() as int));
        }
    }

    fn into_message(&self) -> (m: Frame) {
        Frame::from_bytes(serialize_script(&self.bytes))
    }

    fn try_from_message(message: &Frame) -> (r: Result<Script, DecodeError>) {
        match deserialize_script(message.as_bytes()) {
            Ok(bytes) => Ok(Script { bytes }),
            Err(_) => Err(DecodeError::MalformedFrame),
        }
    }
}

impl BitcoinData for Script {
}

impl ScriptData for Script {
}

impl Script {
    /// A script is registered as ledger data.
    pub fn codec_descriptor() -> (d: CodecDescriptor)
        ensures
            d == (CodecDescriptor { custom: false, ledger: true, commitment: false }),
    {
        CodecDescriptor { custom: false, ledger: true, commitment: false }
    }
}

/// One output of a ledger transaction: an amount and the script that
/// locks it.
#[derive(Clone, Debug, PartialEq, Eq)]
pub struct TxOut {
    pub value: u64,
    pub script_pubkey: Vec<u8>,
}

/// The abstract value of a transaction output.
pub struct TxOutView {
    pub value: u64,
    pub script_pubkey: Seq<u8>,
}

impl View for TxOut {
    type V = TxOutView;

    open spec fn view(&self) -> TxOutView {
        TxOutView { value: self.value, script_pubkey: self.script_pubkey@ }
    }
}

impl MessageEncode for TxOut {
    open spec fn well_formed(v: TxOutView) -> bool {
        v.script_pubkey.len() <= MAX_VEC_SIZE
    }

    open spec fn encoding(v: TxOutView) -> Seq<u8> {
        txout_bytes(v.value, v.script_pubkey)
    }

    open spec fn decoding(b: Seq<u8>) -> Option<TxOutView> {
        txout_decoding(b)
    }

    proof fn lemma_round_trip(v: TxOutView) {
        let b = txout_bytes(v.value, v.script_pubkey);
        lemma_le64_round_trip(v.value);
        lemma_byte_string_round_trip(v.script_pubkey);
        assert(b.subrange(0, 8) =~= le64(v.value));
        assert(b.subrange(8, b.len() as int) =~= compact_size(v.script_pubkey.len()) + v.script_pubkey);
    }

    proof fn lemma_decoding_canonical(b: Seq<u8>) {
        let rest = b.subrange(8, b.len() as int);
        lemma_le64_bytes(b.subrange(0, 8));
        <Script as MessageEncode>::lemma_decoding_canonical(rest);
        assert(b =~= b.subrange(0, 8) + rest);
    }

    fn into_message(&self) -> (m: Frame) {
        Frame::from_bytes(serialize_txout(self.value, &self.script_pubkey))
    }

    fn try_from_message(message: &Frame) -> (r: Result<TxOut, DecodeError>) {
        match deserialize_txout(message.as_bytes()) {
            Ok((value, script_pubkey)) => Ok(TxOut { value, script_pubkey }),
            Err(_) => Err(DecodeError::MalformedFrame),
        }
    }
}

impl BitcoinData for TxOut {
}

impl TxOut {
    /// A transaction output is registered as ledger data.
    pub fn codec_descriptor() -> (d: CodecDescriptor)
        ensures
            d == (CodecDescriptor { custom: false, ledger: true, commitment: false }),
    {
        CodecDescriptor { custom: false, ledger: true, commitment: false }
    }
}

impl OutPoint {
    /// An output reference is registered as ledger data.
    pub fn codec_descriptor() -> (d: CodecDescriptor)
        ensures
            d == (CodecDescriptor { custom: false, ledger: true, commitment: false }),
    {
        CodecDescriptor { custom: false, ledger: true, commitment: false }
    }
}

} // verus!
