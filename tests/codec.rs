use lnpbp_encode::bp::{OutPoint, Script, TxOut};
use lnpbp_encode::classify::{resolve, Codec, CodecDescriptor, Registry, RegistrationError};
use lnpbp_encode::encode::{MessageEncode, MultipartEncode, VecEncoding};
use lnpbp_encode::frame::{DecodeError, Frame};

fn outpoint(seed: u8, vout: u32) -> OutPoint {
    let mut txid = [0u8; 32];
    for (i, b) in txid.iter_mut().enumerate() {
        *b = seed.wrapping_add(i as u8);
    }
    OutPoint { txid, vout }
}

fn descriptor(custom: bool, ledger: bool, commitment: bool) -> CodecDescriptor {
    CodecDescriptor { custom, ledger, commitment }
}

#[test]
fn outpoint_frame_layout() {
    let o = outpoint(7, 0x0403_0201);
    let f = o.into_message();
    assert_eq!(f.len(), 36);
    assert_eq!(&f.as_bytes()[..32], &o.txid[..]);
    assert_eq!(&f.as_bytes()[32..], &[1u8, 2, 3, 4][..]);
}

#[test]
fn outpoint_frame_matches_ledger_serializer() {
    let o = outpoint(200, 17);
    let ours = o.into_message();
    let theirs = bitcoin::consensus::encode::serialize(&bitcoin::OutPoint {
        txid: <bitcoin::Txid as bitcoin::hashes::Hash>::from_inner(o.txid),
        vout: 17,
    });
    assert_eq!(ours.as_bytes(), &theirs[..]);
}

#[test]
fn outpoint_round_trip() {
    let o = outpoint(1, u32::MAX);
    let f = o.into_message();
    let back = OutPoint::try_from_message(&f).unwrap();
    assert_eq!(back, o);
    assert_eq!(back.into_message(), f);
}

#[test]
fn outpoint_decodes_from_given_bytes() {
    let mut bytes: Vec<u8> = (0u8..32).collect();
    bytes.extend_from_slice(&[0x10, 0, 0, 0]);
    let o = OutPoint::try_from_message(&Frame::from_bytes(bytes)).unwrap();
    assert_eq!(o.vout, 16);
    assert_eq!(o.txid[31], 31);
}

#[test]
fn truncated_frame_is_decode_error() {
    let f = outpoint(9, 3).into_message();
    let truncated = Frame::from_bytes(f.as_bytes()[..3].to_vec());
    assert_eq!(OutPoint::try_from_message(&truncated), Err(DecodeError::MalformedFrame));
}

#[test]
fn overlong_and_empty_frames_are_decode_errors() {
    let mut bytes = outpoint(9, 3).into_message().as_bytes().to_vec();
    bytes.push(0);
    assert_eq!(OutPoint::try_from_message(&Frame::from_bytes(bytes)), Err(DecodeError::MalformedFrame));
    assert_eq!(OutPoint::try_from_message(&Frame::from_bytes(Vec::new())), Err(DecodeError::MalformedFrame));
}

#[test]
fn three_outpoints_keep_their_order() {
    let (a, b, c) = (outpoint(1, 0), outpoint(2, 1), outpoint(3, 2));
    let m = VecEncoding::new(vec![a, b, c]).into_multipart();
    assert_eq!(m.len(), 3);
    assert_eq!(m[0], a.into_message());
    assert_eq!(m[2], c.into_message());
    let back = VecEncoding::<OutPoint>::try_from_multipart(&m).unwrap().into_vec();
    assert_eq!(back, vec![a, b, c]);
}

#[test]
fn one_bad_frame_fails_the_whole_sequence() {
    let mut m = VecEncoding::new(vec![outpoint(1, 0), outpoint(2, 1), outpoint(3, 2)]).into_multipart();
    m[1] = Frame::from_bytes(vec![1, 2, 3]);
    assert!(VecEncoding::<OutPoint>::try_from_multipart(&m).is_err());
    m[1] = outpoint(2, 1).into_message();
    m[2] = Frame::from_bytes(Vec::new());
    match VecEncoding::<OutPoint>::try_from_multipart(&m) {
        Err(e) => assert_eq!(e, DecodeError::MalformedFrame),
        Ok(_) => panic!("a sequence with a bad frame decoded"),
    }
}

#[test]
fn empty_sequence_is_zero_frames() {
    let m = VecEncoding::<OutPoint>::new(Vec::new()).into_multipart();
    assert_eq!(m.len(), 0);
    let back = VecEncoding::<OutPoint>::try_from_multipart(&m).unwrap();
    assert!(back.iter().is_empty());
}

#[test]
fn unclassified_type_is_rejected_at_registration() {
    let mut reg = Registry::new(false);
    assert_eq!(reg.register(1, descriptor(false, false, false)), Err(RegistrationError::Unclassified));
    assert_eq!(reg.codec_of(1), None);
}

#[test]
fn commitment_data_needs_the_capability() {
    let mut off = Registry::new(false);
    assert_eq!(off.register(5, descriptor(false, false, true)), Err(RegistrationError::Unclassified));
    let mut on = Registry::new(true);
    assert_eq!(on.register(5, descriptor(false, false, true)), Ok(Codec::CommitmentData));
    assert_eq!(on.codec_of(5), Some(Codec::CommitmentData));
}

#[test]
fn custom_codec_with_a_tag_is_a_conflict() {
    assert_eq!(resolve(descriptor(true, true, false), true), Err(RegistrationError::CodecConflict));
    assert_eq!(resolve(descriptor(true, false, true), true), Err(RegistrationError::CodecConflict));
    assert_eq!(resolve(descriptor(false, true, true), true), Err(RegistrationError::CodecConflict));
    assert_eq!(resolve(descriptor(true, false, false), false), Ok(Codec::Custom));
}

#[test]
fn double_registration_is_a_conflict() {
    let mut reg = Registry::new(false);
    assert_eq!(reg.register(3, OutPoint::codec_descriptor()), Ok(Codec::LedgerData));
    assert_eq!(reg.register(3, descriptor(true, false, false)), Err(RegistrationError::CodecConflict));
    assert_eq!(reg.codec_of(3), Some(Codec::LedgerData));
}

fn script(bytes: Vec<u8>) -> Script {
    Script { bytes }
}

#[test]
fn short_script_frame_layout() {
    let f = script(vec![0x51, 0x52, 0x53]).into_message();
    assert_eq!(f.as_bytes(), &[3u8, 0x51, 0x52, 0x53][..]);
    assert_eq!(script(Vec::new()).into_message().as_bytes(), &[0u8][..]);
}

#[test]
fn long_script_prefixes() {
    let f = script(vec![7u8; 253]).into_message();
    assert_eq!(f.len(), 256);
    assert_eq!(&f.as_bytes()[..3], &[0xfdu8, 0xfd, 0x00][..]);
    let g = script(vec![1u8; 0x10000]).into_message();
    assert_eq!(g.len(), 0x10000 + 5);
    assert_eq!(&g.as_bytes()[..5], &[0xfeu8, 0x00, 0x00, 0x01, 0x00][..]);
}

#[test]
fn script_frame_matches_ledger_serializer() {
    let bytes: Vec<u8> = (0u8..=255).collect();
    let theirs = bitcoin::consensus::encode::serialize(&bitcoin::Script::from(bytes.clone()));
    assert_eq!(script(bytes).into_message().as_bytes(), &theirs[..]);
}

#[test]
fn script_round_trip() {
    for len in [0usize, 1, 252, 253, 300, 0xffff, 0x10000] {
        let s = script((0..len).map(|i| i as u8).collect());
        let f = s.clone().into_message();
        let back = Script::try_from_message(&f).unwrap();
        assert_eq!(back, s);
        assert_eq!(back.into_message(), f);
    }
}

#[test]
fn malformed_script_frames_are_decode_errors() {
    let non_minimal = Frame::from_bytes(vec![0xfd, 0x03, 0x00, 1, 2, 3]);
    assert_eq!(Script::try_from_message(&non_minimal), Err(DecodeError::MalformedFrame));
    let short = Frame::from_bytes(vec![4, 1, 2, 3]);
    assert_eq!(Script::try_from_message(&short), Err(DecodeError::MalformedFrame));
    let long = Frame::from_bytes(vec![2, 1, 2, 3]);
    assert_eq!(Script::try_from_message(&long), Err(DecodeError::MalformedFrame));
    let wide = Frame::from_bytes(vec![0xff, 0, 0, 0, 0, 1, 0, 0, 0]);
    assert_eq!(Script::try_from_message(&wide), Err(DecodeError::MalformedFrame));
    assert_eq!(Script::try_from_message(&Frame::from_bytes(Vec::new())), Err(DecodeError::MalformedFrame));
}

#[test]
fn scripts_in_a_multipart_keep_their_order() {
    let items = vec![script(vec![1]), script(Vec::new()), script(vec![2, 3])];
    let m = VecEncoding::new(items.clone()).into_multipart();
    assert_eq!(m.len(), 3);
    assert_eq!(m[1].as_bytes(), &[0u8][..]);
    let back = VecEncoding::<Script>::try_from_multipart(&m).unwrap();
    assert_eq!(back.iter(), &items[..]);
}

#[test]
fn script_registers_as_ledger_data() {
    let mut reg = Registry::new(false);
    assert_eq!(reg.register(10, Script::codec_descriptor()), Ok(Codec::LedgerData));
    assert_eq!(reg.register(11, OutPoint::codec_descriptor()), Ok(Codec::LedgerData));
    assert_eq!(reg.codec_of(10), Some(Codec::LedgerData));
    assert_eq!(reg.codec_of(12), None);
}

#[test]
fn txout_frame_layout() {
    let o = TxOut { value: 0x0102_0304_0506_0708, script_pubkey: vec![0xaa, 0xbb] };
    let f = o.into_message();
    assert_eq!(f.as_bytes(), &[8u8, 7, 6, 5, 4, 3, 2, 1, 2, 0xaa, 0xbb][..]);
}

#[test]
fn txout_frame_matches_ledger_serializer() {
    let script: Vec<u8> = vec![0x76, 0xa9, 0x14, 0x88, 0xac];
    let theirs = bitcoin::consensus::encode::serialize(&bitcoin::TxOut {
        value: 50_000,
        script_pubkey: bitcoin::Script::from(script.clone()),
    });
    let ours = TxOut { value: 50_000, script_pubkey: script }.into_message();
    assert_eq!(ours.as_bytes(), &theirs[..]);
}

#[test]
fn txout_round_trip() {
    let o = TxOut { value: u64::MAX, script_pubkey: vec![0u8; 300] };
    let f = o.clone().into_message();
    let back = TxOut::try_from_message(&f).unwrap();
    assert_eq!(back, o);
    assert_eq!(back.into_message(), f);
}

#[test]
fn truncated_txout_is_decode_error() {
    let f = TxOut { value: 1, script_pubkey: vec![1, 2, 3] }.into_message();
    let truncated = Frame::from_bytes(f.as_bytes()[..f.len() - 3].to_vec());
    assert_eq!(TxOut::try_from_message(&truncated), Err(DecodeError::MalformedFrame));
    let three = Frame::from_bytes(f.as_bytes()[..3].to_vec());
    assert_eq!(TxOut::try_from_message(&three), Err(DecodeError::MalformedFrame));
}
