use spdmlib::cmds::algorithm::SpdmAlgorithmsPayload;
use spdmlib::cmds::attestation::{
    SpdmCertificateResponsePayload, SpdmChallengeAuthResponsePayload, SpdmChallengeRequestPayload,
    SpdmDigestsResponsePayload, SpdmGetCertificateRequestPayload,
};
use spdmlib::cmds::capability::SpdmCapabilitiesPayload;
use spdmlib::cmds::error::{
    SpdmErrorCode, SpdmErrorResponseExtData, SpdmErrorResponseNoneExtData, SpdmErrorResponseNotReadyExtData,
    SpdmErrorResponsePayload, SpdmErrorResponseVendorExtData,
};
use spdmlib::cmds::key_exchange::SpdmKeyExchangeRequestPayload;
use spdmlib::cmds::psk_exchange::SpdmPskExchangeRequestPayload;
use spdmlib::cmds::version::{SpdmVersionResponsePayload, SpdmVersionStruct};
use spdmlib::codec::{encode_u16, encode_u24, encode_u32, Reader};
use spdmlib::msgs::{
    SpdmBaseAsymAlgo, SpdmBaseHashAlgo, SpdmDheAlgo, SpdmDheExchangeStruct, SpdmDigestStruct, SpdmSignatureStruct,
    SpdmVersion,
};
use spdmlib::spdm_codec::{
    SpdmCertChain, SpdmDmtfMeasurementRepresentation, SpdmDmtfMeasurementStructure, SpdmDmtfMeasurementType,
    SpdmMeasurementBlockStructure, SpdmMeasurementRecordStructure, SpdmOpaqueStruct, SpdmPskContextStruct,
    SpdmPskHintStruct,
};

#[test]
fn integers_are_little_endian() {
    let mut w = Vec::new();
    encode_u16(0x1234, &mut w);
    encode_u24(0x56789A, &mut w);
    encode_u32(0xDEADBEEF, &mut w);
    assert_eq!(w, vec![0x34, 0x12, 0x9A, 0x78, 0x56, 0xEF, 0xBE, 0xAD, 0xDE]);
    let mut r = Reader::init(&w);
    assert_eq!(r.read_u16(), Some(0x1234));
    assert_eq!(r.read_u24(), Some(0x56789A));
    assert_eq!(r.read_u32(), Some(0xDEADBEEF));
    assert_eq!(r.read_u8(), None);
    assert_eq!(r.used(), 9);
}

#[test]
fn negotiated_lengths_are_honoured() {
    let hash = SpdmBaseHashAlgo { bits: spdmlib::msgs::SPDM_HASH_SHA_384 }.get_size();
    let asym = SpdmBaseAsymAlgo { bits: spdmlib::msgs::SPDM_ASYM_ECDSA_P384 }.get_size();
    let dhe = SpdmDheAlgo { bits: spdmlib::msgs::SPDM_DHE_FFDHE_3072 }.get_size();
    assert_eq!((hash, asym, dhe), (48, 96, 384));
    let d = SpdmDigestStruct { data: vec![0xA5; 48] };
    let s = SpdmSignatureStruct { data: vec![0x5A; 96] };
    let x = SpdmDheExchangeStruct { data: vec![0x3C; 384] };
    let mut w = Vec::new();
    d.spdm_encode(&mut w);
    assert_eq!(w.len(), 48);
    s.spdm_encode(&mut w);
    assert_eq!(w.len(), 48 + 96);
    x.spdm_encode(&mut w);
    assert_eq!(w.len(), 48 + 96 + 384);
    w.push(0xEE);
    let mut r = Reader::init(&w);
    assert_eq!(SpdmDigestStruct::spdm_read(hash, &mut r), Some(d));
    assert_eq!(r.used(), 48);
    assert_eq!(SpdmSignatureStruct::spdm_read(asym, &mut r), Some(s));
    assert_eq!(r.used(), 48 + 96);
    assert_eq!(SpdmDheExchangeStruct::spdm_read(dhe, &mut r), Some(x));
    assert_eq!(r.used(), 48 + 96 + 384);
    assert_eq!(r.read_u8(), Some(0xEE));
    let short = [0u8; 10];
    assert_eq!(SpdmDigestStruct::spdm_read(hash, &mut Reader::init(&short)), None);
}

#[test]
fn error_frame_discriminant() {
    let mut r = Reader::init(&[0x42, 0x00, 3, 0xE4, 7, 1]);
    let p = SpdmErrorResponsePayload::spdm_read(&mut r).unwrap();
    assert_eq!(p.error_code, SpdmErrorCode::SpdmErrorResponseNotReady);
    assert_eq!(
        p.extended_data,
        SpdmErrorResponseExtData::SpdmErrorExtDataNotReady(SpdmErrorResponseNotReadyExtData {
            rdt_exponent: 3,
            request_code: 0xE4,
            token: 7,
            tdtm: 1
        })
    );
    let mut r = Reader::init(&[0xFF, 0x00, 1, 2, 3]);
    let p = SpdmErrorResponsePayload::spdm_read(&mut r).unwrap();
    assert_eq!(
        p.extended_data,
        SpdmErrorResponseExtData::SpdmErrorExtDataVendorDefined(SpdmErrorResponseVendorExtData { data: vec![1, 2, 3] })
    );
    let mut r = Reader::init(&[0x04, 0x00, 1, 2, 3, 4]);
    let p = SpdmErrorResponsePayload::spdm_read(&mut r).unwrap();
    assert_eq!(p.error_code, SpdmErrorCode::SpdmErrorUnexpectedRequest);
    assert_eq!(p.extended_data, SpdmErrorResponseExtData::SpdmErrorExtDataNone(SpdmErrorResponseNoneExtData {}));
    assert_eq!(r.used(), 2);
    let mut r = Reader::init(&[0x42, 0x00, 3]);
    assert_eq!(SpdmErrorResponsePayload::spdm_read(&mut r), None);
    let mut r = Reader::init(&[0x99, 0x01]);
    assert_eq!(SpdmErrorResponsePayload::spdm_read(&mut r).unwrap().error_code, SpdmErrorCode::Unknown(0x99));
}

#[test]
fn error_payload_round_trip() {
    for p in [
        SpdmErrorResponsePayload {
            error_code: SpdmErrorCode::SpdmErrorSessionLimitExceeded,
            error_data: 0,
            extended_data: SpdmErrorResponseExtData::SpdmErrorExtDataNone(SpdmErrorResponseNoneExtData {}),
        },
        SpdmErrorResponsePayload {
            error_code: SpdmErrorCode::SpdmErrorResponseNotReady,
            error_data: 0,
            extended_data: SpdmErrorResponseExtData::SpdmErrorExtDataNotReady(SpdmErrorResponseNotReadyExtData {
                rdt_exponent: 1,
                request_code: 0x83,
                token: 9,
                tdtm: 2,
            }),
        },
        SpdmErrorResponsePayload {
            error_code: SpdmErrorCode::SpdmErrorVendorDefined,
            error_data: 5,
            extended_data: SpdmErrorResponseExtData::SpdmErrorExtDataVendorDefined(SpdmErrorResponseVendorExtData {
                data: vec![0xAB; 32],
            }),
        },
    ] {
        let mut w = Vec::new();
        p.spdm_encode(&mut w);
        assert_eq!(SpdmErrorResponsePayload::spdm_read(&mut Reader::init(&w)), Some(p));
    }
}

#[test]
fn version_payload_round_trip() {
    let p = SpdmVersionResponsePayload {
        version_number_entry_count: 2,
        versions: vec![
            SpdmVersionStruct { update: 0, version: SpdmVersion::SpdmVersion10 },
            SpdmVersionStruct { update: 0, version: SpdmVersion::SpdmVersion11 },
        ],
    };
    let mut w = Vec::new();
    p.spdm_encode(&mut w);
    assert_eq!(w, vec![0, 0, 0, 2, 0, 0x10, 0, 0x11]);
    assert_eq!(SpdmVersionResponsePayload::spdm_read(&mut Reader::init(&w)), Some(p));
    assert_eq!(SpdmVersionResponsePayload::spdm_read(&mut Reader::init(&[0, 0, 0, 2, 0, 0x10])), None);
}

#[test]
fn capabilities_round_trip() {
    let p = SpdmCapabilitiesPayload { ct_exponent: 12, flags: 0x0000_6246 };
    let mut w = Vec::new();
    p.spdm_encode(&mut w);
    assert_eq!(w, vec![0, 0, 0, 12, 0, 0, 0x46, 0x62, 0, 0]);
    assert_eq!(SpdmCapabilitiesPayload::spdm_read(&mut Reader::init(&w)), Some(p));
}

#[test]
fn cert_chain_round_trip() {
    let c = SpdmCertChain { root_hash: SpdmDigestStruct { data: vec![1; 32] }, cert_chain: vec![2; 10] };
    let mut w = Vec::new();
    c.spdm_encode(&mut w);
    assert_eq!(&w[0..4], &[46, 0, 0, 0]);
    assert_eq!(SpdmCertChain::spdm_read(32, &mut Reader::init(&w)), Some(c));
    assert_eq!(SpdmCertChain::spdm_read(32, &mut Reader::init(&[3, 0, 0, 0])), None);
}

fn block(index: u8, value: Vec<u8>) -> SpdmMeasurementBlockStructure {
    SpdmMeasurementBlockStructure {
        index,
        measurement_specification: 1,
        measurement_size: value.len() as u16 + 3,
        measurement: SpdmDmtfMeasurementStructure {
            measurement_type: SpdmDmtfMeasurementType::SpdmDmtfMeasurementFirmware,
            representation: SpdmDmtfMeasurementRepresentation::SpdmDmtfMeasurementRawBit,
            value,
        },
    }
}

#[test]
fn measurement_record_length() {
    let rec = SpdmMeasurementRecordStructure { record: vec![block(1, vec![0xAA; 48]), block(2, vec![0xBB; 4])] };
    let mut w = Vec::new();
    rec.spdm_encode(&mut w);
    let expected = (48 + 3 + 4) + (4 + 3 + 4);
    assert_eq!(w[0], 2);
    assert_eq!(w[1] as u32 | (w[2] as u32) << 8 | (w[3] as u32) << 16, expected);
    assert_eq!(w.len(), 4 + expected as usize);
    // representation in the top bit, type below it
    assert_eq!(w[8], 0x81);
    assert_eq!(SpdmMeasurementRecordStructure::spdm_read(&mut Reader::init(&w)), Some(rec));
    let mut bad = w.clone();
    bad[1] = bad[1].wrapping_add(1);
    assert_eq!(SpdmMeasurementRecordStructure::spdm_read(&mut Reader::init(&bad)), None);
    let mut inconsistent = w.clone();
    inconsistent[6] = inconsistent[6].wrapping_add(1);
    assert_eq!(SpdmMeasurementRecordStructure::spdm_read(&mut Reader::init(&inconsistent)), None);
}

#[test]
fn key_exchange_request_round_trip() {
    let p = SpdmKeyExchangeRequestPayload {
        measurement_summary_hash_type: 0xFF,
        slot_id: 0,
        req_session_id: 0xFFFE,
        random: vec![7; 32],
        exchange: SpdmDheExchangeStruct { data: vec![9; 96] },
        opaque: SpdmOpaqueStruct { data: vec![1, 2, 3] },
    };
    let mut w = Vec::new();
    p.spdm_encode(&mut w);
    assert_eq!(w.len(), 2 + 2 + 2 + 32 + 96 + 2 + 3);
    assert_eq!(SpdmKeyExchangeRequestPayload::spdm_read(96, &mut Reader::init(&w)), Some(p));
}

#[test]
fn psk_exchange_request_round_trip() {
    let p = SpdmPskExchangeRequestPayload {
        measurement_summary_hash_type: 0,
        req_session_id: 0x1234,
        psk_hint: SpdmPskHintStruct { data: vec![5; 4] },
        psk_context: SpdmPskContextStruct { data: vec![6; 48] },
        opaque: vec![7; 3],
    };
    let mut w = Vec::new();
    p.spdm_encode(&mut w);
    assert_eq!(&w[0..10], &[0, 0, 0x34, 0x12, 4, 0, 48, 0, 3, 0]);
    assert_eq!(SpdmPskExchangeRequestPayload::spdm_read(&mut Reader::init(&w)), Some(p));
}

#[test]
fn transcript_append_twice_grows() {
    let mut once = spdmlib::transcript::ManagedBuffer::new();
    assert_eq!(once.append_message(b"abc"), Some(3));
    let mut twice = once.clone();
    assert_eq!(twice.append_message(b"abc"), Some(6));
    assert_ne!(once.as_slice(), twice.as_slice());
    let h1 = spdmlib::crypto::hash::ring_hash_all(SpdmBaseHashAlgo { bits: spdmlib::msgs::SPDM_HASH_SHA_256 }, once.as_slice()).unwrap();
    let h2 = spdmlib::crypto::hash::ring_hash_all(SpdmBaseHashAlgo { bits: spdmlib::msgs::SPDM_HASH_SHA_256 }, twice.as_slice()).unwrap();
    assert_ne!(h1, h2);
    let mut full = spdmlib::transcript::ManagedBuffer::new();
    let max = spdmlib::config::MAX_SPDM_MESSAGE_BUFFER_SIZE;
    assert_eq!(full.append_message(&vec![0u8; max]), Some(max));
    assert_eq!(full.append_message(&[1u8]), None);
    assert_eq!(full.len(), max);
}

#[test]
fn ring_digest_known_value() {
    let d = spdmlib::crypto::hash::ring_hash_all(SpdmBaseHashAlgo { bits: spdmlib::msgs::SPDM_HASH_SHA_256 }, b"abc").unwrap();
    assert_eq!(&d.data[0..4], &[0xba, 0x78, 0x16, 0xbf]);
    assert_eq!(d.data.len(), 32);
    let d = spdmlib::crypto::hash::ring_hash_all(SpdmBaseHashAlgo { bits: spdmlib::msgs::SPDM_HASH_SHA_384 }, b"abc").unwrap();
    assert_eq!(d.data.len(), 48);
    assert!(spdmlib::crypto::hash::ring_hash_all(SpdmBaseHashAlgo { bits: 3 }, b"abc").is_none());
}

#[test]
fn random_bytes_have_the_asked_length() {
    let a = spdmlib::crypto::rand::get_random(32).unwrap();
    let b = spdmlib::crypto::rand::get_random(32).unwrap();
    assert_eq!(a.len(), 32);
    assert_ne!(a, b);
}

#[test]
fn attestation_payloads_round_trip() {
    let d = SpdmDigestsResponsePayload { slot_mask: 1, digest: vec![4; 48] };
    let mut w = Vec::new();
    d.spdm_encode(&mut w);
    assert_eq!(&w[0..2], &[0, 1]);
    assert_eq!(SpdmDigestsResponsePayload::spdm_read(48, &mut Reader::init(&w)), Some(d));

    let g = SpdmGetCertificateRequestPayload { slot_id: 0, offset: 0x100, length: 0x400 };
    let mut w = Vec::new();
    g.spdm_encode(&mut w);
    assert_eq!(w, vec![0, 0, 0x00, 0x01, 0x00, 0x04]);
    assert_eq!(SpdmGetCertificateRequestPayload::spdm_read(&mut Reader::init(&w)), Some(g));

    let c = SpdmCertificateResponsePayload { slot_id: 0, remainder_length: 5, portion: vec![1, 2, 3] };
    let mut w = Vec::new();
    c.spdm_encode(&mut w);
    assert_eq!(w, vec![0, 0, 3, 0, 5, 0, 1, 2, 3]);
    assert_eq!(SpdmCertificateResponsePayload::spdm_read(&mut Reader::init(&w)), Some(c));

    let q = SpdmChallengeRequestPayload { slot_id: 0, measurement_summary_hash_type: 1, nonce: vec![8; 32] };
    let mut w = Vec::new();
    q.spdm_encode(&mut w);
    assert_eq!(w.len(), 34);
    assert_eq!(SpdmChallengeRequestPayload::spdm_read(&mut Reader::init(&w)), Some(q));

    let a = SpdmChallengeAuthResponsePayload {
        slot_id: 0,
        slot_mask: 1,
        cert_chain_hash: vec![1; 48],
        nonce: vec![2; 32],
        measurement_summary_hash: vec![3; 48],
        opaque: SpdmOpaqueStruct { data: vec![] },
        signature: vec![4; 96],
    };
    let mut w = Vec::new();
    a.spdm_encode(&mut w);
    assert_eq!(w.len(), 2 + 48 + 32 + 48 + 2 + 96);
    assert_eq!(SpdmChallengeAuthResponsePayload::spdm_read(48, 48, 96, &mut Reader::init(&w)), Some(a));
}

#[test]
fn algorithms_payload_round_trip() {
    let p = SpdmAlgorithmsPayload {
        measurement_specification: 1,
        measurement_hash_algo: 0,
        base_asym_algo: 0x80,
        base_hash_algo: 0x2,
        dhe: 0x2,
        aead: 0x2,
        req_asym: 0,
        key_schedule: 1,
    };
    let mut w = Vec::new();
    p.encode_negotiate_algorithms(&mut w);
    assert_eq!(w.len(), 46);
    assert_eq!(&w[0..4], &[4, 0, 48, 0]);
    assert_eq!(SpdmAlgorithmsPayload::read_negotiate_algorithms(&mut Reader::init(&w)), Some(p));
    let mut w = Vec::new();
    let sel = SpdmAlgorithmsPayload { measurement_hash_algo: 0x4, ..p };
    sel.encode_algorithms(&mut w);
    assert_eq!(w.len(), 50);
    assert_eq!(SpdmAlgorithmsPayload::read_algorithms(&mut Reader::init(&w)), Some(sel));
    w[30] = 1;
    assert_eq!(SpdmAlgorithmsPayload::read_algorithms(&mut Reader::init(&w)), None);
}

#[test]
fn not_ready_retry_delay() {
    let d = SpdmErrorResponseNotReadyExtData { rdt_exponent: 3, request_code: 0x83, token: 1, tdtm: 1 };
    assert_eq!(d.retry_delay_us(), Some(8));
    let d = SpdmErrorResponseNotReadyExtData { rdt_exponent: 63, request_code: 0x83, token: 1, tdtm: 1 };
    assert_eq!(d.retry_delay_us(), Some(1u64 << 63));
    let d = SpdmErrorResponseNotReadyExtData { rdt_exponent: 64, request_code: 0x83, token: 1, tdtm: 1 };
    assert_eq!(d.retry_delay_us(), None);
}
