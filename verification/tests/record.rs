use localdb::record::{Decoded, MpdRecordType};

fn record(id: u32, datalog: Vec<u8>) -> MpdRecordType {
    MpdRecordType::new(id, datalog)
}

#[test]
fn checksum_is_crc32_of_the_payload() {
    assert_eq!(record(7, b"123456789".to_vec()).checksum, 0xcbf4_3926);
    assert_eq!(record(7, vec![1, 200, 255]).checksum, 0xd0a2_01ee);
    assert_eq!(record(7, Vec::new()).checksum, 0);
}

#[test]
fn new_keeps_id_and_payload() {
    let r = record(1577916000, vec![9, 8, 7]);
    assert_eq!(r.id, 1577916000);
    assert_eq!(r.datalog, vec![9, 8, 7]);
    assert!(r.is_intact());
}

#[test]
fn checksum_recomputed_by_the_crc_crate_agrees() {
    for payload in [Vec::new(), vec![0], vec![1, 200, 0, 255, 1], vec![255; 1000]] {
        let r = record(1, payload.clone());
        assert_eq!(r.checksum, crc::crc32::checksum_ieee(&payload));
    }
}

#[test]
fn a_record_with_another_checksum_is_not_intact() {
    let mut r = record(1, vec![1, 2, 3]);
    r.checksum ^= 1;
    assert!(!r.is_intact());
    let mut r = record(1, vec![1, 2, 3]);
    r.datalog[0] = 9;
    assert!(!r.is_intact());
}

#[test]
fn wire_form_of_a_record_with_empty_payload() {
    // An array of three: the id, an empty array, the checksum.
    assert_eq!(record(1, Vec::new()).encode(), vec![0x93, 0x01, 0x90, 0x00]);
}

#[test]
fn wire_form_writes_each_number_in_its_shortest_form() {
    let bytes = record(1577916000, vec![1, 200, 255]).encode();
    assert_eq!(
        bytes,
        vec![
            0x93, // array of three
            0xce, 0x5e, 0x0d, 0x16, 0x60, // id
            0x93, 0x01, 0xcc, 0xc8, 0xcc, 0xff, // payload, byte by byte
            0xce, 0xd0, 0xa2, 0x01, 0xee, // checksum
        ]
    );
    let r = MpdRecordType { id: 200, datalog: vec![127, 128], checksum: 0x1234 };
    assert_eq!(r.encode(), vec![0x93, 0xcc, 200, 0x92, 127, 0xcc, 128, 0xcd, 0x12, 0x34]);
}

#[test]
fn wire_form_of_a_long_payload_has_a_wide_array_header() {
    let bytes = record(0, vec![0; 16]).encode();
    assert_eq!(&bytes[..5], &[0x93, 0x00, 0xdc, 0x00, 0x10]);
    let bytes = record(0, vec![0; 70000]).encode();
    assert_eq!(&bytes[..7], &[0x93, 0x00, 0xdd, 0x00, 0x01, 0x11, 0x70]);
}

#[test]
fn decode_gives_back_what_encode_took() {
    let payloads: Vec<Vec<u8>> = vec![
        Vec::new(),
        vec![0],
        vec![255],
        vec![1, 200, 0, 255, 1],
        (0..=255).collect(),
        vec![0x93; 20],
        vec![7; 70000],
    ];
    for id in [0u32, 1, 127, 128, 255, 256, 65535, 65536, 1577916000, u32::MAX] {
        for payload in &payloads {
            let r = record(id, payload.clone());
            let bytes = r.encode();
            match MpdRecordType::decode(&bytes) {
                Decoded::Record { record, used } => {
                    assert_eq!(record, r);
                    assert_eq!(used, bytes.len());
                },
                other => panic!("{:?}", other),
            }
        }
    }
}

#[test]
fn encode_gives_back_what_decode_took() {
    let all: Vec<Vec<u8>> = vec![
        vec![0x93, 0x01, 0x90, 0x00],
        vec![0x93, 0xcc, 200, 0x92, 127, 0xcc, 128, 0xcd, 0x12, 0x34],
        record(1577916000, vec![1, 200, 255]).encode(),
        record(u32::MAX, (0..=255).collect()).encode(),
    ];
    for bytes in all {
        match MpdRecordType::decode(&bytes) {
            Decoded::Record { record, used } => {
                assert_eq!(used, bytes.len());
                assert_eq!(record.encode(), bytes);
            },
            other => panic!("{:?}", other),
        }
    }
}

#[test]
fn decode_reads_one_record_and_says_how_far_it_read() {
    let first = record(10, vec![1, 2, 3]);
    let second = record(20, Vec::new());
    let mut bytes = first.encode();
    let cut = bytes.len();
    bytes.extend_from_slice(&second.encode());
    bytes.extend_from_slice(&[0xff, 0xff]);

    match MpdRecordType::decode(&bytes) {
        Decoded::Record { record, used } => {
            assert_eq!(record, first);
            assert_eq!(used, cut);
        },
        other => panic!("{:?}", other),
    }
    match MpdRecordType::decode(&bytes[cut..]) {
        Decoded::Record { record, used } => {
            assert_eq!(record, second);
            assert_eq!(used, bytes.len() - cut - 2);
        },
        other => panic!("{:?}", other),
    }
}

#[test]
fn decode_of_nothing_is_the_end() {
    assert_eq!(MpdRecordType::decode(&[]), Decoded::End);
}

#[test]
fn decode_that_runs_out_where_a_value_starts_is_the_end() {
    // The array's header is there, its first value is not.
    assert_eq!(MpdRecordType::decode(&[0x93]), Decoded::End);
    assert_eq!(MpdRecordType::decode(&[0x93, 0x01, 0x92, 0x05]), Decoded::End);
}

#[test]
fn decode_of_broken_bytes_is_an_anomaly() {
    // A number cut short.
    assert_eq!(MpdRecordType::decode(&[0x93, 0xce, 0x00]), Decoded::Anomaly);
    // A marker that MessagePack never uses.
    assert_eq!(MpdRecordType::decode(&[0xc1]), Decoded::Anomaly);
    // A text where the array is due.
    assert_eq!(MpdRecordType::decode(&[0xa1, 0x41]), Decoded::Anomaly);
    // An array of two, and one of four.
    assert_eq!(MpdRecordType::decode(&[0x92, 0x01, 0x90]), Decoded::Anomaly);
    assert_eq!(MpdRecordType::decode(&[0x94, 0x01, 0x90, 0x00, 0x00]), Decoded::Anomaly);
    // An id that does not fit 32 bits.
    assert_eq!(
        MpdRecordType::decode(&[0x93, 0xcf, 0, 0, 0, 1, 0, 0, 0, 0, 0x90, 0x00]),
        Decoded::Anomaly
    );
    // A payload item that is no byte.
    assert_eq!(MpdRecordType::decode(&[0x93, 0x01, 0x91, 0xcd, 0x01, 0x00, 0x00]), Decoded::Anomaly);
    // The three fields under their names, in a map.
    let named = [
        0x83, 0xa2, b'i', b'd', 0x01, 0xa7, b'd', b'a', b't', b'a', b'l', b'o', b'g', 0x90, 0xa8,
        b'c', b'h', b'e', b'c', b'k', b's', b'u', b'm', 0x00,
    ];
    assert_eq!(MpdRecordType::decode(&named), Decoded::Anomaly);
}

#[test]
fn decode_takes_numbers_in_wider_forms_than_needed() {
    let bytes = [0x93, 0xcd, 0x00, 0x05, 0x91, 0xcc, 0x07, 0xce, 0, 0, 0, 9];
    assert_eq!(
        MpdRecordType::decode(&bytes),
        Decoded::Record {
            record: MpdRecordType { id: 5, datalog: vec![7], checksum: 9 },
            used: 12
        }
    );
}
