use localdb::cursor::{Phase, Step};
use localdb::database::Database;
use localdb::parser::Config;
use localdb::query::{get_data, open, read_amount, string_to_static_str, Batch, GetData, BATCH};
use localdb::record::MpdRecordType;

#[test]
fn request_opens_a_cursor_an_hour_before_its_start() {
    let database = Database::new("data".to_string());
    let payload = rmp_serde::to_vec(&("levels", 1577916000u32, 1577926800u32)).unwrap();
    let mut cursor = get_data(&payload, &database).unwrap();
    assert_eq!(cursor.table, "levels");
    assert_eq!(cursor.database.source, "data");
    assert_eq!(cursor.start_ts, 1577916000);
    assert_eq!(cursor.end_ts, 1577926800);
    assert_eq!(cursor.curr_ts, 1577912400);
    assert_eq!(cursor.phase, Phase::Reading);
    assert!(cursor.de.bytes.is_empty());
    match cursor.next() {
        Step::Seek { file, .. } => assert_eq!(file, "data/levels/20200101/22"),
        other => panic!("{:?}", other),
    }
}

#[test]
fn request_is_read_from_its_bytes() {
    let database = Database::new("d".to_string());
    // An array of three: the text "ab", 5 and 300.
    let payload = [0x93, 0xa2, b'a', b'b', 0x05, 0xcd, 0x01, 0x2c];
    let cursor = get_data(&payload, &database).unwrap();
    assert_eq!(cursor.table, "ab");
    assert_eq!(cursor.start_ts, 5);
    assert_eq!(cursor.end_ts, 300);
    assert_eq!(cursor.curr_ts, 5 - 3600);
}

#[test]
fn message_that_is_no_request_opens_no_cursor() {
    let database = Database::new("data".to_string());
    assert!(get_data(&[], &database).is_none());
    assert!(get_data(&[0xc1], &database).is_none());
    assert!(get_data(&[0x92, 0xa1, b'a', 0x05], &database).is_none());
    assert!(get_data(&[0x93, 0x01, 0x02, 0x03], &database).is_none());
    let wide = rmp_serde::to_vec(&("levels", 1u64 << 40, 2u32)).unwrap();
    assert!(get_data(&wide, &database).is_none());
}

#[test]
fn open_takes_the_request_as_it_is() {
    let database = Database::new("data".to_string());
    let request = GetData { table: "t".to_string(), start_ts: 0, end_ts: u32::MAX };
    let cursor = open(&database, request);
    assert_eq!(cursor.curr_ts, -3600);
    assert_eq!(cursor.start_ts, 0);
    assert_eq!(cursor.end_ts, u32::MAX);
}

#[test]
fn batch_goes_out_when_it_holds_fifty_records() {
    assert_eq!(BATCH, 50);
    let mut batch = Batch::new();
    let mut expected = Vec::new();
    for i in 0..49u32 {
        let record = MpdRecordType::new(i, vec![i as u8]);
        expected.extend_from_slice(&record.encode());
        assert!(batch.push(&record).is_none());
        assert_eq!(batch.count, i as usize + 1);
        assert_eq!(batch.buf, expected);
    }
    let record = MpdRecordType::new(49, vec![49]);
    expected.extend_from_slice(&record.encode());
    assert_eq!(batch.push(&record), Some(expected));
    assert_eq!(batch.count, 0);
    assert!(batch.buf.is_empty());
}

#[test]
fn answer_of_120_records_is_three_batches_and_the_empty_message() {
    let mut batch = Batch::new();
    let mut messages = Vec::new();
    let mut all = Vec::new();
    for i in 0..120u32 {
        let record = MpdRecordType::new(i, vec![1, 2]);
        all.extend_from_slice(&record.encode());
        if let Some(message) = batch.push(&record) {
            messages.push(message);
        }
    }
    messages.extend(batch.finish());
    assert_eq!(messages.len(), 4);
    let one = MpdRecordType::new(0, vec![1, 2]).encode().len();
    assert_eq!(messages[0].len(), 50 * one);
    assert_eq!(messages[1].len(), 50 * one);
    assert_eq!(messages[2].len(), 20 * one);
    assert!(messages[3].is_empty());
    assert_eq!(messages.concat(), all);
}

#[test]
fn answer_of_a_full_batch_ends_with_one_empty_message() {
    let mut batch = Batch::new();
    let mut messages = Vec::new();
    for i in 0..50u32 {
        if let Some(message) = batch.push(&MpdRecordType::new(i, Vec::new())) {
            messages.push(message);
        }
    }
    messages.extend(batch.finish());
    assert_eq!(messages.len(), 2);
    assert!(!messages[0].is_empty());
    assert!(messages[1].is_empty());
}

#[test]
fn answer_without_records_is_the_empty_message() {
    assert_eq!(Batch::new().finish(), vec![Vec::<u8>::new()]);
}

#[test]
fn amount_is_read_from_a_text() {
    assert_eq!(read_amount(&rmp_serde::to_vec("12").unwrap()), Some(12));
    assert_eq!(read_amount(&rmp_serde::to_vec(" 12\n").unwrap()), Some(12));
    assert_eq!(read_amount(&rmp_serde::to_vec("\t+3 ").unwrap()), Some(3));
    assert_eq!(read_amount(&[0xa1, b'7']), Some(7));
    assert_eq!(read_amount(&rmp_serde::to_vec("1 2").unwrap()), None);
    assert_eq!(read_amount(&rmp_serde::to_vec("").unwrap()), None);
    assert_eq!(read_amount(&rmp_serde::to_vec("-1").unwrap()), None);
    assert_eq!(read_amount(&rmp_serde::to_vec(&12u32).unwrap()), None);
    assert_eq!(read_amount(&[]), None);
}

#[test]
fn static_text_is_the_text() {
    let text: &'static str = string_to_static_str(String::from("levels"));
    assert_eq!(text, "levels");
    assert_eq!(string_to_static_str(String::new()), "");
}

#[test]
fn default_config_is_the_local_broker() {
    let config = Config::default();
    assert_eq!(config.ip, "127.0.0.1");
    assert_eq!(config.port, 1883);
    assert_eq!(config.topics, vec!["topic1".to_string()]);
}
