use getdents_ls::{
    exit_code_of, extract_name, is_pseudo_name, name_or_empty, parse_records, Enumeration,
    ExitCode, FillEvent, ListError, Step, DEFAULT_BUF_SIZE, HEADER_LEN,
};

/// Lays out one `linux_dirent64` record as the kernel does: header, name,
/// NUL, padding to eight bytes.
fn record(ino: u64, d_type: u8, name: &[u8]) -> Vec<u8> {
    let len = (HEADER_LEN + name.len() + 1 + 7) / 8 * 8;
    let mut rec = Vec::new();
    rec.extend_from_slice(&ino.to_le_bytes());
    rec.extend_from_slice(&0i64.to_le_bytes());
    rec.extend_from_slice(&(len as u16).to_le_bytes());
    rec.push(d_type);
    rec.extend_from_slice(name);
    rec.resize(len, 0);
    rec
}

fn demo_records() -> Vec<Vec<u8>> {
    vec![
        record(11, 4, b"."),
        record(2, 4, b".."),
        record(12, 8, b"a.txt"),
        record(13, 8, b"b.txt"),
        record(14, 4, b"sub"),
    ]
}

/// Runs an enumeration over the given fills, each copied into a buffer of
/// `buf_size` bytes, followed by the empty fill that ends it.
fn enumerate(fills: &[Vec<u8>], buf_size: usize) -> Result<Vec<String>, ListError> {
    let mut e = Enumeration::new();
    let mut buf = vec![0u8; buf_size];
    for fill in fills {
        buf[..fill.len()].copy_from_slice(fill);
        match e.on_fill(&buf, FillEvent::Filled(fill.len())) {
            Step::FillAgain => {}
            Step::Aborted(err) => return Err(err),
            Step::Finished => unreachable!(),
        }
    }
    assert_eq!(e.on_fill(&buf, FillEvent::Filled(0)), Step::Finished);
    Ok(e.into_names())
}

fn sorted(mut v: Vec<String>) -> Vec<String> {
    v.sort();
    v
}

#[test]
fn demo_directory_lists_its_three_entries() {
    let fill: Vec<u8> = demo_records().concat();
    let result = enumerate(&[fill], DEFAULT_BUF_SIZE);
    assert_eq!(exit_code_of(&result), ExitCode::Success);
    assert_eq!(exit_code_of(&result).code(), 0);
    let names = result.unwrap();
    assert_eq!(names, vec!["a.txt", "b.txt", "sub"]);
    assert_eq!(sorted(names), vec!["a.txt", "b.txt", "sub"]);
}

#[test]
fn empty_directory_lists_nothing() {
    let fill: Vec<u8> = vec![record(11, 4, b"."), record(2, 4, b"..")].concat();
    let result = enumerate(&[fill], 1024);
    assert_eq!(exit_code_of(&result).code(), 0);
    assert_eq!(result.unwrap(), Vec::<String>::new());
}

#[test]
fn missing_directory_exits_with_one() {
    let result: Result<Vec<String>, ListError> = Err(ListError::NotADirectory);
    assert_eq!(exit_code_of(&result), ExitCode::Error);
    assert_eq!(exit_code_of(&result).code(), 1);
    assert_eq!(ExitCode::Success.code(), 0);
    assert_eq!(ExitCode::Error.code(), 1);
}

#[test]
fn small_buffer_gives_the_same_listing() {
    let records = demo_records();
    let whole = enumerate(&[records.concat()], 1024).unwrap();
    let one_each: Vec<Vec<u8>> = records.clone();
    let largest = records.iter().map(|r| r.len()).max().unwrap();
    let split = enumerate(&one_each, largest).unwrap();
    assert_eq!(split, whole);
    let pairs = vec![records[..2].concat(), records[2..4].concat(), records[4..].concat()];
    assert_eq!(enumerate(&pairs, 64).unwrap(), whole);
}

#[test]
fn undecodable_name_is_listed_empty() {
    let fill: Vec<u8> = vec![
        record(11, 4, b"."),
        record(12, 8, b"bad\xff\xfename"),
        record(13, 8, b"good"),
    ]
    .concat();
    let names = parse_records(&fill, fill.len()).unwrap();
    assert_eq!(names, vec!["".to_string(), "good".to_string()]);
}

#[test]
fn vacant_slot_is_skipped() {
    let fill: Vec<u8> = vec![record(0, 8, b"gone"), record(12, 8, b"kept")].concat();
    assert_eq!(parse_records(&fill, fill.len()).unwrap(), vec!["kept"]);
}

#[test]
fn empty_fill_lists_nothing() {
    let buf = vec![1u8; 32];
    assert_eq!(parse_records(&buf, 0).unwrap(), Vec::<String>::new());
}

#[test]
fn only_the_filled_bytes_are_read() {
    let mut buf: Vec<u8> = vec![record(12, 8, b"one"), record(13, 8, b"two")].concat();
    let first = record(12, 8, b"one").len();
    buf.extend_from_slice(&[0xAA; 40]);
    assert_eq!(parse_records(&buf, first).unwrap(), vec!["one"]);
}

#[test]
fn zero_record_length_is_a_fault() {
    let mut fill = record(12, 8, b"x");
    fill[16] = 0;
    fill[17] = 0;
    assert!(parse_records(&fill, fill.len()).is_none());
    let mut e = Enumeration::new();
    assert_eq!(
        e.on_fill(&fill, FillEvent::Filled(fill.len())),
        Step::Aborted(ListError::MalformedRecord)
    );
    assert_eq!(e.into_names(), Vec::<String>::new());
}

#[test]
fn record_past_the_fill_is_a_fault() {
    let fill = record(12, 8, b"name");
    assert!(parse_records(&fill, fill.len() - 1).is_none());
    let mut longer = fill.clone();
    longer[16] = (fill.len() + 8) as u8;
    longer.extend_from_slice(&[0; 8]);
    assert!(parse_records(&longer, fill.len()).is_none());
}

#[test]
fn truncated_header_is_a_fault() {
    let fill = record(12, 8, b"name");
    assert!(parse_records(&fill, HEADER_LEN - 1).is_none());
}

#[test]
fn record_length_below_header_is_a_fault() {
    let mut fill = record(12, 8, b"name");
    fill[16] = (HEADER_LEN - 1) as u8;
    assert!(parse_records(&fill, fill.len()).is_none());
}

#[test]
fn fill_count_beyond_buffer_aborts() {
    let buf = record(12, 8, b"name");
    let mut e = Enumeration::new();
    assert_eq!(
        e.on_fill(&buf, FillEvent::Filled(buf.len() + 1)),
        Step::Aborted(ListError::MalformedRecord)
    );
}

#[test]
fn failed_call_aborts_with_read_failed() {
    let buf = vec![0u8; 64];
    let mut e = Enumeration::new();
    assert_eq!(e.on_fill(&buf, FillEvent::Failed), Step::Aborted(ListError::ReadFailed));
}

#[test]
fn failed_fill_keeps_earlier_names_out_of_a_result() {
    let fill = record(12, 8, b"first");
    let mut e = Enumeration::new();
    assert_eq!(e.on_fill(&fill, FillEvent::Filled(fill.len())), Step::FillAgain);
    assert_eq!(e.on_fill(&fill, FillEvent::Failed), Step::Aborted(ListError::ReadFailed));
    assert_eq!(e.into_names(), vec!["first"]);
}

#[test]
fn name_stops_at_nul() {
    let field = b"abc\0def";
    assert_eq!(extract_name(field, 0, field.len()), "abc");
    assert_eq!(extract_name(field, 4, field.len()), "def");
    assert_eq!(extract_name(field, 1, 3), "bc");
    assert_eq!(extract_name(field, 3, 3), "");
}

#[test]
fn name_decodes_multibyte_text() {
    let field = "héllo\0".as_bytes();
    assert_eq!(extract_name(field, 0, field.len()), "héllo");
    assert_eq!(extract_name(b"\xc3\0", 0, 2), "");
}

#[test]
fn undecodable_text_becomes_empty_name() {
    assert_eq!(name_or_empty(None), "");
    assert_eq!(name_or_empty(Some("x".to_string())), "x");
}

#[test]
fn pseudo_names_are_recognised() {
    assert!(is_pseudo_name(&".".to_string()));
    assert!(is_pseudo_name(&"..".to_string()));
    assert!(!is_pseudo_name(&"...".to_string()));
    assert!(!is_pseudo_name(&".a".to_string()));
    assert!(!is_pseudo_name(&"".to_string()));
}

#[test]
fn default_buffer_is_five_mebibytes() {
    assert_eq!(DEFAULT_BUF_SIZE, 5 * 1024 * 1024);
}
