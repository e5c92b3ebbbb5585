use pdf2john::PdfHashExtractor;

fn sample() -> PdfHashExtractor {
    PdfHashExtractor {
        algorithm: 4,
        revision: 4,
        length: 128,
        permissions: -3904,
        encrypt_metadata: true,
        document_id: vec![0xab; 16],
        user_password: vec![0x01; 32],
        owner_password: vec![0xfe; 32],
        owner_encryption_seed: None,
        user_encryption_seed: None,
    }
}

fn fields_after_prefix(line: &str) -> Vec<String> {
    assert!(line.starts_with("$pdf$"));
    line[5..].split('*').map(|s| s.to_string()).collect()
}

#[test]
fn formats_a_revision_4_record() {
    let line = sample().format_hash();
    let expected = format!(
        "$pdf$4*4*128*-3904*1*16*{}*32*{}*32*{}",
        "ab".repeat(16),
        "01".repeat(32),
        "fe".repeat(32)
    );
    assert_eq!(line, expected);
}

#[test]
fn formatting_twice_gives_the_same_line() {
    let record = sample();
    assert_eq!(record.format_hash(), record.format_hash());
    let mut with_seeds = sample();
    with_seeds.owner_encryption_seed = Some(vec![7; 5]);
    with_seeds.user_encryption_seed = Some(vec![8; 6]);
    assert_eq!(with_seeds.format_hash(), with_seeds.format_hash());
}

#[test]
fn hex_is_lowercase_two_digits_per_byte() {
    let mut record = sample();
    record.document_id = vec![0x00, 0x0a, 0xa0, 0xff, 0x10, 0x7f, 0x80, 0xde];
    record.user_password = vec![];
    record.owner_password = vec![0xbe, 0xef];
    assert_eq!(
        record.format_hash(),
        "$pdf$4*4*128*-3904*1*8*000aa0ff107f80de*0**2*beef"
    );
}

#[test]
fn lengths_count_bytes_not_hex_digits() {
    let mut record = sample();
    record.document_id = vec![0x11; 100];
    let fields = fields_after_prefix(&record.format_hash());
    assert_eq!(fields[5], "100");
    assert_eq!(fields[6].len(), 200);
}

#[test]
fn metadata_flag_is_one_or_zero() {
    let mut record = sample();
    assert_eq!(fields_after_prefix(&record.format_hash())[4], "1");
    record.encrypt_metadata = false;
    assert_eq!(fields_after_prefix(&record.format_hash())[4], "0");
}

#[test]
fn numbers_are_plain_decimal() {
    let mut record = sample();
    record.algorithm = 0;
    record.revision = 10;
    record.length = i64::MAX;
    record.permissions = i64::MIN;
    let fields = fields_after_prefix(&record.format_hash());
    assert_eq!(fields[0], "0");
    assert_eq!(fields[1], "10");
    assert_eq!(fields[2], "9223372036854775807");
    assert_eq!(fields[3], "-9223372036854775808");
    record.algorithm = -1;
    record.revision = 9;
    record.length = 1000;
    record.permissions = 2147483647;
    let fields = fields_after_prefix(&record.format_hash());
    assert_eq!(fields[0], "-1");
    assert_eq!(fields[1], "9");
    assert_eq!(fields[2], "1000");
    assert_eq!(fields[3], "2147483647");
}

#[test]
fn negative_permissions_stay_negative() {
    let record = sample();
    let line = record.format_hash();
    assert_eq!(fields_after_prefix(&line)[3], "-3904");
    assert!(!line.contains("4294963392"));
}

#[test]
fn without_seeds_there_are_eleven_fields() {
    let line = sample().format_hash();
    assert_eq!(fields_after_prefix(&line).len(), 11);
}

#[test]
fn with_both_seeds_there_are_fifteen_fields_owner_first() {
    let mut record = sample();
    record.revision = 6;
    record.owner_encryption_seed = Some(vec![0x0e; 3]);
    record.user_encryption_seed = Some(vec![0x0f; 2]);
    let line = record.format_hash();
    let fields = fields_after_prefix(&line);
    assert_eq!(fields.len(), 15);
    assert_eq!(&fields[11..], &["3", "0e0e0e", "2", "0f0f"]);
    assert!(line.ends_with("*3*0e0e0e*2*0f0f"));
}

#[test]
fn with_one_seed_there_are_thirteen_fields() {
    let mut record = sample();
    record.owner_encryption_seed = Some(vec![0x0e; 3]);
    let fields = fields_after_prefix(&record.format_hash());
    assert_eq!(fields.len(), 13);
    assert_eq!(&fields[11..], &["3", "0e0e0e"]);

    let mut record = sample();
    record.user_encryption_seed = Some(vec![0x0f; 2]);
    let fields = fields_after_prefix(&record.format_hash());
    assert_eq!(fields.len(), 13);
    assert_eq!(&fields[11..], &["2", "0f0f"]);
}

#[test]
fn an_empty_seed_still_has_its_two_fields() {
    let mut record = sample();
    record.user_encryption_seed = Some(vec![]);
    let line = record.format_hash();
    assert!(line.ends_with("*0*"));
    assert_eq!(fields_after_prefix(&line).len(), 13);
}

#[test]
fn the_line_is_ascii_without_newline() {
    let mut record = sample();
    record.owner_encryption_seed = Some(vec![0xff; 48]);
    let line = record.format_hash();
    assert!(line.is_ascii());
    assert!(!line.contains('\n'));
}
