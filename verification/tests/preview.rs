use csv_preview::{build_preview, preview_from_bytes, PreviewError};

fn rows(source: &[&[&str]]) -> Vec<Vec<String>> {
    source
        .iter()
        .map(|row| row.iter().map(|cell| cell.to_string()).collect())
        .collect()
}

#[test]
fn concrete_two_row_scenario() {
    let bytes: Vec<u8> = b"a,b\n1,2\n3,4\n".to_vec();
    assert_eq!(bytes.len(), 12);
    let p = preview_from_bytes(&bytes, 12, b',').unwrap();
    assert_eq!(p.file_size, 12);
    assert_eq!(p.fields, vec!["a".to_string(), "b".to_string()]);
    assert_eq!(p.lines, rows(&[&["a", "b"], &["1", "2"], &["3", "4"]]));
}

#[test]
fn header_is_repeated_as_first_line() {
    let bytes: Vec<u8> = b"h1,h2,h3\nx,y,z\n".to_vec();
    let p = preview_from_bytes(&bytes, 15, b',').unwrap();
    assert_eq!(p.lines[0], p.fields);
}

#[test]
fn many_rows_are_capped_at_ten_data_rows() {
    let mut content = String::from("h1,h2\n");
    for i in 0..12 {
        content.push_str(&format!("{},{}\n", i, i + 1));
    }
    let bytes: Vec<u8> = content.into_bytes();
    let size = bytes.len() as u64;
    let p = preview_from_bytes(&bytes, size, b',').unwrap();
    assert_eq!(p.fields, vec!["h1".to_string(), "h2".to_string()]);
    assert_eq!(p.lines.len(), 11);
    assert_eq!(p.lines[0], p.fields);
    assert_eq!(p.lines[10], vec!["9".to_string(), "10".to_string()]);
}

#[test]
fn few_rows_are_kept_as_they_are() {
    let bytes: Vec<u8> = b"h1,h2\n1,2\n3,4\n".to_vec();
    let p = preview_from_bytes(&bytes, 14, b',').unwrap();
    assert_eq!(p.lines.len(), 3);
}

#[test]
fn ragged_rows_are_preserved_verbatim() {
    let bytes: Vec<u8> = b"a,b\n1\n2,3,4\n".to_vec();
    let p = preview_from_bytes(&bytes, 12, b',').unwrap();
    assert_eq!(p.lines, rows(&[&["a", "b"], &["1"], &["2", "3", "4"]]));
}

#[test]
fn empty_input_has_no_header_row() {
    let bytes: Vec<u8> = Vec::new();
    let r = preview_from_bytes(&bytes, 0, b',');
    assert!(matches!(r, Err(PreviewError::MissingHeader)));
}

#[test]
fn invalid_utf8_is_reported_as_malformed() {
    let bytes: Vec<u8> = vec![b'a', b',', 0xff, 0xfe, b'\n', b'1', b',', b'2', b'\n'];
    let r = preview_from_bytes(&bytes, 9, b',');
    assert!(matches!(r, Err(PreviewError::Malformed(_))));
}

#[test]
fn tab_delimiter_splits_tsv_content() {
    let bytes: Vec<u8> = b"a\tb\n1\t2\n".to_vec();
    let p = preview_from_bytes(&bytes, 8, b'\t').unwrap();
    assert_eq!(p.fields, vec!["a".to_string(), "b".to_string()]);
    assert_eq!(p.lines, rows(&[&["a", "b"], &["1", "2"]]));
}

#[test]
fn quoted_fields_keep_the_delimiter_inside() {
    let bytes: Vec<u8> = b"h1,h2\n\"x,y\",2\n".to_vec();
    let p = preview_from_bytes(&bytes, 14, b',').unwrap();
    assert_eq!(p.lines[1], vec!["x,y".to_string(), "2".to_string()]);
}

#[test]
fn build_preview_rejects_an_empty_record_list() {
    let r = build_preview(Vec::new(), 0);
    assert!(matches!(r, Err(PreviewError::MissingHeader)));
}

#[test]
fn build_preview_keeps_header_and_caps_lines() {
    let mut all: Vec<Vec<String>> = Vec::new();
    for i in 0..13 {
        all.push(vec![format!("c{}", i)]);
    }
    let p = build_preview(all.clone(), 77).unwrap();
    assert_eq!(p.file_size, 77);
    assert_eq!(p.fields, vec!["c0".to_string()]);
    assert_eq!(p.lines.len(), 11);
    assert_eq!(p.lines, all[..11].to_vec());
}
