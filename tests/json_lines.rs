use url_checker::json_lines::{frame_json_lines, split_json_lines, FramingError};

fn records(texts: &[&str]) -> Vec<Vec<u8>> {
    texts.iter().map(|t| t.as_bytes().to_vec()).collect()
}

#[test]
fn framing_puts_each_record_on_its_line() {
    let framed = frame_json_lines(&records(&["{\"a\":1}", "{\"b\":2}"])).unwrap();
    assert_eq!(framed, b"{\"a\":1}\n{\"b\":2}\n".to_vec());
    assert_eq!(frame_json_lines(&Vec::new()).unwrap(), Vec::<u8>::new());
}

#[test]
fn framing_refuses_empty_record() {
    assert_eq!(frame_json_lines(&records(&["{}", ""])), Err(FramingError::EmptyRecord(1)));
}

#[test]
fn framing_refuses_record_with_newline() {
    assert_eq!(
        frame_json_lines(&records(&["{\n}", ""])),
        Err(FramingError::NewlineInRecord(0))
    );
}

#[test]
fn two_appends_read_back_as_all_records() {
    let first = records(&[
        "{\"url\":\"https://a.test\",\"status\":\"Online\",\"http_status_code\":200,\"last_ping_time\":1}",
        "{\"url\":\"https://b.test\",\"status\":\"Offline\",\"http_status_code\":0,\"last_ping_time\":1}",
    ]);
    let second = records(&[
        "{\"url\":\"https://a.test\",\"status\":\"Offline\",\"http_status_code\":500,\"last_ping_time\":6}",
        "{\"url\":\"https://b.test\",\"status\":\"Online\",\"http_status_code\":301,\"last_ping_time\":6}",
        "{\"url\":\"https://c.test\",\"status\":\"Online\",\"http_status_code\":200,\"last_ping_time\":6}",
    ]);
    let mut file = frame_json_lines(&first).unwrap();
    file.extend(frame_json_lines(&second).unwrap());
    let back = split_json_lines(&file);
    assert_eq!(back.len(), 5);
    let mut expected = first.clone();
    expected.extend(second.clone());
    assert_eq!(back, expected);
    for line in &back {
        let v: serde_json::Value = serde_json::from_slice(line).unwrap();
        assert!(v.is_object());
    }
}

#[test]
fn reader_keeps_last_unterminated_line() {
    assert_eq!(split_json_lines(&b"{}\n[1]".to_vec()), records(&["{}", "[1]"]));
    assert_eq!(split_json_lines(&b"".to_vec()), Vec::<Vec<u8>>::new());
}
