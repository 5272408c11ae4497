use url_checker::csv_log::{csv_batch, csv_row};
use url_checker::models::{Reachability, Status};

fn status(url: &str, status: Reachability, code: u16, time: u64) -> Status {
    Status { url: url.to_string(), status, http_status_code: code, last_ping_time: time }
}

#[test]
fn one_row_exact_bytes() {
    let row = csv_row(&status("https://example.com", Reachability::Online, 200, 1_700_000_000)).unwrap();
    assert_eq!(row, b"https://example.com,Online,200,1700000000\n".to_vec());
}

#[test]
fn row_with_comma_is_quoted() {
    let row = csv_row(&status("https://a.test/?q=1,2", Reachability::Offline, 0, 7)).unwrap();
    assert_eq!(row, b"\"https://a.test/?q=1,2\",Offline,0,7\n".to_vec());
}

#[test]
fn row_with_quote_and_newline_succeeds() {
    let row = csv_row(&status("https://a.test/\"x\"\ny", Reachability::Online, 302, 9));
    assert_eq!(row, Ok(b"\"https://a.test/\"\"x\"\"\ny\",Online,302,9\n".to_vec()));
}

#[test]
fn empty_batch_writes_nothing() {
    assert_eq!(csv_batch(&Vec::new()).unwrap(), Vec::<u8>::new());
}

#[test]
fn batch_appends_one_row_per_check() {
    let batch = vec![
        status("https://a.test", Reachability::Online, 200, 1),
        status("https://b.test", Reachability::Offline, 404, 2),
        status("https://c.test", Reachability::Offline, 0, 3),
    ];
    let prior = b"https://z.test,Online,204,0\n".to_vec();
    let mut file = prior.clone();
    file.extend(csv_batch(&batch).unwrap());
    assert!(file.starts_with(&prior));
    let mut reader = csv::ReaderBuilder::new().has_headers(false).from_reader(&file[prior.len()..]);
    let rows: Vec<csv::StringRecord> = reader.records().map(|r| r.unwrap()).collect();
    assert_eq!(rows.len(), 3);
    assert_eq!(rows[1].iter().collect::<Vec<_>>(), vec!["https://b.test", "Offline", "404", "2"]);
    assert_eq!(rows[2].iter().collect::<Vec<_>>(), vec!["https://c.test", "Offline", "0", "3"]);
    let mut whole = csv::ReaderBuilder::new().has_headers(false).from_reader(&file[..]);
    assert_eq!(whole.records().count(), 4);
}

#[test]
fn two_batches_equal_their_concatenation() {
    let a = vec![status("https://a.test", Reachability::Online, 200, 1)];
    let b = vec![status("https://b.test", Reachability::Offline, 500, 2)];
    let mut both = a.clone();
    both.extend(b.clone());
    let mut split = csv_batch(&a).unwrap();
    split.extend(csv_batch(&b).unwrap());
    assert_eq!(split, csv_batch(&both).unwrap());
}
