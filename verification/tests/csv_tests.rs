use reconstruction::csv_data::{first_fields, matrix_entries, matrix_entries_from_csv, vector_fields_from_csv, CsvDataError};

fn triples(data: &[u8]) -> (Vec<(usize, usize, String)>, Option<CsvDataError>) {
    let scan = matrix_entries_from_csv(data);
    (scan.entries.into_iter().map(|e| (e.row, e.col, e.text)).collect(), scan.error)
}

#[test]
fn matrix_entries_skip_zero_fields() {
    assert_eq!(
        triples(b"1,0,2\n0,0,3.5\n"),
        (vec![(0, 0, "1".to_string()), (0, 2, "2".to_string()), (1, 2, "3.5".to_string())], None)
    );
}

#[test]
fn matrix_entries_keep_zero_lookalikes() {
    assert_eq!(
        triples(b"0.0,00, 0\n"),
        (vec![(0, 0, "0.0".to_string()), (0, 1, "00".to_string()), (0, 2, " 0".to_string())], None)
    );
}

#[test]
fn matrix_all_zero_has_no_entries() {
    assert_eq!(triples(b"0,0\n0,0\n"), (vec![], None));
    assert_eq!(triples(b""), (vec![], None));
}

#[test]
fn matrix_ragged_rows_stop_with_malformed() {
    assert_eq!(
        triples(b"1,2\n3\n4,5\n"),
        (vec![(0, 0, "1".to_string()), (0, 1, "2".to_string())], Some(CsvDataError::Malformed))
    );
}

#[test]
fn matrix_entries_before_error_come_first() {
    assert_eq!(
        triples(b"x,0\n0,y\n7\n"),
        (vec![(0, 0, "x".to_string()), (1, 1, "y".to_string())], Some(CsvDataError::Malformed))
    );
}

#[test]
fn matrix_invalid_utf8_is_malformed() {
    assert_eq!(triples(&[0xff, b',', b'1', b'\n']), (vec![], Some(CsvDataError::Malformed)));
}

#[test]
fn matrix_entries_from_records() {
    let records = vec![
        vec!["0".to_string(), "4".to_string()],
        vec!["5".to_string(), "0".to_string()],
    ];
    let e: Vec<(usize, usize, String)> = matrix_entries(&records).into_iter().map(|e| (e.row, e.col, e.text)).collect();
    assert_eq!(e, vec![(0, 1, "4".to_string()), (1, 0, "5".to_string())]);
}

#[test]
fn vector_fields_take_first_field() {
    let s = vector_fields_from_csv(b"1.5\n2\n-3e2\n");
    assert_eq!(s.fields, vec![b"1.5".to_vec(), b"2".to_vec(), b"-3e2".to_vec()]);
    assert_eq!(s.error, None);
    let s = vector_fields_from_csv(b"1,9\n2,8\n");
    assert_eq!(s.fields, vec![b"1".to_vec(), b"2".to_vec()]);
    assert_eq!(s.error, None);
}

#[test]
fn vector_ragged_rows_stop_with_malformed() {
    let s = vector_fields_from_csv(b"1\nz\n2,3\n");
    assert_eq!(s.fields, vec![b"1".to_vec(), b"z".to_vec()]);
    assert_eq!(s.error, Some(CsvDataError::Malformed));
}

#[test]
fn first_fields_reports_missing_field() {
    let records = vec![vec![b"1".to_vec()], vec![], vec![]];
    let s = first_fields(&records);
    assert_eq!(s.fields, vec![b"1".to_vec()]);
    assert_eq!(s.error, Some(CsvDataError::MissingField(1)));
    let records = vec![vec![b"1".to_vec(), b"2".to_vec()], vec![b"3".to_vec()]];
    let s = first_fields(&records);
    assert_eq!(s.fields, vec![b"1".to_vec(), b"3".to_vec()]);
    assert_eq!(s.error, None);
}
