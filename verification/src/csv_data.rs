use vstd::prelude::*;
use vstd::string::StringExecFns;

verus! {

/// What the `csv` crate reads from `data` with headers off, as text records: the
/// records it yields, in order, before it reports an error or reaches the end,
/// and whether it reported an error (malformed CSV, invalid UTF-8, records of
/// unequal length).
pub uninterp spec fn csv_text_records(data: Seq<u8>) -> (Seq<Seq<Seq<char>>>, bool);

/// What the `csv` crate reads from `data` with headers off, as raw byte records:
/// the records it yields, in order, before it reports an error or reaches the
/// end, and whether it reported an error.
pub uninterp spec fn csv_byte_records(data: Seq<u8>) -> (Seq<Seq<Seq<u8>>>, bool);

/// `csv::ReaderBuilder::new().has_headers(false).from_reader(data)`, reading
/// `StringRecord`s until the end or the first error, which is noted.
#[verifier::external_body]
fn read_text_records(data: &[u8]) -> (read: (Vec<Vec<String>>, bool))
    ensures
        csv_text_records(data@) == (read.0.deep_view(), read.1),
{
    let mut failed = false;
    let records = csv::ReaderBuilder::new()
        .has_headers(false)
        .from_reader(data)
        .records()
        .map_while(|r| match r {
            Ok(record) => Some(record.iter().map(String::from).collect()),
            Err(_) => {
                failed = true;
                None
            },
        })
        .collect();
    (records, failed)
}

/// `csv::ReaderBuilder::new().has_headers(false).from_reader(data)`, reading
/// `ByteRecord`s until the end or the first error, which is noted.
#[verifier::external_body]
fn read_byte_records(data: &[u8]) -> (read: (Vec<Vec<Vec<u8>>>, bool))
    ensures
        csv_byte_records(data@) == (read.0.deep_view(), read.1),
{
    let mut failed = false;
    let records = csv::ReaderBuilder::new()
        .has_headers(false)
        .from_reader(data)
        .byte_records()
        .map_while(|r| match r {
            Ok(record) => Some(record.iter().map(|field| field.to_vec()).collect()),
            Err(_) => {
                failed = true;
                None
            },
        })
        .collect();
    (records, failed)
}

/// Why CSV data could not be read.
#[derive(Clone, Copy, Debug, PartialEq, Eq, Structural)]
pub enum CsvDataError {
    /// The `csv` crate refused the data.
    Malformed,
    /// The record at this index has no field to read a value from.
    MissingField(usize),
}

/// A stored entry of a sparse matrix: its position and the text of its value.
#[derive(Debug)]
pub struct MatrixEntry {
    pub row: usize,
    pub col: usize,
    pub text: String,
}

impl View for MatrixEntry {
    type V = (nat, nat, Seq<char>);

    open spec fn view(&self) -> (nat, nat, Seq<char>) {
        (self.row as nat, self.col as nat, self.text@)
    }
}

/// The entries of row `i`: every field other than "0", with its column, left to right.
pub open spec fn spec_row_entries(i: nat, row: Seq<Seq<char>>) -> Seq<(nat, nat, Seq<char>)>
    decreases row.len(),
{
    if row.len() == 0 {
        seq![]
    } else {
        let j = (row.len() - 1) as nat;
        spec_row_entries(i, row.drop_last()) + (if row.last() == "0"@ {
            seq![]
        } else {
            seq![(i, j, row.last())]
        })
    }
}

/// The entries of a matrix given row by row: every field other than "0", with
/// its row and column, in row-major order.
pub open spec fn spec_matrix_entries(records: Seq<Seq<Seq<char>>>) -> Seq<(nat, nat, Seq<char>)>
    decreases records.len(),
{
    if records.len() == 0 {
        seq![]
    } else {
        spec_matrix_entries(records.drop_last()) + spec_row_entries(
            (records.len() - 1) as nat,
            records.last(),
        )
    }
}

/// Each entry of row `i` is a field of that row other than "0", at its column.
proof fn row_entries_sound(i: nat, row: Seq<Seq<char>>)
    ensures
        forall|k: int| 0 <= k < spec_row_entries(i, row).len() ==> {
            let e = #[trigger] spec_row_entries(i, row)[k];
            &&& e.0 == i
            &&& e.1 < row.len()
            &&& row[e.1 as int] == e.2
            &&& e.2 != "0"@
        },
    decreases row.len(),
{
    if row.len() > 0 {
        row_entries_sound(i, row.drop_last());
        let prefix = spec_row_entries(i, row.drop_last());
        assert forall|k: int| 0 <= k < spec_row_entries(i, row).len() implies {
            let e = #[trigger] spec_row_entries(i, row)[k];
            &&& e.0 == i
            &&& e.1 < row.len()
            &&& row[e.1 as int] == e.2
            &&& e.2 != "0"@
        } by {
            if k < prefix.len() {
                assert(spec_row_entries(i, row)[k] == prefix[k]);
                assert(row.drop_last()[prefix[k].1 as int] == row[prefix[k].1 as int]);
            }
        }
    }
}

/// Each field of row `i` other than "0" is among the row's entries.
proof fn row_entries_complete(i: nat, row: Seq<Seq<char>>)
    ensures
        forall|j: int| 0 <= j < row.len() && #[trigger] row[j] != "0"@ ==>
            exists|k: int| 0 <= k < spec_row_entries(i, row).len()
                && spec_row_entries(i, row)[k] == (i, j as nat, row[j]),
    decreases row.len(),
{
    if row.len() > 0 {
        row_entries_complete(i, row.drop_last());
        let prefix = spec_row_entries(i, row.drop_last());
        let whole = spec_row_entries(i, row);
        assert forall|j: int| 0 <= j < row.len() && #[trigger] row[j] != "0"@ implies
            exists|k: int| 0 <= k < whole.len() && whole[k] == (i, j as nat, row[j]) by {
            if j < row.len() - 1 {
                assert(row.drop_last()[j] == row[j]);
                let k = choose|k: int| 0 <= k < prefix.len() && prefix[k] == (i, j as nat, row.drop_last()[j]);
                assert(whole[k] == prefix[k]);
            } else {
                assert(whole[prefix.len() as int] == (i, j as nat, row[j]));
            }
        }
    }
}

/// Each stored entry is a field other than "0" at its row and column, and each
/// field other than "0" is stored: the entries are exactly the fields that are
/// not "0".
pub proof fn matrix_entries_exact(records: Seq<Seq<Seq<char>>>)
    ensures
        forall|k: int| 0 <= k < spec_matrix_entries(records).len() ==> {
            let e = #[trigger] spec_matrix_entries(records)[k];
            &&& e.0 < records.len()
            &&& e.1 < records[e.0 as int].len()
            &&& records[e.0 as int][e.1 as int] == e.2
            &&& e.2 != "0"@
        },
        forall|i: int, j: int| 0 <= i < records.len() && 0 <= j < records[i].len()
            && #[trigger] records[i][j] != "0"@ ==> exists|k: int|
                0 <= k < spec_matrix_entries(records).len()
                && spec_matrix_entries(records)[k] == (i as nat, j as nat, records[i][j]),
    decreases records.len(),
{
    if records.len() > 0 {
        let n = (records.len() - 1) as nat;
        let rest = records.drop_last();
        matrix_entries_exact(rest);
        row_entries_sound(n, records.last());
        row_entries_complete(n, records.last());
        let prefix = spec_matrix_entries(rest);
        let tail = spec_row_entries(n, records.last());
        let whole = spec_matrix_entries(records);
        assert(whole == prefix + tail);
        assert forall|k: int| 0 <= k < whole.len() implies {
            let e = #[trigger] whole[k];
            &&& e.0 < records.len()
            &&& e.1 < records[e.0 as int].len()
            &&& records[e.0 as int][e.1 as int] == e.2
            &&& e.2 != "0"@
        } by {
            if k < prefix.len() {
                assert(whole[k] == prefix[k]);
                assert(rest[prefix[k].0 as int] == records[prefix[k].0 as int]);
            } else {
                assert(whole[k] == tail[k - prefix.len()]);
            }
        }
        assert forall|i: int, j: int| 0 <= i < records.len() && 0 <= j < records[i].len()
            && #[trigger] records[i][j] != "0"@ implies exists|k: int|
                0 <= k < whole.len() && whole[k] == (i as nat, j as nat, records[i][j]) by {
            if i < n {
                assert(rest[i] == records[i]);
                assert(rest[i][j] != "0"@);
                let k = choose|k: int| 0 <= k < prefix.len() && prefix[k] == (i as nat, j as nat, rest[i][j]);
                assert(whole[k] == prefix[k]);
            } else {
                assert(records.last()[j] == records[i][j]);
                let k = choose|k: int| 0 <= k < tail.len() && tail[k] == (n, j as nat, records.last()[j]);
                assert(whole[prefix.len() + k] == tail[k]);
            }
        }
    }
}


/// The entries of a row have strictly increasing columns.
proof fn row_entries_ordered(i: nat, row: Seq<Seq<char>>)
    ensures
        forall|a: int, b: int| 0 <= a < b < spec_row_entries(i, row).len()
            ==> (#[trigger] spec_row_entries(i, row)[a]).1 < (#[trigger] spec_row_entries(i, row)[b]).1,
    decreases row.len(),
{
    if row.len() > 0 {
        row_entries_ordered(i, row.drop_last());
        row_entries_sound(i, row.drop_last());
        let prefix = spec_row_entries(i, row.drop_last());
        let whole = spec_row_entries(i, row);
        assert forall|a: int, b: int| 0 <= a < b < whole.len() implies
            (#[trigger] whole[a]).1 < (#[trigger] whole[b]).1 by {
            assert(whole[a] == prefix[a]);
            if b < prefix.len() {
                assert(whole[b] == prefix[b]);
            } else {
                assert(whole[b].1 == row.len() - 1);
                assert(prefix[a].1 < row.drop_last().len());
            }
        }
    }
}

/// The entries of a matrix are strictly increasing in row-major order.
proof fn matrix_entries_ordered(records: Seq<Seq<Seq<char>>>)
    ensures
        forall|a: int, b: int| 0 <= a < b < spec_matrix_entries(records).len() ==> {
            let x = #[trigger] spec_matrix_entries(records)[a];
            let y = #[trigger] spec_matrix_entries(records)[b];
            x.0 < y.0 || (x.0 == y.0 && x.1 < y.1)
        },
    decreases records.len(),
{
    if records.len() > 0 {
        let n = (records.len() - 1) as nat;
        let rest = records.drop_last();
        matrix_entries_ordered(rest);
        matrix_entries_exact(rest);
        row_entries_sound(n, records.last());
        row_entries_ordered(n, records.last());
        let prefix = spec_matrix_entries(rest);
        let tail = spec_row_entries(n, records.last());
        let whole = spec_matrix_entries(records);
        assert(whole == prefix + tail);
        assert forall|a: int, b: int| 0 <= a < b < whole.len() implies {
            let x = #[trigger] whole[a];
            let y = #[trigger] whole[b];
            x.0 < y.0 || (x.0 == y.0 && x.1 < y.1)
        } by {
            if b < prefix.len() {
                assert(whole[a] == prefix[a] && whole[b] == prefix[b]);
            } else if a >= prefix.len() {
                assert(whole[a] == tail[a - prefix.len()] && whole[b] == tail[b - prefix.len()]);
            } else {
                assert(whole[a] == prefix[a] && whole[b] == tail[b - prefix.len()]);
                assert(prefix[a].0 < rest.len());
            }
        }
    }
}

/// What the entries read from a matrix are, in terms of the records alone: each
/// entry is a field other than "0", at its row and column; each field other than
/// "0" has an entry; and the entries are strictly increasing in row-major order,
/// so no two share a position and each such field gives exactly one entry.
pub proof fn matrix_entries_law(records: Seq<Seq<Seq<char>>>, entries: Seq<MatrixEntry>)
    requires
        entry_views(entries) == spec_matrix_entries(records),
    ensures
        forall|k: int| 0 <= k < entries.len() ==> {
            let e = #[trigger] entries[k];
            &&& e.row < records.len()
            &&& e.col < records[e.row as int].len()
            &&& records[e.row as int][e.col as int] == e.text@
            &&& e.text@ != "0"@
        },
        forall|i: int, j: int| 0 <= i < records.len() && 0 <= j < records[i].len()
            && #[trigger] records[i][j] != "0"@ ==> exists|k: int| 0 <= k < entries.len()
                && entries[k].row == i && entries[k].col == j && entries[k].text@ == records[i][j],
        forall|a: int, b: int| 0 <= a < b < entries.len() ==>
            (#[trigger] entries[a]).row < (#[trigger] entries[b]).row
            || (entries[a].row == entries[b].row && entries[a].col < entries[b].col),
{
    matrix_entries_exact(records);
    matrix_entries_ordered(records);
    let views = spec_matrix_entries(records);
    assert forall|k: int| 0 <= k < entries.len() implies #[trigger] entries[k]@ == views[k] by {
        assert(entry_views(entries)[k] == entries[k]@);
    }
    assert forall|k: int| 0 <= k < entries.len() implies {
        let e = #[trigger] entries[k];
        &&& e.row < records.len()
        &&& e.col < records[e.row as int].len()
        &&& records[e.row as int][e.col as int] == e.text@
        &&& e.text@ != "0"@
    } by {
        assert(entries[k]@ == views[k]);
    }
    assert forall|i: int, j: int| 0 <= i < records.len() && 0 <= j < records[i].len()
        && #[trigger] records[i][j] != "0"@ implies exists|k: int| 0 <= k < entries.len()
            && entries[k].row == i && entries[k].col == j && entries[k].text@ == records[i][j] by {
        let k = choose|k: int| 0 <= k < views.len() && views[k] == (i as nat, j as nat, records[i][j]);
        assert(entries[k]@ == views[k]);
    }
    assert forall|a: int, b: int| 0 <= a < b < entries.len() implies
        (#[trigger] entries[a]).row < (#[trigger] entries[b]).row
        || (entries[a].row == entries[b].row && entries[a].col < entries[b].col) by {
        assert(entries[a]@ == views[a] && entries[b]@ == views[b]);
    }
}

/// Record `i` is the first record without any field.
pub open spec fn spec_first_missing(records: Seq<Seq<Seq<u8>>>, i: int) -> bool {
    &&& 0 <= i < records.len()
    &&& records[i].len() == 0
    &&& forall|k: int| 0 <= k < i ==> #[trigger] records[k].len() > 0
}

/// The first fields of the first `count` records.
pub open spec fn spec_firsts(records: Seq<Seq<Seq<u8>>>, count: int) -> Seq<Seq<u8>> {
    Seq::new(count as nat, |k: int| records[k][0])
}

/// `fields` and `error` are what reading a value from the first field of each
/// record of `records` in turn gives, where `failed` tells whether reading the
/// records stopped on an error after the last of them: the first fields of the
/// records before the first record without a field, and that record's index as
/// `MissingField`; or, when every record has a field, all their first fields,
/// and `Malformed` when reading the records failed.
pub open spec fn vector_scan_of(
    records: Seq<Seq<Seq<u8>>>,
    failed: bool,
    fields: Seq<Seq<u8>>,
    error: Option<CsvDataError>,
) -> bool {
    match error {
        Some(CsvDataError::MissingField(i)) => spec_first_missing(records, i as int)
            && fields == spec_firsts(records, i as int),
        _ => {
            &&& forall|k: int| 0 <= k < records.len() ==> #[trigger] records[k].len() > 0
            &&& fields == spec_firsts(records, records.len() as int)
            &&& error == (if failed { Some(CsvDataError::Malformed) } else { None::<CsvDataError> })
        },
    }
}


/// What reading a vector gives, in terms of the records alone: the `k`-th field
/// is the first field of record `k` itself; reading stops at the first record
/// without a field, whose index is reported, and otherwise gives one field per
/// record, with `Malformed` exactly when reading the records failed.
pub proof fn vector_scan_law(
    records: Seq<Seq<Seq<u8>>>,
    failed: bool,
    fields: Seq<Seq<u8>>,
    error: Option<CsvDataError>,
)
    requires
        vector_scan_of(records, failed, fields, error),
    ensures
        forall|k: int| 0 <= k < fields.len() ==> records[k].len() > 0 && #[trigger] fields[k] == records[k][0],
        error matches Some(CsvDataError::MissingField(i)) ==> {
            &&& i < records.len()
            &&& records[i as int].len() == 0
            &&& fields.len() == i
        },
        !(error matches Some(CsvDataError::MissingField(_))) ==> {
            &&& fields.len() == records.len()
            &&& error == (if failed { Some(CsvDataError::Malformed) } else { None::<CsvDataError> })
        },
{
    assert forall|k: int| 0 <= k < fields.len() implies records[k].len() > 0
        && #[trigger] fields[k] == records[k][0] by {
        if let Some(CsvDataError::MissingField(i)) = error {
            assert(fields == spec_firsts(records, i as int));
        } else {
            assert(fields == spec_firsts(records, records.len() as int));
        }
    }
}

/// The fields read from a CSV vector, in order, and the error that ended the
/// reading, if any.
pub struct VectorScan {
    pub fields: Vec<Vec<u8>>,
    pub error: Option<CsvDataError>,
}

/// The stored entries read from a CSV matrix, in order, and the error that
/// ended the reading, if any.
pub struct MatrixScan {
    pub entries: Vec<MatrixEntry>,
    pub error: Option<CsvDataError>,
}

/// Views of a sequence of entries.
pub open spec fn entry_views(entries: Seq<MatrixEntry>) -> Seq<(nat, nat, Seq<char>)> {
    entries.map_values(|e: MatrixEntry| e@)
}

/// The stored entries of a matrix given row by row as text fields: every field
/// other than "0", with its row and column, in row-major order.
pub fn matrix_entries(records: &Vec<Vec<String>>) -> (entries: Vec<MatrixEntry>)
    ensures
        entry_views(entries@) == spec_matrix_entries(records.deep_view()),
        forall|k: int| 0 <= k < entries@.len() ==> {
            let e = #[trigger] entries@[k];
            &&& e.row < records.deep_view().len()
            &&& e.col < records.deep_view()[e.row as int].len()
            &&& records.deep_view()[e.row as int][e.col as int] == e.text@
            &&& e.text@ != "0"@
        },
        forall|i: int, j: int| 0 <= i < records.deep_view().len() && 0 <= j < records.deep_view()[i].len()
            && #[trigger] records.deep_view()[i][j] != "0"@ ==> exists|k: int| 0 <= k < entries@.len()
                && entries@[k].row == i && entries@[k].col == j && entries@[k].text@ == records.deep_view()[i][j],
        forall|a: int, b: int| 0 <= a < b < entries@.len() ==>
            (#[trigger] entries@[a]).row < (#[trigger] entries@[b]).row
            || (entries@[a].row == entries@[b].row && entries@[a].col < entries@[b].col),
{
    let ghost all = records.deep_view();
    let zero = String::from_str("0");
    let mut entries: Vec<MatrixEntry> = Vec::new();
    let mut i: usize = 0;
    while i < records.len()
        invariant
            all == records.deep_view(),
            zero@ == "0"@,
            i <= records.len(),
            entry_views(entries@) == spec_matrix_entries(all.take(i as int)),
        decreases records.len() - i,
    {
        let row = &records[i];
        let ghost before = entries@;
        let mut j: usize = 0;
        while j < row.len()
            invariant
                all == records.deep_view(),
                zero@ == "0"@,
                i < records.len(),
                row == records@[i as int],
                j <= row.len(),
                entry_views(entries@) == spec_matrix_entries(all.take(i as int))
                    + spec_row_entries(i as nat, all[i as int].take(j as int)),
            decreases row.len() - j,
        {
            let field = &row[j];
            assert(all[i as int].take(j + 1).drop_last() =~= all[i as int].take(j as int));
            assert(all[i as int][j as int] == field@);
            let ghost prior = entries@;
            let ghost prefix = all[i as int].take(j + 1);
            assert(prefix.last() == field@);
            assert(prefix.len() - 1 == j);
            if !field.eq(&zero) {
                entries.push(MatrixEntry { row: i, col: j, text: field.clone() });
                assert(entry_views(entries@) =~= entry_views(prior).push((i as nat, j as nat, field@)));
            } else {
                assert(entries@ == prior);
            }
            assert(entry_views(entries@) =~= spec_matrix_entries(all.take(i as int))
                + spec_row_entries(i as nat, all[i as int].take(j + 1)));
            j = j + 1;
        }
        assert(all[i as int].take(j as int) =~= all[i as int]);
        assert(all.take(i + 1).drop_last() =~= all.take(i as int));
        i = i + 1;
    }
    assert(all.take(i as int) =~= all);
    proof {
        matrix_entries_law(all, entries@);
    }
    entries
}


/// The first field of each record, in order, up to the first record without a
/// field, which is reported as `MissingField` with its index.
pub fn first_fields(records: &Vec<Vec<Vec<u8>>>) -> (scan: VectorScan)
    ensures
        vector_scan_of(records.deep_view(), false, scan.fields.deep_view(), scan.error),
        forall|k: int| 0 <= k < scan.fields.deep_view().len() ==> records.deep_view()[k].len() > 0 && #[trigger] scan.fields.deep_view()[k] == records.deep_view()[k][0],
        scan.error matches Some(CsvDataError::MissingField(i)) ==> {
            &&& i < records.deep_view().len()
            &&& records.deep_view()[i as int].len() == 0
            &&& scan.fields.deep_view().len() == i
        },
        !(scan.error matches Some(CsvDataError::MissingField(_))) ==> {
            &&& scan.fields.deep_view().len() == records.deep_view().len()
            &&& scan.error == (if false { Some(CsvDataError::Malformed) } else { None::<CsvDataError> })
        },
{
    let ghost all = records.deep_view();
    let mut fields: Vec<Vec<u8>> = Vec::new();
    let mut i: usize = 0;
    while i < records.len()
        invariant
            all == records.deep_view(),
            i <= records.len(),
            fields.deep_view() == spec_firsts(all, i as int),
            forall|k: int| 0 <= k < i ==> #[trigger] all[k].len() > 0,
        decreases records.len() - i,
    {
        let record = &records[i];
        assert(all[i as int] == record.deep_view());
        if record.len() == 0 {
            assert(records.deep_view()[i as int].len() == 0);
            return VectorScan { fields, error: Some(CsvDataError::MissingField(i)) };
        }
        let ghost prior = fields.deep_view();
        fields.push(record[0].clone());
        assert(fields.deep_view() =~= spec_firsts(all, i + 1)) by {
            assert(fields.deep_view() =~= prior.push(all[i as int][0]));
        }
        i = i + 1;
    }
    VectorScan { fields, error: None }
}

/// The stored entries of the matrix held as CSV text in `data` (rows are
/// records, columns are fields): every field other than "0", in row-major order,
/// of the records the `csv` crate yields; `Malformed` when it stopped on an error.
pub fn matrix_entries_from_csv(data: &[u8]) -> (scan: MatrixScan)
    ensures
        entry_views(scan.entries@) == spec_matrix_entries(csv_text_records(data@).0),
        forall|k: int| 0 <= k < scan.entries@.len() ==> {
            let e = #[trigger] scan.entries@[k];
            &&& e.row < csv_text_records(data@).0.len()
            &&& e.col < csv_text_records(data@).0[e.row as int].len()
            &&& csv_text_records(data@).0[e.row as int][e.col as int] == e.text@
            &&& e.text@ != "0"@
        },
        forall|i: int, j: int| 0 <= i < csv_text_records(data@).0.len() && 0 <= j < csv_text_records(data@).0[i].len()
            && #[trigger] csv_text_records(data@).0[i][j] != "0"@ ==> exists|k: int| 0 <= k < scan.entries@.len()
                && scan.entries@[k].row == i && scan.entries@[k].col == j && scan.entries@[k].text@ == csv_text_records(data@).0[i][j],
        forall|a: int, b: int| 0 <= a < b < scan.entries@.len() ==>
            (#[trigger] scan.entries@[a]).row < (#[trigger] scan.entries@[b]).row
            || (scan.entries@[a].row == scan.entries@[b].row && scan.entries@[a].col < scan.entries@[b].col),
        scan.error == (if csv_text_records(data@).1 {
            Some(CsvDataError::Malformed)
        } else {
            None::<CsvDataError>
        }),
{
    let (records, failed) = read_text_records(data);
    let entries = matrix_entries(&records);
    let error = if failed { Some(CsvDataError::Malformed) } else { None };
    let scan = MatrixScan { entries, error };
    proof {
        assert(csv_text_records(data@).0 == records.deep_view());
        matrix_entries_law(csv_text_records(data@).0, scan.entries@);
    }
    scan
}

/// The value fields of the vector held as CSV in `data`: the first field of each
/// record the `csv` crate yields, up to the first record without a field
/// (`MissingField`); `Malformed` when every record has a field and the crate
/// stopped on an error.
pub fn vector_fields_from_csv(data: &[u8]) -> (scan: VectorScan)
    ensures
        vector_scan_of(csv_byte_records(data@).0, csv_byte_records(data@).1, scan.fields.deep_view(), scan.error),
        forall|k: int| 0 <= k < scan.fields.deep_view().len() ==> csv_byte_records(data@).0[k].len() > 0 && #[trigger] scan.fields.deep_view()[k] == csv_byte_records(data@).0[k][0],
        scan.error matches Some(CsvDataError::MissingField(i)) ==> {
            &&& i < csv_byte_records(data@).0.len()
            &&& csv_byte_records(data@).0[i as int].len() == 0
            &&& scan.fields.deep_view().len() == i
        },
        !(scan.error matches Some(CsvDataError::MissingField(_))) ==> {
            &&& scan.fields.deep_view().len() == csv_byte_records(data@).0.len()
            &&& scan.error == (if csv_byte_records(data@).1 { Some(CsvDataError::Malformed) } else { None::<CsvDataError> })
        },
{
    let (records, failed) = read_byte_records(data);
    let scan = first_fields(&records);
    proof {
        assert(csv_byte_records(data@).0 == records.deep_view());
    }
    if failed && scan.error.is_none() {
        VectorScan { fields: scan.fields, error: Some(CsvDataError::Malformed) }
    } else {
        scan
    }
}

} // verus!
