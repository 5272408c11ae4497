//! The CSV log: one record per check, with the fields url, status, HTTP
//! status code and time of the check, in that order, and no header row.
use crate::models::Status;
use vstd::prelude::*;
use vstd::seq_lib::lemma_flatten_concat;

verus! {

#[verifier::external_type_specification]
#[verifier::external_body]
pub struct ExCsvError(csv::Error);

/// The bytes of the CSV record with the fields `url`, `status`, `code` and
/// `time`, terminator included, as the `csv` crate writes it.
pub uninterp spec fn csv_row_of(url: Seq<char>, status: Seq<char>, code: u16, time: u64) -> Seq<u8>;

/// The CSV record of one check.
pub open spec fn row_of(s: Status) -> Seq<u8> {
    csv_row_of(s.url@, s.status.label_spec(), s.http_status_code, s.last_ping_time)
}

/// The records of a batch, one per check, in order.
pub open spec fn csv_rows(batch: Seq<Status>) -> Seq<Seq<u8>> {
    batch.map_values(|s: Status| row_of(s))
}

/// The bytes that a batch appends to the CSV log.
pub open spec fn csv_bytes(batch: Seq<Status>) -> Seq<u8> {
    csv_rows(batch).flatten()
}

/// The CSV encoder reported an error.
#[derive(Clone, Copy, Debug, PartialEq, Eq, Structural)]
pub enum CsvEncodeError {
    Encoding,
}

/// Relies on `csv::Writer::from_writer` over an in-memory buffer and
/// `csv::Writer::serialize` of the tuple `(url, status, code, time)`: one
/// record holding the four fields in order, then the record terminator; no
/// header, since the writer writes one only for structs. It cannot fail
/// here: a `Vec` takes every write, and a fresh writer holds no earlier
/// record whose field count this one could differ from.
/// `Writer::into_inner` hands the buffer back.
#[verifier::external_body]
fn encode_csv_row(url: &str, status: &str, code: u16, time: u64) -> (r: Result<Vec<u8>, csv::Error>)
    ensures
        r is Ok,
        r matches Ok(b) ==> b@ == csv_row_of(url@, status@, code, time),
{
    let mut writer = csv::Writer::from_writer(Vec::new());
    writer.serialize((url, status, code, time))?;
    match writer.into_inner() {
        Ok(bytes) => Ok(bytes),
        Err(e) => Err(csv::Error::from(e.into_error())),
    }
}

/// The CSV record of one check.
pub fn csv_row(status: &Status) -> (r: Result<Vec<u8>, CsvEncodeError>)
    ensures
        r is Ok,
        r matches Ok(b) ==> b@ == row_of(*status),
{
    match encode_csv_row(status.url.as_str(), status.status.label(), status.http_status_code,
        status.last_ping_time) {
        Ok(bytes) => Ok(bytes),
        Err(_) => Err(CsvEncodeError::Encoding),
    }
}

/// The bytes to append to the CSV log for a batch: the records of the
/// checks, one after another, in the order of the batch.
pub fn csv_batch(batch: &Vec<Status>) -> (r: Result<Vec<u8>, CsvEncodeError>)
    ensures
        r is Ok,
        r matches Ok(b) ==> b@ == csv_bytes(batch@),
{
    let mut out: Vec<u8> = Vec::new();
    let mut i: usize = 0;
    while i < batch.len()
        invariant
            i <= batch@.len(),
            out@ == csv_bytes(batch@.subrange(0, i as int)),
        decreases batch@.len() - i,
    {
        let row = csv_row(&batch[i])?;
        let mut j: usize = 0;
        let ghost before = out@;
        while j < row.len()
            invariant
                j <= row@.len(),
                out@ == before + row@.subrange(0, j as int),
            decreases row@.len() - j,
        {
            out.push(row[j]);
            j = j + 1;
        }
        proof {
            let done = batch@.subrange(0, i as int);
            assert(batch@.subrange(0, i + 1) =~= done.push(batch@[i as int]));
            assert(csv_rows(done.push(batch@[i as int])) =~= csv_rows(done).push(row@));
            csv_rows(done).lemma_flatten_push(row@);
            assert(row@.subrange(0, j as int) =~= row@);
        }
        i = i + 1;
    }
    assert(batch@.subrange(0, i as int) =~= batch@);
    Ok(out)
}

/// Writing a batch of N checks to the CSV log appends exactly N records
/// after whatever the file held: record i is the encoding of check i, and
/// the earlier content is left as it was. Two batches written one after the
/// other give the same bytes as their concatenation written at once.
pub proof fn lemma_csv_append_adds_one_row_per_check(
    prior: Seq<u8>,
    batch: Seq<Status>,
    next: Seq<Status>,
)
    ensures
        csv_rows(batch).len() == batch.len(),
        forall|i: int| 0 <= i < batch.len() ==> #[trigger] csv_rows(batch)[i] == row_of(batch[i]),
        (prior + csv_bytes(batch)).subrange(0, prior.len() as int) == prior,
        (prior + csv_bytes(batch)).subrange(prior.len() as int, (prior + csv_bytes(batch)).len() as int)
            == csv_rows(batch).flatten(),
        csv_bytes(batch) + csv_bytes(next) == csv_bytes(batch + next),
{
    let whole = prior + csv_bytes(batch);
    assert(whole.subrange(0, prior.len() as int) =~= prior);
    assert(whole.subrange(prior.len() as int, whole.len() as int) =~= csv_bytes(batch));
    assert(csv_rows(batch + next) =~= csv_rows(batch) + csv_rows(next));
    lemma_flatten_concat(csv_rows(batch), csv_rows(next));
}

} // verus!
