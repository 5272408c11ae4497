//! The JSON log, one JSON record per line. Appending a batch adds its
//! records, each followed by a newline, so that the file can be read back
//! line by line after any number of ticks.
use vstd::prelude::*;

verus! {

/// The byte that ends each record.
pub const NEWLINE: u8 = 10;

/// A record can stand on one line: it is not empty and holds no newline.
pub open spec fn fits_one_line(record: Seq<u8>) -> bool {
    record.len() > 0 && !record.contains(NEWLINE)
}

/// The bytes that a sequence of records takes in the log.
pub open spec fn framed(records: Seq<Seq<u8>>) -> Seq<u8>
    decreases records.len(),
{
    if records.len() == 0 {
        Seq::empty()
    } else {
        records[0] + seq![NEWLINE] + framed(records.drop_first())
    }
}

/// The lines of `bytes`, the first of which begins with `current`. A last
/// line without a newline counts if it is not empty.
pub open spec fn lines_from(bytes: Seq<u8>, current: Seq<u8>) -> Seq<Seq<u8>>
    decreases bytes.len(),
{
    if bytes.len() == 0 {
        if current.len() == 0 {
            Seq::empty()
        } else {
            seq![current]
        }
    } else if bytes[0] == NEWLINE {
        seq![current] + lines_from(bytes.drop_first(), Seq::empty())
    } else {
        lines_from(bytes.drop_first(), current.push(bytes[0]))
    }
}

/// The records that a reader finds in the log.
pub open spec fn lines(bytes: Seq<u8>) -> Seq<Seq<u8>> {
    lines_from(bytes, Seq::empty())
}

/// A record that cannot be framed, by its index in the batch.
#[derive(Clone, Copy, Debug, PartialEq, Eq, Structural)]
pub enum FramingError {
    EmptyRecord(usize),
    NewlineInRecord(usize),
}

fn check_record(record: &Vec<u8>) -> (r: bool)
    ensures
        r == !record@.contains(NEWLINE),
{
    let mut i: usize = 0;
    while i < record.len()
        invariant
            i <= record@.len(),
            forall|j: int| 0 <= j < i ==> record@[j] != NEWLINE,
        decreases record@.len() - i,
    {
        if record[i] == NEWLINE {
            return false;
        }
        i = i + 1;
    }
    true
}

proof fn lemma_framed_concat(a: Seq<Seq<u8>>, b: Seq<Seq<u8>>)
    ensures
        framed(a + b) == framed(a) + framed(b),
    decreases a.len(),
{
    if a.len() == 0 {
        assert(a + b =~= b);
        assert(framed(a) + framed(b) =~= framed(b));
    } else {
        assert((a + b).drop_first() =~= a.drop_first() + b);
        lemma_framed_concat(a.drop_first(), b);
        assert(framed(a + b) =~= framed(a) + framed(b));
    }
}

proof fn lemma_framed_one(r: Seq<u8>)
    ensures
        framed(seq![r]) == r + seq![NEWLINE],
{
    assert(seq![r].drop_first() =~= Seq::<Seq<u8>>::empty());
    assert(framed(seq![r].drop_first()) == Seq::<u8>::empty());
    assert(framed(seq![r]) =~= r + seq![NEWLINE]);
}

/// The bytes to append to the JSON log for a batch of records, each the
/// JSON text of one check: every record followed by a newline. Fails, naming
/// the first such record, when a record is empty or holds a newline.
pub fn frame_json_lines(records: &Vec<Vec<u8>>) -> (r: Result<Vec<u8>, FramingError>)
    ensures
        r is Ok <==> forall|i: int|
            0 <= i < records@.len() ==> fits_one_line(#[trigger] records@[i]@),
        r matches Ok(b) ==> b@ == framed(records.deep_view()),
        r matches Err(e) ==> match e {
            FramingError::EmptyRecord(k) => k < records@.len() && records@[k as int]@.len() == 0,
            FramingError::NewlineInRecord(k) => k < records@.len() && records@[k as int]@.len() > 0
                && records@[k as int]@.contains(NEWLINE),
        },
        r matches Err(e) ==> match e {
            FramingError::EmptyRecord(k) => forall|i: int|
                0 <= i < k ==> fits_one_line(#[trigger] records@[i]@),
            FramingError::NewlineInRecord(k) => forall|i: int|
                0 <= i < k ==> fits_one_line(#[trigger] records@[i]@),
        },
{
    let mut out: Vec<u8> = Vec::new();
    let mut i: usize = 0;
    while i < records.len()
        invariant
            i <= records@.len(),
            forall|j: int| 0 <= j < i ==> fits_one_line(#[trigger] records@[j]@),
            out@ == framed(records.deep_view().subrange(0, i as int)),
        decreases records@.len() - i,
    {
        let record = &records[i];
        if record.len() == 0 {
            return Err(FramingError::EmptyRecord(i));
        }
        if !check_record(record) {
            return Err(FramingError::NewlineInRecord(i));
        }
        let ghost before = out@;
        let mut j: usize = 0;
        while j < record.len()
            invariant
                j <= record@.len(),
                out@ == before + record@.subrange(0, j as int),
            decreases record@.len() - j,
        {
            out.push(record[j]);
            j = j + 1;
        }
        out.push(NEWLINE);
        proof {
            let done = records.deep_view().subrange(0, i as int);
            assert(records.deep_view()[i as int] == record@);
            assert(records.deep_view().subrange(0, i + 1) =~= done + seq![record@]);
            lemma_framed_concat(done, seq![record@]);
            lemma_framed_one(record@);
            assert(record@.subrange(0, j as int) =~= record@);
            assert(out@ =~= before + (record@ + seq![NEWLINE]));
        }
        i = i + 1;
    }
    assert(records.deep_view().subrange(0, i as int) =~= records.deep_view());
    Ok(out)
}

/// The records found in the JSON log, one per line, in order.
pub fn split_json_lines(bytes: &Vec<u8>) -> (r: Vec<Vec<u8>>)
    ensures
        r.deep_view() == lines(bytes@),
{
    let mut out: Vec<Vec<u8>> = Vec::new();
    let mut current: Vec<u8> = Vec::new();
    let mut i: usize = 0;
    assert(bytes@.subrange(0, bytes@.len() as int) =~= bytes@);
    assert(out.deep_view() + lines(bytes@) =~= lines(bytes@));
    while i < bytes.len()
        invariant
            i <= bytes@.len(),
            lines(bytes@) == out.deep_view() + lines_from(
                bytes@.subrange(i as int, bytes@.len() as int),
                current@,
            ),
        decreases bytes@.len() - i,
    {
        let ghost rest = bytes@.subrange(i as int, bytes@.len() as int);
        let ghost done = out.deep_view();
        assert(rest.drop_first() =~= bytes@.subrange(i + 1, bytes@.len() as int));
        assert(rest[0] == bytes@[i as int]);
        if bytes[i] == NEWLINE {
            let ghost line = current@;
            assert(current.deep_view() =~= line);
            out.push(current);
            assert(out@[out@.len() - 1].deep_view() =~= line);
            current = Vec::new();
            assert(out.deep_view() =~= done.push(line));
            assert(done + (seq![line] + lines_from(rest.drop_first(), Seq::empty())) =~= out.deep_view()
                + lines_from(rest.drop_first(), current@));
        } else {
            current.push(bytes[i]);
            assert(out.deep_view() =~= done);
        }
        i = i + 1;
    }
    let ghost done = out.deep_view();
    let ghost line = current@;
    assert(bytes@.subrange(i as int, bytes@.len() as int) =~= Seq::<u8>::empty());
    if current.len() > 0 {
        assert(current.deep_view() =~= line);
        out.push(current);
        assert(out@[out@.len() - 1].deep_view() =~= line);
        assert(out.deep_view() =~= done + seq![line]);
    } else {
        assert(done + Seq::<Seq<u8>>::empty() =~= done);
    }
    out
}

proof fn lemma_line_then_rest(r: Seq<u8>, rest: Seq<u8>, current: Seq<u8>)
    requires
        !r.contains(NEWLINE),
    ensures
        lines_from(r + seq![NEWLINE] + rest, current) == seq![current + r] + lines_from(
            rest,
            Seq::empty(),
        ),
    decreases r.len(),
{
    let b = r + seq![NEWLINE] + rest;
    if r.len() == 0 {
        assert(b[0] == NEWLINE);
        assert(b.drop_first() =~= rest);
        assert(current + r =~= current);
    } else {
        assert(b[0] == r[0]);
        assert(r[0] != NEWLINE);
        assert(b.drop_first() =~= r.drop_first() + seq![NEWLINE] + rest);
        assert(!r.drop_first().contains(NEWLINE)) by {
            if r.drop_first().contains(NEWLINE) {
                let k = choose|k: int| 0 <= k < r.drop_first().len() && r.drop_first()[k] == NEWLINE;
                assert(r[k + 1] == NEWLINE);
            }
        }
        lemma_line_then_rest(r.drop_first(), rest, current.push(r[0]));
        assert(current.push(r[0]) + r.drop_first() =~= current + r);
    }
}

/// Reading back the framed records, followed by any further bytes, gives the
/// records and then whatever the further bytes hold.
proof fn lemma_lines_of_framed(records: Seq<Seq<u8>>, rest: Seq<u8>)
    requires
        forall|i: int| 0 <= i < records.len() ==> fits_one_line(#[trigger] records[i]),
    ensures
        lines(framed(records) + rest) == records + lines(rest),
    decreases records.len(),
{
    if records.len() == 0 {
        assert(framed(records) + rest =~= rest);
        assert(records + lines(rest) =~= lines(rest));
    } else {
        let tail = records.drop_first();
        assert forall|i: int| 0 <= i < tail.len() implies fits_one_line(#[trigger] tail[i]) by {
            assert(tail[i] == records[i + 1]);
        }
        lemma_lines_of_framed(tail, rest);
        assert(fits_one_line(records[0]));
        assert(framed(records) + rest =~= records[0] + seq![NEWLINE] + (framed(tail) + rest));
        lemma_line_then_rest(records[0], framed(tail) + rest, Seq::empty());
        assert(Seq::<u8>::empty() + records[0] =~= records[0]);
        assert(records + lines(rest) =~= seq![records[0]] + (tail + lines(rest)));
    }
}

/// Two batches appended to the JSON log one after the other read back as
/// the records of the first and then those of the second: the file holds
/// exactly as many records as the two batches together.
pub proof fn lemma_two_appends_read_back(first: Seq<Seq<u8>>, second: Seq<Seq<u8>>)
    requires
        forall|i: int| 0 <= i < first.len() ==> fits_one_line(#[trigger] first[i]),
        forall|i: int| 0 <= i < second.len() ==> fits_one_line(#[trigger] second[i]),
    ensures
        lines(framed(first) + framed(second)) == first + second,
        lines(framed(first) + framed(second)).len() == first.len() + second.len(),
{
    lemma_lines_of_framed(first, framed(second));
    lemma_lines_of_framed(second, Seq::empty());
    assert(framed(second) + Seq::<u8>::empty() =~= framed(second));
    assert(lines(Seq::<u8>::empty()) == Seq::<Seq<u8>>::empty());
    assert(second + Seq::<Seq<u8>>::empty() =~= second);
}

} // verus!
