//! The columnar writer's layout: schema column names, output file name,
//! the per-file timestamp column, and the row groups written so far.
use vstd::prelude::*;
use vstd::string::StringExecFns;
use chrono::{Datelike, Timelike, Utc};
use crate::chunk::EmbeddingChunk;
use crate::decimal::{decimal, push_decimal, push_zero_padded, zero_padded};

verus! {

/// A UTC date and time of day, to the second.
#[derive(Clone, Copy, Debug, PartialEq, Eq)]
pub struct UtcStamp {
    pub year: i32,
    pub month: u32,
    pub day: u32,
    pub hour: u32,
    pub minute: u32,
    pub second: u32,
    /// Nanoseconds into the second; 1_000_000_000 and above mark a leap second.
    pub nanosecond: u32,
}

impl UtcStamp {
    pub open spec fn wf(&self) -> bool {
        &&& 1 <= self.month <= 12
        &&& 1 <= self.day <= 31
        &&& self.hour < 24
        &&& self.minute < 60
        &&& self.second < 60
        &&& self.nanosecond < 2_000_000_000
    }

    /// The second as written in text: 60 during a leap second.
    pub open spec fn shown_second(&self) -> nat {
        (self.second + self.nanosecond / 1_000_000_000) as nat
    }
}

/// Relies on chrono's `Utc::now` with the `Datelike` and `Timelike` getters:
/// the current UTC date and time, each field in its documented range (the
/// nanosecond passes 1_000_000_000 during a leap second).
#[verifier::external_body]
fn utc_now() -> (r: UtcStamp)
    ensures
        r.wf(),
{
    let now = Utc::now();
    UtcStamp {
        year: now.year(),
        month: now.month(),
        day: now.day(),
        hour: now.hour(),
        minute: now.minute(),
        second: now.second(),
        nanosecond: now.nanosecond(),
    }
}

/// `s` with every occurrence of `from`, taken left to right without
/// overlap, replaced by `to`.
pub open spec fn replace_all(s: Seq<char>, from: Seq<char>, to: Seq<char>) -> Seq<char>
    decreases s.len(),
{
    if from.len() == 0 || s.len() < from.len() {
        s
    } else if s.take(from.len() as int) == from {
        to + replace_all(s.skip(from.len() as int), from, to)
    } else {
        seq![s[0]] + replace_all(s.skip(1), from, to)
    }
}

/// Relies on `str::replace`: every non-overlapping occurrence of a non-empty
/// pattern, from the left, is replaced.
#[verifier::external_body]
fn replace_str(s: &str, from: &str, to: &str) -> (r: String)
    requires
        from@.len() > 0,
    ensures
        r@ == replace_all(s@, from@, to@),
{
    s.replace(from, to)
}

/// The year as a date format writes it: four digits, zero-padded, within
/// 0..=9999; otherwise a sign, then at least four digits.
pub open spec fn year_text(y: int) -> Seq<char> {
    if 0 <= y <= 9999 {
        zero_padded(y as nat, 4)
    } else if y < 0 {
        seq!['-'] + zero_padded((-y) as nat, 4)
    } else {
        seq!['+'] + zero_padded(y as nat, 4)
    }
}

/// Two decimal digits, zero-padded.
pub open spec fn two(n: nat) -> Seq<char> {
    zero_padded(n, 2)
}

/// The stamp as `YYYYMMDDTHHMMSS`.
pub open spec fn compact_text(t: UtcStamp) -> Seq<char> {
    year_text(t.year as int) + two(t.month as nat) + two(t.day as nat) + seq!['T']
        + two(t.hour as nat) + two(t.minute as nat) + two(t.shown_second())
}

/// The stamp as `YYYY-MM-DD HH:MM:SS`.
pub open spec fn readable_text(t: UtcStamp) -> Seq<char> {
    year_text(t.year as int) + seq!['-'] + two(t.month as nat) + seq!['-'] + two(t.day as nat)
        + seq![' '] + two(t.hour as nat) + seq![':'] + two(t.minute as nat) + seq![':']
        + two(t.shown_second())
}

fn push_year(out: &mut String, y: i32)
    ensures
        final(out)@ == old(out)@ + year_text(y as int),
{
    proof {
        reveal_strlit("-");
        reveal_strlit("+");
    }
    if 0 <= y && y <= 9999 {
        push_zero_padded(out, y as u64, 4);
    } else if y < 0 {
        out.append("-");
        let a: u64 = (-(y as i64)) as u64;
        push_zero_padded(out, a, 4);
    } else {
        out.append("+");
        push_zero_padded(out, y as u64, 4);
    }
}

/// The stamp as `YYYYMMDDTHHMMSS`.
pub fn compact_stamp(t: &UtcStamp) -> (r: String)
    ensures
        r@ == compact_text(*t),
{
    let mut s = String::new();
    push_year(&mut s, t.year);
    push_zero_padded(&mut s, t.month as u64, 2);
    push_zero_padded(&mut s, t.day as u64, 2);
    proof { reveal_strlit("T"); }
    s.append("T");
    push_zero_padded(&mut s, t.hour as u64, 2);
    push_zero_padded(&mut s, t.minute as u64, 2);
    push_zero_padded(&mut s, t.second as u64 + t.nanosecond as u64 / 1_000_000_000, 2);
    assert(s@ =~= compact_text(*t));
    s
}

/// The stamp as `YYYY-MM-DD HH:MM:SS`.
pub fn readable_stamp(t: &UtcStamp) -> (r: String)
    ensures
        r@ == readable_text(*t),
{
    proof {
        reveal_strlit("-");
        reveal_strlit(" ");
        reveal_strlit(":");
    }
    let mut s = String::new();
    push_year(&mut s, t.year);
    s.append("-");
    push_zero_padded(&mut s, t.month as u64, 2);
    s.append("-");
    push_zero_padded(&mut s, t.day as u64, 2);
    s.append(" ");
    push_zero_padded(&mut s, t.hour as u64, 2);
    s.append(":");
    push_zero_padded(&mut s, t.minute as u64, 2);
    s.append(":");
    push_zero_padded(&mut s, t.second as u64 + t.nanosecond as u64 / 1_000_000_000, 2);
    assert(s@ =~= readable_text(*t));
    s
}

/// The suffix that the output file name takes in place of `.out`.
pub open spec fn parquet_suffix(t: UtcStamp) -> Seq<char> {
    seq!['_'] + compact_text(t) + seq!['.', 'p', 'a', 'r', 'q', 'u', 'e', 't']
}

/// The output file name: each `.out` in the base name becomes
/// `_<YYYYMMDDTHHMMSS>.parquet`.
pub fn output_file_name(filename: &str, t: &UtcStamp) -> (r: String)
    ensures
        r@ == replace_all(filename@, seq!['.', 'o', 'u', 't'], parquet_suffix(*t)),
{
    proof {
        reveal_strlit("_");
        reveal_strlit(".out");
        reveal_strlit(".parquet");
    }
    let mut suffix = String::from_str("_");
    let stamp = compact_stamp(t);
    suffix.append(stamp.as_str());
    suffix.append(".parquet");
    assert(suffix@ =~= parquet_suffix(*t));
    assert(".out"@ =~= seq!['.', 'o', 'u', 't']);
    replace_str(filename, ".out", suffix.as_str())
}

/// The schema's column names: entity, occurrence count, timestamp, then one
/// column `f<j>` per coordinate.
pub open spec fn column_names_spec(dimension: nat) -> Seq<Seq<char>> {
    seq![
        seq!['e', 'n', 't', 'i', 't', 'y'],
        seq!['o', 'c', 'c', 'u', 'r', '_', 'c', 'o', 'u', 'n', 't'],
        seq!['d', 'a', 't', 'e', 't', 'i', 'm', 'e'],
    ] + Seq::new(dimension, |j: int| seq!['f'] + decimal(j as nat))
}

/// Why the columnar writer did not take a call.
#[derive(Clone, Copy, Debug, PartialEq, Eq)]
pub enum ColumnarError {
    /// This writer takes records in batches only; a single record is ignored.
    SingleRecordUnsupported,
    /// The batch's sequences disagree in length, or it has not one column per
    /// coordinate.
    ChunkShape,
}

/// The type of a schema column.
#[derive(Clone, Copy, Debug, PartialEq, Eq)]
pub enum ColumnKind {
    /// UTF-8 text.
    Text,
    /// Unsigned 32-bit integer.
    Count,
    /// 32-bit float.
    Float32,
}

/// The schema's column types: text, count, text, then one float column per
/// coordinate.
pub open spec fn column_kinds_spec(dimension: nat) -> Seq<ColumnKind> {
    seq![ColumnKind::Text, ColumnKind::Count, ColumnKind::Text]
        + Seq::new(dimension, |j: int| ColumnKind::Float32)
}

/// One row group, column by column: names, counts, the timestamp of each
/// row, then column `j` holding coordinate `j` of every row (float bit
/// patterns).
pub struct RowGroup {
    pub entities: Vec<String>,
    pub occur_counts: Vec<u32>,
    pub timestamps: Vec<String>,
    pub columns: Vec<Vec<u32>>,
}

impl RowGroup {
    /// Row `i`: name, count, timestamp and coordinates.
    pub open spec fn row(&self, i: int) -> (Seq<char>, u32, Seq<char>, Seq<u32>) {
        (
            self.entities@[i]@,
            self.occur_counts@[i],
            self.timestamps@[i]@,
            Seq::new(self.columns@.len(), |j: int| self.columns@[j]@[i]),
        )
    }
}

/// Columnar writer state: the fixed schema and per-file values, and the
/// row groups written so far.
pub struct ParquetVectorPersistor {
    dimension: u16,
    file_name: String,
    timestamp: String,
    row_groups: Ghost<Seq<RowGroup>>,
    finished: bool,
}

impl ParquetVectorPersistor {
    pub closed spec fn dimension(&self) -> nat {
        self.dimension as nat
    }

    pub closed spec fn file_name_view(&self) -> Seq<char> {
        self.file_name@
    }

    pub closed spec fn timestamp_view(&self) -> Seq<char> {
        self.timestamp@
    }

    /// The row groups written so far, in order.
    pub closed spec fn row_groups(&self) -> Seq<RowGroup> {
        self.row_groups@
    }

    pub closed spec fn is_finished(&self) -> bool {
        self.finished
    }

    /// A writer for `dimension` coordinates whose file name and timestamp
    /// column are taken from `stamp`.
    pub fn with_stamp(filename: &str, dimension: u16, stamp: &UtcStamp) -> (r: Self)
        ensures
            r.dimension() == dimension,
            r.file_name_view() == replace_all(filename@, seq!['.', 'o', 'u', 't'], parquet_suffix(*stamp)),
            r.timestamp_view() == readable_text(*stamp),
            r.row_groups().len() == 0,
            !r.is_finished(),
    {
        ParquetVectorPersistor {
            dimension,
            file_name: output_file_name(filename, stamp),
            timestamp: readable_stamp(stamp),
            row_groups: Ghost(Seq::empty()),
            finished: false,
        }
    }

    /// A writer for `dimension` coordinates, stamped with the current UTC time.
    pub fn new(filename: String, dimension: u16) -> (r: Self)
        ensures
            exists|t: UtcStamp| t.wf() && #[trigger] r.file_name_view()
                == replace_all(filename@, seq!['.', 'o', 'u', 't'], parquet_suffix(t))
                && r.timestamp_view() == readable_text(t),
            r.dimension() == dimension,
            r.row_groups().len() == 0,
            !r.is_finished(),
    {
        let stamp = utc_now();
        Self::with_stamp(filename.as_str(), dimension, &stamp)
    }

    /// The output file name.
    pub fn file_name(&self) -> (r: &String)
        ensures
            r@ == self.file_name_view(),
    {
        &self.file_name
    }

    /// The value repeated in the timestamp column of every row.
    pub fn timestamp(&self) -> (r: &String)
        ensures
            r@ == self.timestamp_view(),
    {
        &self.timestamp
    }

    /// Whether the file has been closed.
    pub fn finished(&self) -> (r: bool)
        ensures
            r == self.is_finished(),
    {
        self.finished
    }

    /// The schema's column types, in column order.
    pub fn column_kinds(&self) -> (r: Vec<ColumnKind>)
        ensures
            r@ == column_kinds_spec(self.dimension()),
    {
        let mut r: Vec<ColumnKind> = Vec::new();
        r.push(ColumnKind::Text);
        r.push(ColumnKind::Count);
        r.push(ColumnKind::Text);
        let mut j: u16 = 0;
        while j < self.dimension
            invariant
                j <= self.dimension,
                r@ == seq![ColumnKind::Text, ColumnKind::Count, ColumnKind::Text]
                    + Seq::new(j as nat, |k: int| ColumnKind::Float32),
            decreases self.dimension - j,
        {
            r.push(ColumnKind::Float32);
            j = j + 1;
            assert(r@ =~= seq![ColumnKind::Text, ColumnKind::Count, ColumnKind::Text]
                + Seq::new(j as nat, |k: int| ColumnKind::Float32));
        }
        assert(r@ =~= column_kinds_spec(self.dimension()));
        r
    }

    /// The schema's column names.
    pub fn column_names(&self) -> (r: Vec<String>)
        ensures
            crate::text::texts(r@) == column_names_spec(self.dimension()),
    {
        proof {
            reveal_strlit("entity");
            reveal_strlit("occur_count");
            reveal_strlit("datetime");
            reveal_strlit("f");
        }
        let mut r: Vec<String> = Vec::new();
        r.push(String::from_str("entity"));
        r.push(String::from_str("occur_count"));
        r.push(String::from_str("datetime"));
        let ghost fixed = seq![
            seq!['e', 'n', 't', 'i', 't', 'y'],
            seq!['o', 'c', 'c', 'u', 'r', '_', 'c', 'o', 'u', 'n', 't'],
            seq!['d', 'a', 't', 'e', 't', 'i', 'm', 'e'],
        ];
        assert("entity"@ =~= fixed[0]);
        assert("occur_count"@ =~= fixed[1]);
        assert("datetime"@ =~= fixed[2]);
        assert(crate::text::texts(r@) =~= fixed);
        let mut j: u16 = 0;
        while j < self.dimension
            invariant
                j <= self.dimension,
                crate::text::texts(r@) == fixed + Seq::new(j as nat, |k: int| seq!['f'] + decimal(k as nat)),
            decreases self.dimension - j,
        {
            proof { reveal_strlit("f"); }
            let mut name = String::from_str("f");
            push_decimal(&mut name, j as u64);
            let ghost before = r@;
            assert("f"@ =~= seq!['f']);
            r.push(name);
            assert(crate::text::texts(r@) =~= crate::text::texts(before).push(seq!['f'] + decimal(j as nat)));
            j = j + 1;
            assert(crate::text::texts(r@) =~= fixed + Seq::new(j as nat, |k: int| seq!['f'] + decimal(k as nat)));
        }
        r
    }

    /// The shape is fixed by the schema already: nothing changes.
    pub fn put_metadata(&mut self, entity_count: u32, dimension: u16)
        ensures
            *final(self) == *old(self),
    {
    }

    /// Single records are not taken by this writer: the state is left as it
    /// was, and the condition is reported.
    pub fn put_data(&mut self, entity: &str, occur_count: u32, vector: &Vec<u32>) -> (r: Result<(), ColumnarError>)
        ensures
            *final(self) == *old(self),
            r == Err::<(), ColumnarError>(ColumnarError::SingleRecordUnsupported),
    {
        Err(ColumnarError::SingleRecordUnsupported)
    }

    /// Accepts a batch as one row group, whose columns are the batch's own
    /// (the coordinate columns are not transposed), with the writer's
    /// timestamp on every row.
    pub fn put_data_chunk(&mut self, chunk: EmbeddingChunk) -> (r: Result<RowGroup, ColumnarError>)
        requires
            !old(self).is_finished(),
        ensures
            r is Ok <==> chunk.wf() && chunk.vectors@.len() == old(self).dimension(),
            r is Err ==> r == Err::<RowGroup, ColumnarError>(ColumnarError::ChunkShape) && *final(self) == *old(self),
            r matches Ok(g) ==> {
                &&& g.entities == chunk.entities
                &&& g.occur_counts == chunk.occur_counts
                &&& g.columns == chunk.vectors
                &&& g.timestamps@.len() == chunk.len()
                &&& forall|i: int| 0 <= i < g.timestamps@.len() ==> (#[trigger] g.timestamps@[i])@ == old(self).timestamp_view()
                &&& forall|i: int| 0 <= i < chunk.len() ==> #[trigger] g.row(i) == (chunk.entities@[i]@,
                    chunk.occur_counts@[i], old(self).timestamp_view(), chunk.record_vector_spec(i))
                &&& final(self).row_groups() == old(self).row_groups().push(g)
            },
            final(self).dimension() == old(self).dimension(),
            final(self).file_name_view() == old(self).file_name_view(),
            final(self).timestamp_view() == old(self).timestamp_view(),
            !final(self).is_finished(),
    {
        if !chunk.is_well_formed() || chunk.vectors.len() != self.dimension as usize {
            return Err(ColumnarError::ChunkShape);
        }
        let n = chunk.entities.len();
        let mut ts: Vec<String> = Vec::new();
        let mut i: usize = 0;
        while i < n
            invariant
                i <= n,
                ts@.len() == i,
                forall|k: int| 0 <= k < i ==> (#[trigger] ts@[k])@ == self.timestamp@,
            decreases n - i,
        {
            ts.push(self.timestamp.clone());
            i = i + 1;
        }
        let g = RowGroup {
            entities: chunk.entities,
            occur_counts: chunk.occur_counts,
            timestamps: ts,
            columns: chunk.vectors,
        };
        self.row_groups = Ghost(self.row_groups@.push(g));
        Ok(g)
    }

    /// Closes the file: no further row group follows.
    pub fn finish(&mut self)
        requires
            !old(self).is_finished(),
        ensures
            final(self).is_finished(),
            final(self).row_groups() == old(self).row_groups(),
            final(self).dimension() == old(self).dimension(),
            final(self).file_name_view() == old(self).file_name_view(),
    {
        self.finished = true;
    }
}

} // verus!
