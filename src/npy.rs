//! The mapped-array writer: rows of a dense matrix of 32-bit floats, stored
//! into a byte region that holds a complete array file (a header, then the
//! row-major payload), plus the entity names and occurrence counts kept for
//! the side files.
//!
//! Coordinates are carried as the bit patterns of their floats and stored
//! little-endian.
use vstd::prelude::*;
use ndarray::ArrayView1;
use ndarray_npy::{WriteNpyError, WriteNpyExt};
use crate::chunk::EmbeddingChunk;
use crate::text::texts;

verus! {

#[verifier::external_type_specification]
#[verifier::external_body]
pub struct ExJsonError(serde_json::Error);

#[verifier::external_type_specification]
#[verifier::external_body]
pub struct ExWriteNpyError(WriteNpyError);

/// The JSON text of an empty list, `[]`.
pub open spec fn empty_json_array() -> Seq<char> {
    seq!['[', ']']
}

/// The indented JSON text of a list of strings.
pub uninterp spec fn pretty_json_of_strings(names: Seq<Seq<char>>) -> Seq<char>;

/// The magic prefix of an array file, `\x93NUMPY`.
pub open spec fn npy_magic() -> Seq<u8> {
    seq![0x93u8, 0x4eu8, 0x55u8, 0x4du8, 0x50u8, 0x59u8]
}

/// The big-endian bytes of a sequence of 32-bit words.
pub open spec fn be_bytes(v: Seq<u32>) -> Seq<u8> {
    Seq::new(4 * v.len(), |b: int| byte_of(v[b / 4], 3 - b % 4))
}

/// The file ends with the words, in one byte order or the other.
pub open spec fn holds_words(b: Seq<u8>, v: Seq<u32>) -> bool {
    b.len() >= 4 * v.len() && (b.skip(b.len() - 4 * v.len()) == le_bytes(v)
        || b.skip(b.len() - 4 * v.len()) == be_bytes(v))
}

/// The shape of a one-dimensional array file of `n` 4-byte values: the magic
/// prefix, a header padded to a multiple of 64 bytes, then the values.
pub open spec fn is_npy_of_words(b: Seq<u8>, n: nat) -> bool {
    &&& b.len() >= 64 + 4 * n
    &&& (b.len() - 4 * n) as int % 64 == 0
    &&& b.take(6) == npy_magic()
}

/// Relies on `serde_json::to_string_pretty`: the indented JSON array of the
/// names, which depends on the names alone. A list of strings serialises
/// without error into memory: the serializer fails only on its writer's I/O
/// error or on a non-string map key. An empty list is written `[]`.
#[verifier::external_body]
fn names_to_pretty_json(names: &Vec<String>) -> (r: Result<String, serde_json::Error>)
    ensures
        r is Ok,
        r matches Ok(s) ==> s@ == pretty_json_of_strings(texts(names@)),
        r matches Ok(s) ==> (names@.len() == 0 ==> s@ == empty_json_array()),
{
    serde_json::to_string_pretty(names)
}

/// Relies on ndarray-npy's `WriteNpyExt::write_npy` on an `ndarray::ArrayView1`,
/// writing into memory: the magic prefix, a header padded to a multiple of 64
/// bytes, then 4 bytes per value (in the machine's byte order, which the
/// header names). Writing into memory fails only on a header too long for
/// the format, which a one-dimensional shape never gives.
#[verifier::external_body]
fn u32s_to_npy(values: &Vec<u32>) -> (r: Result<Vec<u8>, WriteNpyError>)
    ensures
        r is Ok,
        r matches Ok(b) ==> is_npy_of_words(b@, values@.len()),
        r matches Ok(b) ==> holds_words(b@, values@),
{
    let mut out: Vec<u8> = Vec::new();
    ArrayView1::from(values.as_slice()).write_npy(&mut out)?;
    Ok(out)
}

/// Byte `k` (0 is the least significant) of `x`.
pub open spec fn byte_of(x: u32, k: int) -> u8 {
    if k == 0 {
        (x & 0xff) as u8
    } else if k == 1 {
        ((x >> 8u32) & 0xff) as u8
    } else if k == 2 {
        ((x >> 16u32) & 0xff) as u8
    } else {
        ((x >> 24u32) & 0xff) as u8
    }
}

/// The little-endian bytes of a sequence of 32-bit words.
pub open spec fn le_bytes(v: Seq<u32>) -> Seq<u8> {
    Seq::new(4 * v.len(), |b: int| byte_of(v[b / 4], b % 4))
}

/// The 32-bit word stored little-endian at `bytes[4 * j .. 4 * j + 4]`.
pub open spec fn word_at(bytes: Seq<u8>, j: int) -> u32 {
    (bytes[4 * j] as u32) | ((bytes[4 * j + 1] as u32) << 8u32) | ((bytes[4 * j + 2] as u32) << 16u32)
        | ((bytes[4 * j + 3] as u32) << 24u32)
}

proof fn lemma_word_of_bytes(x: u32)
    ensures
        ((byte_of(x, 0) as u32) | ((byte_of(x, 1) as u32) << 8u32) | ((byte_of(x, 2) as u32) << 16u32)
            | ((byte_of(x, 3) as u32) << 24u32)) == x,
{
    assert((((x & 0xff) as u8 as u32) | ((((x >> 8u32) & 0xff) as u8 as u32) << 8u32) | ((((x >> 16u32)
        & 0xff) as u8 as u32) << 16u32) | ((((x >> 24u32) & 0xff) as u8 as u32) << 24u32)) == x)
        by (bit_vector);
}

/// Reading the words back from `le_bytes(v)` gives `v`.
pub proof fn lemma_le_bytes_read_back(v: Seq<u32>)
    ensures
        Seq::new(v.len(), |j: int| word_at(le_bytes(v), j)) == v,
{
    assert forall|j: int| 0 <= j < v.len() implies word_at(le_bytes(v), j) == v[j] by {
        let b = le_bytes(v);
        assert((4 * j) / 4 == j && (4 * j) % 4 == 0);
        assert((4 * j + 1) / 4 == j && (4 * j + 1) % 4 == 1);
        assert((4 * j + 2) / 4 == j && (4 * j + 2) % 4 == 2);
        assert((4 * j + 3) / 4 == j && (4 * j + 3) % 4 == 3);
        assert(b[4 * j] == byte_of(v[j], 0));
        assert(b[4 * j + 1] == byte_of(v[j], 1));
        assert(b[4 * j + 2] == byte_of(v[j], 2));
        assert(b[4 * j + 3] == byte_of(v[j], 3));
        lemma_word_of_bytes(v[j]);
    }
    assert(Seq::new(v.len(), |j: int| word_at(le_bytes(v), j)) =~= v);
}

/// Where the payload of an `entity_count` by `dimension` matrix lies in a
/// region of `region_len` bytes that ends with it.
#[derive(Clone, Copy, Debug, PartialEq, Eq)]
pub struct MatrixLayout {
    pub entity_count: usize,
    pub dimension: usize,
    pub row_width: usize,
    pub payload_offset: usize,
    pub region_len: usize,
}

impl MatrixLayout {
    pub open spec fn wf(&self) -> bool {
        &&& self.row_width == 4 * self.dimension
        &&& self.payload_offset + self.entity_count * self.row_width == self.region_len
    }

    /// The first byte of row `i`.
    pub open spec fn row_start(&self, i: int) -> int {
        self.payload_offset + i * self.row_width
    }
}

/// The bytes of row `i` in `region`.
pub open spec fn row_bytes(region: Seq<u8>, layout: MatrixLayout, i: int) -> Seq<u8> {
    region.subrange(layout.row_start(i), layout.row_start(i) + layout.row_width)
}

/// Row `i` of the matrix in `region`, read back as words.
pub open spec fn read_row(region: Seq<u8>, layout: MatrixLayout, i: int) -> Seq<u32> {
    Seq::new(layout.dimension as nat, |j: int| word_at(row_bytes(region, layout, i), j))
}

/// Why the mapped-array writer refused a call.
#[derive(Clone, Copy, Debug, PartialEq, Eq)]
pub enum NpyError {
    /// The region cannot hold the declared matrix.
    RegionTooSmall,
    /// The declared matrix has no room for the record or records.
    MatrixFull,
    /// The batch's sequences disagree in length, or it has not one column per
    /// coordinate.
    ChunkShape,
    /// The entity names could not be rendered.
    Entities,
    /// The occurrence counts could not be rendered.
    Occurrences,
}

/// The contents of the side files: the entity names as indented JSON, and the
/// occurrence counts as an array file where they are kept.
pub struct NpySideFiles {
    pub entities_json: String,
    pub occurrences_npy: Option<Vec<u8>>,
}

/// The side files from the rendered names and, where counts are kept, the
/// rendered counts; the first rendering that failed decides the error.
pub fn side_files_from(
    entities_json: Result<String, serde_json::Error>,
    occurrences_npy: Option<Result<Vec<u8>, WriteNpyError>>,
) -> (r: Result<NpySideFiles, NpyError>)
    ensures
        match entities_json {
            Err(_) => r == Err::<NpySideFiles, NpyError>(NpyError::Entities),
            Ok(s) => match occurrences_npy {
                None => (r matches Ok(f) && f.entities_json@ == s@ && f.occurrences_npy is None),
                Some(Err(_)) => r == Err::<NpySideFiles, NpyError>(NpyError::Occurrences),
                Some(Ok(b)) => (r matches Ok(f) && f.entities_json@ == s@
                    && (f.occurrences_npy matches Some(c) && c@ == b@)),
            },
        },
{
    let entities_json = match entities_json {
        Ok(s) => s,
        Err(_) => { return Err(NpyError::Entities); },
    };
    let occurrences_npy = match occurrences_npy {
        None => None,
        Some(Ok(b)) => Some(b),
        Some(Err(_)) => { return Err(NpyError::Occurrences); },
    };
    Ok(NpySideFiles { entities_json, occurrences_npy })
}

/// Mapped-array writer state.
pub struct NpyPersistor {
    entities: Vec<String>,
    occurences: Vec<u32>,
    produce_entity_occurrence_count: bool,
    layout: Option<MatrixLayout>,
    rows: Ghost<Seq<Seq<u32>>>,
}

proof fn lemma_row_bounds(i: int, n: int, w: int)
    requires
        0 <= i < n,
        0 <= w,
    ensures
        i * w + w <= n * w,
        0 <= i * w,
{
    assert(i * w + w <= n * w) by (nonlinear_arith)
        requires
            0 <= i < n,
            0 <= w,
    ;
    assert(0 <= i * w) by (nonlinear_arith)
        requires
            0 <= i,
            0 <= w,
    ;
}

proof fn lemma_row_start_step(l: MatrixLayout, k: int)
    ensures
        l.row_start(k + 1) == l.row_start(k) + l.row_width,
{
    assert((k + 1) * l.row_width == k * l.row_width + l.row_width) by (nonlinear_arith);
}

proof fn lemma_row_start_mono(l: MatrixLayout, a: int, b: int)
    requires
        a <= b,
    ensures
        l.row_start(a) <= l.row_start(b),
{
    assert(a * l.row_width <= b * l.row_width) by (nonlinear_arith)
        requires
            a <= b,
            0 <= l.row_width,
    ;
}

proof fn lemma_rows_apart(i: int, n: int, w: int, b: int)
    requires
        0 <= i < n,
        0 <= b < w,
    ensures
        i * w + b < n * w,
{
    assert(i * w + b < n * w) by (nonlinear_arith)
        requires
            0 <= i < n,
            0 <= b < w,
    ;
}

impl NpyPersistor {
    /// The names of the records written so far, in order.
    pub closed spec fn entities(&self) -> Seq<Seq<char>> {
        texts(self.entities@)
    }

    /// The occurrence counts of the records written so far, in order.
    pub closed spec fn occurrences(&self) -> Seq<u32> {
        self.occurences@
    }

    /// The vectors of the records written so far, in order.
    pub closed spec fn rows(&self) -> Seq<Seq<u32>> {
        self.rows@
    }

    /// The declared matrix, once its shape is declared.
    pub closed spec fn layout(&self) -> Option<MatrixLayout> {
        self.layout
    }

    /// Whether the occurrence counts go to a side file.
    pub closed spec fn with_count(&self) -> bool {
        self.produce_entity_occurrence_count
    }

    pub closed spec fn wf(&self) -> bool {
        &&& self.entities@.len() == self.rows@.len()
        &&& self.occurences@.len() == self.rows@.len()
        &&& match self.layout {
            Some(l) => {
                &&& l.wf()
                &&& self.rows@.len() <= l.entity_count
                &&& forall|i: int| 0 <= i < self.rows@.len() ==> (#[trigger] self.rows@[i]).len() == l.dimension
            },
            None => self.rows@.len() == 0,
        }
    }

    /// Row `i` of the region holds the `i`-th vector written, for every
    /// vector written so far.
    pub open spec fn holds_rows(&self, region: Seq<u8>) -> bool {
        &&& self.layout() matches Some(l)
        &&& region.len() == l.region_len
        &&& forall|i: int| 0 <= i < self.rows().len() ==> #[trigger] row_bytes(region, l, i) == le_bytes(self.rows()[i])
    }

    /// Reading the matrix back: once records have been written into a region,
    /// row `i` of it reads back as the vector of the `i`-th record written,
    /// whatever the records' names; when every declared row is written, the
    /// matrix read back is exactly the sequence of vectors written.
    pub proof fn lemma_matrix_read_back(&self, region: Seq<u8>)
        requires
            self.wf(),
            self.holds_rows(region),
        ensures
            forall|i: int| 0 <= i < self.rows().len() ==> #[trigger] read_row(region, self.layout()->Some_0, i) == self.rows()[i],
            self.rows().len() == self.layout()->Some_0.entity_count ==> Seq::new(self.rows().len(), |i: int| read_row(region, self.layout()->Some_0, i)) == self.rows(),
    {
        let l = self.layout()->Some_0;
        assert forall|i: int| 0 <= i < self.rows().len() implies #[trigger] read_row(region, l, i) == self.rows()[i] by {
            assert(row_bytes(region, l, i) == le_bytes(self.rows()[i]));
            lemma_le_bytes_read_back(self.rows()[i]);
            assert(read_row(region, l, i) =~= Seq::new(self.rows()[i].len(), |j: int| word_at(le_bytes(self.rows()[i]), j)));
        }
        assert(Seq::new(self.rows().len(), |i: int| read_row(region, l, i)) =~= self.rows());
    }

    /// A writer with no shape declared and nothing written.
    pub fn new(produce_entity_occurrence_count: bool) -> (r: Self)
        ensures
            r.wf(),
            r.with_count() == produce_entity_occurrence_count,
            r.layout() is None,
            r.entities().len() == 0,
            r.occurrences().len() == 0,
            r.rows().len() == 0,
    {
        NpyPersistor {
            entities: Vec::new(),
            occurences: Vec::new(),
            produce_entity_occurrence_count,
            layout: None,
            rows: Ghost(Seq::empty()),
        }
    }

    /// The declared matrix, once its shape is declared.
    pub fn matrix_layout(&self) -> (r: Option<MatrixLayout>)
        ensures
            r == self.layout(),
    {
        self.layout
    }

    /// Declares the shape, for a region of `region_len` bytes that ends with
    /// the zero-filled payload of an `entity_count` by `dimension` matrix.
    pub fn put_metadata(&mut self, entity_count: u32, dimension: u16, region_len: usize) -> (r: Result<(), NpyError>)
        requires
            old(self).wf(),
            old(self).layout() is None,
        ensures
            final(self).wf(),
            final(self).with_count() == old(self).with_count(),
            final(self).entities() == old(self).entities(),
            final(self).occurrences() == old(self).occurrences(),
            final(self).rows() == old(self).rows(),
            r is Ok <==> entity_count * dimension * 4 <= region_len,
            r is Err ==> r == Err::<(), NpyError>(NpyError::RegionTooSmall) && final(self).layout() is None,
            r is Ok ==> final(self).layout() == Some(MatrixLayout {
                entity_count: entity_count as usize,
                dimension: dimension as usize,
                row_width: (4 * dimension) as usize,
                payload_offset: (region_len - entity_count * dimension * 4) as usize,
                region_len,
            }),
            r is Ok ==> final(self).holds_rows(Seq::new(region_len as nat, |p: int| 0u8)),
    {
        let count64: u64 = entity_count as u64;
        let dim64: u64 = dimension as u64;
        assert(count64 * dim64 <= 0xffff_ffffu64 * 0xffffu64) by (nonlinear_arith)
            requires
                count64 <= 0xffff_ffffu64,
                dim64 <= 0xffffu64,
        ;
        let payload: u64 = count64 * dim64 * 4;
        if payload > region_len as u64 {
            return Err(NpyError::RegionTooSmall);
        }
        let width: usize = 4 * (dimension as usize);
        let count: usize = entity_count as usize;
        assert(count * width == entity_count * dimension * 4) by (nonlinear_arith)
            requires
                count == entity_count,
                width == 4 * dimension,
        ;
        let layout = MatrixLayout {
            entity_count: count,
            dimension: dimension as usize,
            row_width: width,
            payload_offset: region_len - payload as usize,
            region_len,
        };
        self.layout = Some(layout);
        Ok(())
    }

    /// The number of records written so far.
    pub fn records_written(&self) -> (r: usize)
        requires
            self.wf(),
        ensures
            r == self.rows().len(),
    {
        self.entities.len()
    }

    /// Stores `vector` as the next row of the matrix in `region` and keeps the
    /// record's name and occurrence count. The matrix must have a free row.
    pub fn put_data(&mut self, region: &mut [u8], entity: &str, occur_count: u32, vector: &Vec<u32>)
        requires
            old(self).wf(),
            old(self).holds_rows(old(region)@),
            vector@.len() == old(self).layout()->Some_0.dimension,
            old(self).rows().len() < old(self).layout()->Some_0.entity_count,
        ensures
            final(self).wf(),
            final(self).with_count() == old(self).with_count(),
            final(self).layout() == old(self).layout(),
            final(self).rows() == old(self).rows().push(vector@),
            final(self).entities() == old(self).entities().push(entity@),
            final(self).occurrences() == old(self).occurrences().push(occur_count),
            final(self).holds_rows(final(region)@),
            forall|p: int|
                0 <= p < old(region)@.len() && !(old(self).layout()->Some_0.row_start(old(self).rows().len() as int) <= p
                    < old(self).layout()->Some_0.row_start(old(self).rows().len() as int) + old(self).layout()->Some_0.row_width)
                    ==> final(region)@[p] == old(region)@[p],
    {
        let l = self.layout.unwrap();
        let n = self.entities.len();
        proof { lemma_row_bounds(n as int, l.entity_count as int, l.row_width as int); }
        let start: usize = l.payload_offset + n * l.row_width;
        let ghost before = region@;
        let mut j: usize = 0;
        while j < vector.len()
            invariant
                j <= vector@.len(),
                vector@.len() == l.dimension,
                l.wf(),
                start + l.row_width <= l.region_len,
                l.region_len == region@.len(),
                region@.len() == before.len(),
                forall|p: int| 0 <= p < region@.len() && !(start <= p < start + 4 * j) ==> region@[p] == before[p],
                forall|b: int| 0 <= b < 4 * j ==> #[trigger] region@[start + b] == le_bytes(vector@)[b],
            decreases vector@.len() - j,
        {
            let x = vector[j];
            let at = start + 4 * j;
            region[at] = (x & 0xff) as u8;
            region[at + 1] = ((x >> 8u32) & 0xff) as u8;
            region[at + 2] = ((x >> 16u32) & 0xff) as u8;
            region[at + 3] = ((x >> 24u32) & 0xff) as u8;
            proof {
                assert forall|b: int| 0 <= b < 4 * (j + 1) implies #[trigger] region@[start + b] == le_bytes(vector@)[b] by {
                    if b >= 4 * j {
                        assert(b / 4 == j);
                    }
                }
            }
            j = j + 1;
        }
        proof {
            let ghost nr = self.rows@.push(vector@);
            assert(row_bytes(region@, l, n as int) =~= le_bytes(vector@)) by {
                assert forall|b: int| 0 <= b < l.row_width implies row_bytes(region@, l, n as int)[b] == le_bytes(vector@)[b] by {
                    assert(region@[start + b] == le_bytes(vector@)[b]);
                }
            }
            assert forall|i: int| 0 <= i < nr.len() implies #[trigger] row_bytes(region@, l, i) == le_bytes(nr[i]) by {
                if i < n {
                    lemma_row_bounds(i, l.entity_count as int, l.row_width as int);
                    assert(row_bytes(region@, l, i) =~= row_bytes(before, l, i)) by {
                        assert forall|b: int| 0 <= b < l.row_width implies row_bytes(region@, l, i)[b] == row_bytes(before, l, i)[b] by {
                            lemma_rows_apart(i, n as int, l.row_width as int, b);
                            lemma_row_bounds(i, n as int, l.row_width as int);
                            lemma_row_bounds(i, l.entity_count as int, l.row_width as int);
                            let p = l.payload_offset + i * l.row_width + b;
                            assert(p < start);
                            assert(region@[p] == before[p]);
                        }
                    }
                }
            }
        }
        self.entities.push(entity.to_owned());
        self.occurences.push(occur_count);
        self.rows = Ghost(self.rows@.push(vector@));
        proof {
            assert(texts(self.entities@) =~= old(self).entities().push(entity@));
        }
    }

    /// Stores the records of a batch, in batch order, as the next rows:
    /// record `i` is read across the batch's columns (`vectors[j][i]`).
    /// A batch that is misshapen or does not fit changes nothing.
    pub fn put_data_chunk(&mut self, region: &mut [u8], chunk: &EmbeddingChunk) -> (r: Result<(), NpyError>)
        requires
            old(self).wf(),
            old(self).holds_rows(old(region)@),
        ensures
            final(self).wf(),
            final(self).with_count() == old(self).with_count(),
            final(self).layout() == old(self).layout(),
            final(self).holds_rows(final(region)@),
            (r == Err::<(), NpyError>(NpyError::ChunkShape)) <==> !(chunk.wf()
                && chunk.vectors@.len() == old(self).layout()->Some_0.dimension),
            (r == Err::<(), NpyError>(NpyError::MatrixFull)) <==> (chunk.wf()
                && chunk.vectors@.len() == old(self).layout()->Some_0.dimension
                && old(self).rows().len() + chunk.len() > old(self).layout()->Some_0.entity_count),
            r is Ok <==> (chunk.wf() && chunk.vectors@.len() == old(self).layout()->Some_0.dimension
                && old(self).rows().len() + chunk.len() <= old(self).layout()->Some_0.entity_count),
            r is Err ==> *final(self) == *old(self) && final(region)@ == old(region)@,
            forall|p: int|
                0 <= p < old(region)@.len() && !(old(self).layout()->Some_0.row_start(old(self).rows().len() as int) <= p
                    < old(self).layout()->Some_0.row_start((old(self).rows().len() + chunk.len()) as int))
                    ==> final(region)@[p] == old(region)@[p],
            r is Ok ==> final(self).rows() == old(self).rows() + Seq::new(chunk.len(), |i: int| chunk.record_vector_spec(i)),
            r is Ok ==> final(self).entities() == old(self).entities() + texts(chunk.entities@),
            r is Ok ==> final(self).occurrences() == old(self).occurrences() + chunk.occur_counts@,
    {
        let l = match self.layout {
            Some(l) => l,
            None => { return Err(NpyError::ChunkShape); },
        };
        if !chunk.is_well_formed() || chunk.vectors.len() != l.dimension {
            return Err(NpyError::ChunkShape);
        }
        let n = chunk.entities.len();
        if n > l.entity_count - self.entities.len() {
            return Err(NpyError::MatrixFull);
        }
        let ghost rows0 = self.rows();
        let ghost region0 = region@;
        let ghost ents0 = self.entities();
        let ghost occ0 = self.occurrences();
        let mut i: usize = 0;
        while i < n
            invariant
                chunk.wf(),
                n == chunk.len(),
                chunk.vectors@.len() == l.dimension,
                i <= n,
                self.wf(),
                self.holds_rows(region@),
                self.layout() == Some(l),
                self.with_count() == old(self).with_count(),
                rows0.len() + n <= l.entity_count,
                self.rows() == rows0 + Seq::new(i as nat, |k: int| chunk.record_vector_spec(k)),
                self.entities() == ents0 + texts(chunk.entities@).take(i as int),
                self.occurrences() == occ0 + chunk.occur_counts@.take(i as int),
                region@.len() == region0.len(),
                forall|p: int| 0 <= p < region0.len() && !(l.row_start(rows0.len() as int) <= p
                    < l.row_start(rows0.len() + i)) ==> region@[p] == region0[p],
            decreases n - i,
        {
            let v = chunk.record_vector(i);
            proof {
                lemma_row_start_step(l, rows0.len() + i);
                lemma_row_start_mono(l, rows0.len() as int, rows0.len() + i);
            }
            self.put_data(region, chunk.entities[i].as_str(), chunk.occur_counts[i], &v);
            proof {
                assert(texts(chunk.entities@).take(i + 1) =~= texts(chunk.entities@).take(i as int).push(chunk.entities@[i as int]@));
                assert(chunk.occur_counts@.take(i + 1) =~= chunk.occur_counts@.take(i as int).push(chunk.occur_counts@[i as int]));
                assert(self.rows() =~= rows0 + Seq::new((i + 1) as nat, |k: int| chunk.record_vector_spec(k)));
                assert(self.entities() =~= ents0 + texts(chunk.entities@).take(i + 1));
                assert(self.occurrences() =~= occ0 + chunk.occur_counts@.take(i + 1));
            }
            i = i + 1;
        }
        proof {
            assert(texts(chunk.entities@).take(n as int) =~= texts(chunk.entities@));
            assert(chunk.occur_counts@.take(n as int) =~= chunk.occur_counts@);
        }
        Ok(())
    }

    /// The contents of the side files for the records written so far: the
    /// names as indented JSON, and, where counts are kept, an array file of
    /// the counts.
    pub fn finish(&self) -> (r: Result<NpySideFiles, NpyError>)
        ensures
            r is Ok,
            r matches Ok(f) ==> f.entities_json@ == pretty_json_of_strings(self.entities()),
            self.entities().len() == 0 ==> (r matches Ok(f) && f.entities_json@ == empty_json_array()),
            r matches Ok(f) ==> (f.occurrences_npy is Some <==> self.with_count()),
            r matches Ok(f) ==> (f.occurrences_npy matches Some(b) ==> is_npy_of_words(b@, self.occurrences().len())
                && holds_words(b@, self.occurrences())),
    {
        let entities_json = names_to_pretty_json(&self.entities);
        let occurrences_npy = if self.produce_entity_occurrence_count {
            Some(u32s_to_npy(&self.occurences))
        } else {
            None
        };
        side_files_from(entities_json, occurrences_npy)
    }
}

} // verus!
