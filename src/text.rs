//! Line-oriented embedding text: a header line, then one line per record.
//!
//! The writer returns each piece of text for the caller to append to its
//! destination, and keeps in ghost state all the text handed out so far.
use vstd::prelude::*;
use vstd::string::StringExecFns;
use crate::decimal::{decimal, push_decimal};

verus! {

/// The header: entity count and dimension, separated by a space, with no
/// line break.
pub open spec fn header_text(entity_count: nat, dimension: nat) -> Seq<char> {
    decimal(entity_count) + seq![' '] + decimal(dimension)
}

/// Each coordinate text preceded by one space.
pub open spec fn spaced(coords: Seq<Seq<char>>) -> Seq<char>
    decreases coords.len(),
{
    if coords.len() == 0 {
        Seq::empty()
    } else {
        spaced(coords.drop_last()) + seq![' '] + coords.last()
    }
}

/// The text of one record: a line break, the name, optionally a space and
/// the occurrence count, then each coordinate after a space.
pub open spec fn record_text(
    entity: Seq<char>,
    occur_count: nat,
    with_count: bool,
    coords: Seq<Seq<char>>,
) -> Seq<char> {
    seq!['\n'] + entity + (if with_count {
        seq![' '] + decimal(occur_count)
    } else {
        Seq::empty()
    }) + spaced(coords)
}

/// The views of a list of strings.
pub open spec fn texts(v: Seq<String>) -> Seq<Seq<char>> {
    v.map_values(|s: String| s@)
}

/// The coordinate texts of record `i`, read across rendered columns.
pub open spec fn across(columns: Seq<Seq<Seq<char>>>, i: int) -> Seq<Seq<char>> {
    Seq::new(columns.len(), |j: int| columns[j][i])
}

/// The text of the first `n` records of a batch, in batch order.
pub open spec fn records_text(
    entities: Seq<Seq<char>>,
    counts: Seq<u32>,
    with_count: bool,
    columns: Seq<Seq<Seq<char>>>,
    n: nat,
) -> Seq<char>
    decreases n,
{
    if n == 0 {
        Seq::empty()
    } else {
        records_text(entities, counts, with_count, columns, (n - 1) as nat) + record_text(
            entities[n - 1],
            counts[n - 1] as nat,
            with_count,
            across(columns, n - 1),
        )
    }
}

/// The views of rendered columns.
pub open spec fn column_texts(columns: Seq<Vec<String>>) -> Seq<Seq<Seq<char>>> {
    Seq::new(columns.len(), |j: int| texts(columns[j]@))
}

/// Writer state for the line-oriented format.
pub struct TextFileVectorPersistor {
    produce_entity_occurrence_count: bool,
    declared: bool,
    finished: bool,
    written: Ghost<Seq<char>>,
}

impl TextFileVectorPersistor {
    /// Whether each record line carries the occurrence count.
    pub closed spec fn with_count(&self) -> bool {
        self.produce_entity_occurrence_count
    }

    /// Whether the header has been produced.
    pub closed spec fn is_declared(&self) -> bool {
        self.declared
    }

    /// Whether the closing line break has been produced.
    pub closed spec fn is_finished(&self) -> bool {
        self.finished
    }

    /// All the text produced so far, in order.
    pub closed spec fn written(&self) -> Seq<char> {
        self.written@
    }

    /// A writer that has produced nothing yet.
    pub fn new(produce_entity_occurrence_count: bool) -> (r: Self)
        ensures
            r.with_count() == produce_entity_occurrence_count,
            !r.is_declared(),
            !r.is_finished(),
            r.written() == Seq::<char>::empty(),
    {
        TextFileVectorPersistor {
            produce_entity_occurrence_count,
            declared: false,
            finished: false,
            written: Ghost(Seq::empty()),
        }
    }

    /// Whether the header has been produced.
    pub fn declared(&self) -> (r: bool)
        ensures
            r == self.is_declared(),
    {
        self.declared
    }

    /// Whether the closing line break has been produced.
    pub fn finished(&self) -> (r: bool)
        ensures
            r == self.is_finished(),
    {
        self.finished
    }

    /// The header line for the declared shape.
    pub fn put_metadata(&mut self, entity_count: u32, dimension: u16) -> (r: String)
        requires
            !old(self).is_declared(),
            !old(self).is_finished(),
        ensures
            r@ == header_text(entity_count as nat, dimension as nat),
            final(self).written() == old(self).written() + r@,
            final(self).is_declared(),
            !final(self).is_finished(),
            final(self).with_count() == old(self).with_count(),
    {
        let mut s = String::new();
        push_decimal(&mut s, entity_count as u64);
        proof { reveal_strlit(" "); }
        s.append(" ");
        push_decimal(&mut s, dimension as u64);
        assert(s@ =~= header_text(entity_count as nat, dimension as nat));
        self.declared = true;
        self.written = Ghost(self.written@ + s@);
        s
    }

    /// The text of one record, whose coordinates come already rendered.
    pub fn put_data(&mut self, entity: &str, occur_count: u32, coords: &Vec<String>) -> (r: String)
        requires
            old(self).is_declared(),
            !old(self).is_finished(),
        ensures
            r@ == record_text(entity@, occur_count as nat, old(self).with_count(), texts(coords@)),
            final(self).written() == old(self).written() + r@,
            final(self).is_declared(),
            !final(self).is_finished(),
            final(self).with_count() == old(self).with_count(),
    {
        let mut s = String::new();
        proof {
            reveal_strlit("\n");
            reveal_strlit(" ");
        }
        s.append("\n");
        s.append(entity);
        let ghost head = s@;
        if self.produce_entity_occurrence_count {
            s.append(" ");
            push_decimal(&mut s, occur_count as u64);
        }
        let ghost prefix = s@;
        let mut j: usize = 0;
        while j < coords.len()
            invariant
                j <= coords@.len(),
                s@ == prefix + spaced(texts(coords@).take(j as int)),
            decreases coords@.len() - j,
        {
            proof { reveal_strlit(" "); }
            s.append(" ");
            s.append(coords[j].as_str());
            proof {
                let t = texts(coords@);
                assert(t.take(j + 1).drop_last() =~= t.take(j as int));
            }
            j = j + 1;
        }
        proof {
            assert(texts(coords@).take(coords@.len() as int) =~= texts(coords@));
            assert(s@ =~= record_text(
                entity@,
                occur_count as nat,
                self.produce_entity_occurrence_count,
                texts(coords@),
            ));
        }
        self.written = Ghost(self.written@ + s@);
        s
    }

    /// The text of a batch, one record after another in batch order, where
    /// `columns[j][i]` is the rendered coordinate `j` of record `i`.
    pub fn put_data_chunk(&mut self, entities: &Vec<String>, occur_counts: &Vec<u32>, columns: &Vec<Vec<String>>) -> (r: String)
        requires
            old(self).is_declared(),
            !old(self).is_finished(),
            occur_counts@.len() == entities@.len(),
            forall|j: int| 0 <= j < columns@.len() ==> (#[trigger] columns@[j])@.len() == entities@.len(),
        ensures
            r@ == records_text(texts(entities@), occur_counts@, old(self).with_count(),
                column_texts(columns@), entities@.len()),
            final(self).written() == old(self).written() + r@,
            final(self).is_declared(),
            !final(self).is_finished(),
            final(self).with_count() == old(self).with_count(),
    {
        let ghost w0 = self.written();
        let ghost cols = column_texts(columns@);
        let ghost ents = texts(entities@);
        let mut out = String::new();
        let mut i: usize = 0;
        while i < entities.len()
            invariant
                i <= entities@.len(),
                occur_counts@.len() == entities@.len(),
                forall|j: int| 0 <= j < columns@.len() ==> (#[trigger] columns@[j])@.len() == entities@.len(),
                self.is_declared(),
                !self.is_finished(),
                self.with_count() == old(self).with_count(),
                out@ == records_text(ents, occur_counts@, self.with_count(), cols, i as nat),
                self.written() == w0 + out@,
                cols == column_texts(columns@),
                ents == texts(entities@),
            decreases entities@.len() - i,
        {
            let mut coords: Vec<String> = Vec::new();
            let mut j: usize = 0;
            while j < columns.len()
                invariant
                    j <= columns@.len(),
                    i < entities@.len(),
                    forall|k: int| 0 <= k < columns@.len() ==> (#[trigger] columns@[k])@.len() == entities@.len(),
                    texts(coords@) == across(cols, i as int).take(j as int),
                    cols == column_texts(columns@),
                decreases columns@.len() - j,
            {
                let c = columns[j][i].clone();
                let ghost before = coords@;
                coords.push(c);
                proof {
                    assert(cols[j as int] == texts(columns@[j as int]@));
                    assert(cols[j as int][i as int] == c@);
                    assert(texts(coords@) =~= texts(before).push(c@));
                }
                j = j + 1;
                assert(texts(coords@) =~= across(cols, i as int).take(j as int));
            }
            assert(texts(coords@) =~= across(cols, i as int));
            let line = self.put_data(entities[i].as_str(), occur_counts[i], &coords);
            out.append(line.as_str());
            proof {
                assert(ents[i as int] == entities@[i as int]@);
                assert(records_text(ents, occur_counts@, self.with_count(), cols, (i + 1) as nat)
                    == records_text(ents, occur_counts@, self.with_count(), cols, i as nat) + line@);
            }
            i = i + 1;
        }
        out
    }

    /// The closing line break.
    pub fn finish(&mut self) -> (r: String)
        requires
            !old(self).is_finished(),
        ensures
            r@ == seq!['\n'],
            final(self).written() == old(self).written() + r@,
            final(self).is_finished(),
            final(self).with_count() == old(self).with_count(),
    {
        proof { reveal_strlit("\n"); }
        let s = String::from_str("\n");
        self.finished = true;
        self.written = Ghost(self.written@ + s@);
        s
    }
}

} // verus!
