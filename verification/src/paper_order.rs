//! The order of the papers: who stands before and after a paper, and the table
//! that says so for the whole corpus.

use crate::pattern::{finds_nothing, group, group_text, regex_captures, rewritten, scan, weave};
use crate::text::{
    chars_of, first_piece_len, lemma_first_piece_len, prefix_at, rows, split_chars, split_on,
    text_of, text_size,
};
use vstd::prelude::*;

verus! {

/// The directory that holds the corpus where nothing else is configured.
pub const DEFAULT_PAPERS_ROOT_DIR: &'static str = "/data/arxmliv";

/// The name of the table that maps a paper's id to its neighbours.
pub const PAPER_ORDER: &'static str = "paper_order";

/// The directory that holds the corpus: the configured one, or the default.
pub fn papers_root_dir(configured: Option<String>) -> (root: String)
    ensures
        root@ == match configured {
            Some(dir) => dir@,
            None => DEFAULT_PAPERS_ROOT_DIR@,
        },
{
    match configured {
        Some(dir) => dir,
        None => DEFAULT_PAPERS_ROOT_DIR.to_owned(),
    }
}

/// The pieces of an adjacency value `prev;next`. An empty value has no piece.
pub open spec fn adjacency_pieces(value: Seq<char>) -> Seq<Seq<char>> {
    if value.len() == 0 {
        Seq::empty()
    } else {
        split_on(value, ';')
    }
}

/// The previous paper that a looked-up adjacency value names: its first
/// piece. No value, no previous paper.
pub open spec fn prev_of(lookup: Option<Seq<char>>) -> Option<Seq<char>> {
    match lookup {
        Some(value) => {
            let pieces = adjacency_pieces(value);
            if pieces.len() >= 1 {
                Some(pieces[0])
            } else {
                None
            }
        },
        None => None,
    }
}

/// The next paper that a looked-up adjacency value names: its last piece
/// where it has two or more.
pub open spec fn next_of(lookup: Option<Seq<char>>) -> Option<Seq<char>> {
    match lookup {
        Some(value) => {
            let pieces = adjacency_pieces(value);
            if pieces.len() >= 2 {
                Some(pieces.last())
            } else {
                None
            }
        },
        None => None,
    }
}

/// The papers before and after a paper.
#[derive(Debug, PartialEq, Eq)]
pub struct Neighbours {
    pub prev: Option<String>,
    pub next: Option<String>,
}

/// Reads the neighbours of a paper off the value that the adjacency table
/// holds for it. `None` stands for a paper that the table does not hold and
/// for a lookup that failed: either way the paper has no neighbours.
pub fn adjacent_papers(lookup: Option<&str>) -> (r: Neighbours)
    ensures
        r.prev.deep_view() == prev_of(lookup.deep_view()),
        r.next.deep_view() == next_of(lookup.deep_view()),
{
    match lookup {
        Some(value) => {
            let chars = chars_of(value);
            if chars.len() == 0 {
                return Neighbours { prev: None, next: None };
            }
            let pieces = split_chars(&chars, ';');
            assert(rows(pieces@)[0] == pieces@[0]@);
            assert(rows(pieces@).last() == pieces@[pieces@.len() - 1]@);
            let prev = Some(text_of(&pieces[0]));
            let next = if pieces.len() >= 2 {
                Some(text_of(&pieces[pieces.len() - 1]))
            } else {
                None
            };
            Neighbours { prev, next }
        },
        None => Neighbours { prev: None, next: None },
    }
}

/// Where the field of a legacy name ends and its number begins: a small
/// letter and the digit behind it, each captured.
pub const FIELD_BOUNDARY: &'static str = "([a-z])(\\d)";

/// The directory of the corpus that holds no paper.
pub const NOT_A_PAPER: &'static str = "arxmliv";

/// The number of records above which the records gathered so far are
/// handed on to be written.
pub const BATCH_THRESHOLD: usize = 100;

/// A slash between the letter and the digit of the first boundary; every
/// later boundary stays as it is.
pub open spec fn boundary_replacements(found: Seq<Seq<Option<Seq<char>>>>) -> Seq<Seq<char>> {
    Seq::new(
        found.len(),
        |i: int|
            if i > 0 {
                group(found[i], 0)
            } else {
                group(found[i], 1) + "/"@ + group(found[i], 2)
            },
    )
}

/// The id of a paper whose directory is named `name`: the name with a slash
/// between field and number where it has both.
pub open spec fn normalized_id(name: Seq<char>) -> Seq<char> {
    rewritten(FIELD_BOUNDARY@, name, boundary_replacements(regex_captures(FIELD_BOUNDARY@, name)))
}

/// The id of the paper that a directory of the corpus holds, by the name of
/// the directory: none for a name of four bytes or fewer and for the one
/// directory that holds no paper.
pub open spec fn paper_id_of(name: Seq<char>) -> Option<Seq<char>> {
    if text_size(name) > 4 && name != NOT_A_PAPER@ {
        Some(normalized_id(name))
    } else {
        None
    }
}

/// A slash between the letter and the digit of the first boundary.
pub fn replace_boundary(found: &Vec<Vec<Option<String>>>) -> (r: Vec<String>)
    ensures
        r.deep_view() == boundary_replacements(found.deep_view()),
{
    let mut reps: Vec<String> = Vec::new();
    let mut i: usize = 0;
    while i < found.len()
        invariant
            i <= found.len(),
            reps.len() == i,
            forall|j: int|
                0 <= j < i ==> (#[trigger] reps@[j])@ == boundary_replacements(
                    found.deep_view(),
                )[j],
        decreases found.len() - i,
    {
        let rep = if i > 0 {
            group_text(&found[i], 0).to_owned()
        } else {
            let mut rep = group_text(&found[i], 1).to_owned();
            rep.append("/");
            rep.append(group_text(&found[i], 2));
            rep
        };
        reps.push(rep);
        i += 1;
    }
    assert(reps.deep_view() =~= boundary_replacements(found.deep_view()));
    reps
}

/// The id of a paper whose directory is named `name`.
pub fn normalize_id(name: &str) -> (id: String)
    ensures
        id@ == normalized_id(name@),
        finds_nothing(FIELD_BOUNDARY@, name@) ==> id@ == name@,
{
    match scan(FIELD_BOUNDARY, name) {
        Some(s) => {
            let reps = replace_boundary(&s.found);
            weave(&s.gaps, &reps)
        },
        None => name.to_owned(),
    }
}

/// The id of the paper that a directory of the corpus holds, if it holds
/// one.
pub fn paper_id_of_dir(name: &str) -> (id: Option<String>)
    ensures
        id.deep_view() == paper_id_of(name@),
{
    let chars = chars_of(name);
    let other = chars_of(NOT_A_PAPER);
    let is_other = chars.len() == other.len() && prefix_at(&chars, 0, &other);
    proof {
        assert(chars@.subrange(0, chars@.len() as int) == chars@);
        assert(is_other == (name@ == NOT_A_PAPER@));
    }
    if name.as_bytes().len() > 4 && !is_other {
        Some(normalize_id(name))
    } else {
        None
    }
}

/// The index before `i` on a ring of `n`.
pub open spec fn ring_prev(n: int, i: int) -> int {
    if i == 0 {
        n - 1
    } else {
        i - 1
    }
}

/// The index behind `i` on a ring of `n`.
pub open spec fn ring_next(n: int, i: int) -> int {
    if i + 1 == n {
        0
    } else {
        i + 1
    }
}

/// The value that the adjacency table holds for a paper.
pub open spec fn adjacency_value(prev: Seq<char>, next: Seq<char>) -> Seq<char> {
    prev + ";"@ + next
}

/// The record of paper `i` in the ring of `ids`: its id, and its neighbours
/// on the ring, the last paper standing before the first.
pub open spec fn ring_record(ids: Seq<Seq<char>>, i: int) -> (Seq<char>, Seq<char>) {
    let n = ids.len() as int;
    (ids[i], adjacency_value(ids[ring_prev(n, i)], ids[ring_next(n, i)]))
}

/// The records of the papers that have a paper on either side in the order
/// of the corpus itself: all but the first and the last.
pub open spec fn middle_records(ids: Seq<Seq<char>>) -> Seq<(Seq<char>, Seq<char>)> {
    Seq::new(
        if ids.len() >= 2 {
            (ids.len() - 2) as nat
        } else {
            0
        },
        |i: int| (ids[i + 1], adjacency_value(ids[i], ids[i + 2])),
    )
}

/// The records of a corpus in the order in which they are written: those of
/// the middle first, then the first paper's and the last paper's, whose
/// neighbours close the ring. A corpus of one paper is a ring of its own, and
/// an empty corpus has no record.
pub open spec fn ring_records(ids: Seq<Seq<char>>) -> Seq<(Seq<char>, Seq<char>)> {
    if ids.len() == 0 {
        Seq::empty()
    } else if ids.len() == 1 {
        seq![ring_record(ids, 0)]
    } else {
        middle_records(ids) + seq![ring_record(ids, 0), ring_record(ids, ids.len() - 1)]
    }
}

/// On a ring, stepping back and forth leads to where one was.
pub proof fn lemma_ring_steps_undo(n: int, i: int)
    requires
        0 <= i < n,
    ensures
        0 <= ring_prev(n, i) < n,
        0 <= ring_next(n, i) < n,
        ring_next(n, ring_prev(n, i)) == i,
        ring_prev(n, ring_next(n, i)) == i,
{
}

/// What is written for a paper is read back as its neighbours: from the
/// value made of two ids without a semicolon the first is read as the
/// previous paper and the second as the next.
pub proof fn lemma_adjacency_reads_back(prev: Seq<char>, next: Seq<char>)
    requires
        !prev.contains(';'),
        !next.contains(';'),
    ensures
        prev_of(Some(adjacency_value(prev, next))) == Some(prev),
        next_of(Some(adjacency_value(prev, next))) == Some(next),
{
    reveal_strlit(";");
    let value = adjacency_value(prev, next);
    let k = prev.len() as int;
    assert(value == prev + seq![';'] + next);
    assert forall|j: int| 0 <= j < k implies value[j] != ';' by {
        assert(value[j] == prev[j]);
        assert(prev.contains(prev[j]));
    }
    assert(value[k] == ';');
    lemma_first_piece_len(value, ';', k);
    assert(value.take(k) == prev);
    assert(value.skip(k + 1) == next);
    assert forall|j: int| 0 <= j < next.len() implies next[j] != ';' by {
        assert(next.contains(next[j]));
    }
    lemma_first_piece_len(next, ';', next.len() as int);
    assert(split_on(next, ';') == seq![next]);
    assert(split_on(value, ';') == seq![prev] + seq![next]);
}

/// The written records are those of the ring: one for each paper.
pub proof fn lemma_ring_records_cover(ids: Seq<Seq<char>>, i: int)
    requires
        0 <= i < ids.len(),
    ensures
        ring_records(ids).len() == ids.len(),
        ring_records(ids).contains(ring_record(ids, i)),
{
    let records = ring_records(ids);
    let n = ids.len() as int;
    if n == 1 {
        assert(records[0] == ring_record(ids, i));
    } else if i == 0 {
        assert(records[n - 2] == ring_record(ids, i));
    } else if i == n - 1 {
        assert(records[n - 1] == ring_record(ids, i));
    } else {
        assert(records[i - 1] == ring_record(ids, i));
    }
}

/// Builds the adjacency table of a corpus while its papers pass by in
/// order: it keeps the last two ids and the first two, and the records that
/// are complete but not yet handed on.
pub struct RingBuilder {
    first: Option<String>,
    second: Option<String>,
    before_last: Option<String>,
    last: Option<String>,
    buffer: Vec<(String, String)>,
    ids: Ghost<Seq<Seq<char>>>,
    flushed: Ghost<Seq<(Seq<char>, Seq<char>)>>,
}

impl RingBuilder {
    /// The ids of the papers seen so far, in order.
    pub closed spec fn ids(&self) -> Seq<Seq<char>> {
        self.ids@
    }

    /// The records handed on so far.
    pub closed spec fn flushed(&self) -> Seq<(Seq<char>, Seq<char>)> {
        self.flushed@
    }

    /// The complete records not yet handed on.
    pub closed spec fn pending(&self) -> Seq<(Seq<char>, Seq<char>)> {
        self.buffer.deep_view()
    }

    /// The builder remembers the ends of what it has seen, and the records
    /// handed on and pending are those of the middle.
    pub closed spec fn wf(&self) -> bool {
        let ids = self.ids@;
        let n = ids.len() as int;
        &&& self.first.deep_view() == (if n >= 1 {
            Some(ids[0])
        } else {
            None
        })
        &&& self.second.deep_view() == (if n >= 2 {
            Some(ids[1])
        } else {
            None
        })
        &&& self.last.deep_view() == (if n >= 1 {
            Some(ids[n - 1])
        } else {
            None
        })
        &&& self.before_last.deep_view() == (if n >= 2 {
            Some(ids[n - 2])
        } else {
            None
        })
        &&& self.flushed@ + self.buffer.deep_view() == middle_records(ids)
        &&& self.buffer@.len() <= BATCH_THRESHOLD
    }

    /// A builder that has seen no paper.
    pub fn new() -> (builder: RingBuilder)
        ensures
            builder.wf(),
            builder.ids() == Seq::<Seq<char>>::empty(),
            builder.flushed() == Seq::<(Seq<char>, Seq<char>)>::empty(),
            builder.pending() == Seq::<(Seq<char>, Seq<char>)>::empty(),
    {
        let builder = RingBuilder {
            first: None,
            second: None,
            before_last: None,
            last: None,
            buffer: Vec::new(),
            ids: Ghost(Seq::empty()),
            flushed: Ghost(Seq::empty()),
        };
        assert(builder.flushed@ + builder.buffer.deep_view() == middle_records(builder.ids@));
        assert(builder.buffer.deep_view() == Seq::<(Seq<char>, Seq<char>)>::empty());
        builder
    }

    /// Takes the id of the next paper. The paper before it now has both its
    /// neighbours, and its record joins the pending ones. Once more records
    /// are pending than the threshold says, they are handed on as a batch to be
    /// written.
    pub fn push(&mut self, id: String) -> (batch: Option<Vec<(String, String)>>)
        requires
            old(self).wf(),
        ensures
            final(self).wf(),
            final(self).ids() == old(self).ids().push(id@),
            final(self).flushed() + final(self).pending() == middle_records(final(self).ids()),
            batch is Some <==> old(self).pending().len() + (if old(self).ids().len() >= 2 {
                1int
            } else {
                0int
            }) > BATCH_THRESHOLD,
            match batch {
                Some(records) => records@.len() > BATCH_THRESHOLD && final(self).flushed() == old(
                    self,
                ).flushed() + records.deep_view() && final(self).pending().len() == 0,
                None => final(self).flushed() == old(self).flushed() && final(self).pending().len()
                    <= BATCH_THRESHOLD,
            },
    {
        let ghost before = self.ids@;
        let ghost after = before.push(id@);
        let ghost pending = self.buffer.deep_view();
        let last = self.last.take();
        let before_last = self.before_last.take();
        match (&before_last, &last) {
            (Some(prev), Some(middle)) => {
                let mut value = prev.clone();
                value.append(";");
                value.append(id.as_str());
                self.buffer.push((middle.clone(), value));
                proof {
                    let n = before.len() as int;
                    assert(self.buffer.deep_view() == pending.push(
                        (before[n - 1], adjacency_value(before[n - 2], id@)),
                    ));
                    assert(middle_records(after) == middle_records(before).push(
                        (before[n - 1], adjacency_value(before[n - 2], id@)),
                    ));
                }
            },
            _ => {
                assert(middle_records(after) == middle_records(before));
            },
        }
        if self.first.is_none() {
            self.first = Some(id.clone());
        } else if self.second.is_none() {
            self.second = Some(id.clone());
        }
        self.before_last = last;
        self.last = Some(id);
        self.ids = Ghost(after);
        if self.buffer.len() > BATCH_THRESHOLD {
            let mut batch: Vec<(String, String)> = Vec::new();
            std::mem::swap(&mut batch, &mut self.buffer);
            self.flushed = Ghost(self.flushed@ + batch.deep_view());
            assert(self.buffer.deep_view() == Seq::<(Seq<char>, Seq<char>)>::empty());
            assert(self.flushed@ + self.buffer.deep_view() == self.flushed@);
            Some(batch)
        } else {
            None
        }
    }

    /// Closes the ring: the first and the last paper get each other as
    /// neighbours, and what is pending is handed on with their two records
    /// behind it. With that every paper seen has its record.
    pub fn finish(self) -> (records: Vec<(String, String)>)
        requires
            self.wf(),
        ensures
            self.flushed() + records.deep_view() == ring_records(self.ids()),
    {
        let ghost ids = self.ids@;
        let ghost pending = self.buffer.deep_view();
        let RingBuilder { first, second, before_last, last, buffer, ids: _, flushed: _ } = self;
        let mut records = buffer;
        match (first, last) {
            (Some(first), Some(last)) => {
                match (second, before_last) {
                    (Some(second), Some(before_last)) => {
                        let mut opening = last.clone();
                        opening.append(";");
                        opening.append(second.as_str());
                        let mut closing = before_last;
                        closing.append(";");
                        closing.append(first.as_str());
                        records.push((first, opening));
                        records.push((last, closing));
                        assert(records.deep_view() == pending + seq![
                            ring_record(ids, 0),
                            ring_record(ids, ids.len() - 1),
                        ]);
                    },
                    _ => {
                        let mut value = first.clone();
                        value.append(";");
                        value.append(first.as_str());
                        records.push((first, value));
                        assert(records.deep_view() == pending + seq![ring_record(ids, 0)]);
                        assert(middle_records(ids) == Seq::<(Seq<char>, Seq<char>)>::empty());
                    },
                }
            },
            _ => {
                assert(middle_records(ids) == Seq::<(Seq<char>, Seq<char>)>::empty());
            },
        }
        records
    }
}

} // verus!
