//! The split table function: one row per piece of the subject between
//! matches.
use vstd::prelude::*;
use vstd::string::*;
use vstd::utf8::*;

use crate::cache::MatcherCache;
use crate::cursor::{ColumnValue, ResultSequence};
use crate::error::{PlanError, RegexError};
use crate::find_all::find_all_rows;
use crate::handle::{
    arg_text, cache_after_args, pattern_and_text, pattern_and_text_error, pattern_and_text_ok,
    regex_arg_pattern, ArgValue,
};
use crate::matcher::{gap, gap_bytes, lemma_slice_valid, match_spans, spans_well_formed, Matcher};
use crate::planner::{bind_hidden, plan_hidden, plan_outcome, IndexConstraint, IndexPlan};

verus! {

broadcast use vstd::utf8::group_utf8_lib;

/// Column of the piece.
pub const SPLIT_ITEM: i32 = 0;

/// Hidden column of the pattern.
pub const SPLIT_PATTERN: i32 = 1;

/// Hidden column of the subject.
pub const SPLIT_CONTENTS: i32 = 2;

/// The pieces of the subject between successive matches of the pattern,
/// including an empty first or last piece where a match touches an end.
pub open spec fn split_rows(pattern: Seq<char>, subject: Seq<char>) -> Seq<Seq<char>> {
    let spans = match_spans(pattern, subject);
    Seq::new(spans.len() + 1, |i: int| decode_utf8(gap_bytes(encode_utf8(subject), spans, i)))
}

/// The pieces, each followed by the separator after it, concatenated up to
/// and including piece `k`.
pub open spec fn rejoin(pieces: Seq<Seq<u8>>, separators: Seq<Seq<u8>>, k: nat) -> Seq<u8>
    decreases k,
{
    if k == 0 {
        pieces[0]
    } else {
        rejoin(pieces, separators, (k - 1) as nat) + separators[k - 1] + pieces[k as int]
    }
}

/// The ends of every piece between matches are character boundaries in
/// order.
proof fn lemma_gap_bounds(bytes: Seq<u8>, spans: Seq<(usize, usize)>, i: int)
    requires
        valid_utf8(bytes),
        spans_well_formed(spans, bytes),
        0 <= i <= spans.len(),
    ensures
        0 <= gap(spans, bytes.len() as int, i).0 <= gap(spans, bytes.len() as int, i).1
            <= bytes.len(),
        is_char_boundary(bytes, gap(spans, bytes.len() as int, i).0),
        is_char_boundary(bytes, gap(spans, bytes.len() as int, i).1),
{
    is_char_boundary_start_end_of_seq(bytes);
    if i > 0 {
        assert(spans[i - 1].0 <= spans[i - 1].1);
    }
    if i < spans.len() {
        assert(spans[i].0 <= spans[i].1);
    }
    if 0 < i < spans.len() {
        assert(spans[i - 1].1 <= spans[(i - 1) + 1].0);
    }
}

/// Rejoining the first `k + 1` pieces with the separators between them
/// gives the subject up to the end of piece `k`.
proof fn lemma_rejoin_prefix(
    bytes: Seq<u8>,
    spans: Seq<(usize, usize)>,
    pieces: Seq<Seq<u8>>,
    separators: Seq<Seq<u8>>,
    k: nat,
)
    requires
        valid_utf8(bytes),
        spans_well_formed(spans, bytes),
        k <= spans.len(),
        forall|i: int| 0 <= i <= spans.len() ==> #[trigger] pieces[i] == gap_bytes(bytes, spans, i),
        forall|i: int|
            0 <= i < spans.len() ==> #[trigger] separators[i] == bytes.subrange(
                spans[i].0 as int,
                spans[i].1 as int,
            ),
    ensures
        rejoin(pieces, separators, k) == bytes.subrange(
            0,
            gap(spans, bytes.len() as int, k as int).1,
        ),
    decreases k,
{
    let len = bytes.len() as int;
    lemma_gap_bounds(bytes, spans, k as int);
    if k == 0 {
        assert(pieces[0] =~= bytes.subrange(0, gap(spans, len, 0).1));
    } else {
        lemma_rejoin_prefix(bytes, spans, pieces, separators, (k - 1) as nat);
        lemma_gap_bounds(bytes, spans, k - 1);
        assert(spans[k - 1].0 <= spans[k - 1].1);
        assert(rejoin(pieces, separators, k) =~= bytes.subrange(0, gap(spans, len, k as int).1));
    }
}

/// Splitting the subject and putting back the matched text between the
/// pieces gives the subject again, byte for byte: piece 0, match 0, piece 1,
/// ..., the last piece.
pub proof fn split_round_trip(pattern: Seq<char>, subject: Seq<char>)
    requires
        spans_well_formed(match_spans(pattern, subject), encode_utf8(subject)),
    ensures
        ({
            let n = match_spans(pattern, subject).len();
            let pieces = Seq::new(n + 1, |i: int| encode_utf8(split_rows(pattern, subject)[i]));
            let separators = Seq::new(
                n,
                |i: int| encode_utf8(find_all_rows(pattern, subject)[i].2),
            );
            rejoin(pieces, separators, n) == encode_utf8(subject)
        }),
{
    let spans = match_spans(pattern, subject);
    let bytes = encode_utf8(subject);
    let len = bytes.len() as int;
    let n = spans.len();
    let pieces = Seq::new(n + 1, |i: int| encode_utf8(split_rows(pattern, subject)[i]));
    let separators = Seq::new(n, |i: int| encode_utf8(find_all_rows(pattern, subject)[i].2));
    assert forall|i: int| 0 <= i <= n implies #[trigger] pieces[i] == gap_bytes(bytes, spans, i)
    by {
        lemma_gap_bounds(bytes, spans, i);
        lemma_slice_valid(bytes, gap(spans, len, i).0, gap(spans, len, i).1);
        decode_utf8_encode_utf8(gap_bytes(bytes, spans, i));
    }
    assert forall|i: int| 0 <= i < n implies #[trigger] separators[i] == bytes.subrange(
        spans[i].0 as int,
        spans[i].1 as int,
    ) by {
        assert(spans[i].0 <= spans[i].1);
        lemma_slice_valid(bytes, spans[i].0 as int, spans[i].1 as int);
        decode_utf8_encode_utf8(bytes.subrange(spans[i].0 as int, spans[i].1 as int));
    }
    lemma_rejoin_prefix(bytes, spans, pieces, separators, n);
    lemma_gap_bounds(bytes, spans, n as int);
    assert(bytes.subrange(0, len) =~= bytes);
}

/// The pieces of `contents` between matches of `m`.
pub fn split(m: &Matcher, contents: &str) -> (r: Vec<String>)
    ensures
        r.deep_view() == split_rows(m@, contents@),
{
    let pieces = m.split_pieces(contents);
    assert forall|i: int| 0 <= i < pieces@.len() implies #[trigger] pieces.deep_view()[i]
        == split_rows(m@, contents@)[i] by {
        encode_utf8_decode_utf8(pieces@[i]@);
    }
    assert(pieces.deep_view() =~= split_rows(m@, contents@));
    pieces
}

/// The split table function.
pub struct RegexSplitTable {}

impl RegexSplitTable {
    /// The table and its declared shape.
    pub fn connect() -> (r: (String, RegexSplitTable))
        ensures
            r.0@ == "CREATE TABLE x(item text, pattern hidden, contents text hidden)"@,
    {
        (
            "CREATE TABLE x(item text, pattern hidden, contents text hidden)".to_owned(),
            RegexSplitTable {},
        )
    }

    /// Plans a call: the pattern and the contents must both be bound by a
    /// usable equality.
    pub fn best_index(&self, constraints: &mut Vec<IndexConstraint>) -> (r: Result<
        IndexPlan,
        PlanError,
    >)
        ensures
            r == plan_outcome(old(constraints)@, SPLIT_PATTERN, SPLIT_CONTENTS),
            r is Ok ==> final(constraints)@ == bind_hidden(
                old(constraints)@,
                SPLIT_PATTERN,
                SPLIT_CONTENTS,
            ),
            r is Err ==> final(constraints)@ == old(constraints)@,
    {
        plan_hidden(constraints, SPLIT_PATTERN, SPLIT_CONTENTS)
    }

    /// A new cursor over the table.
    pub fn open(&self) -> (r: RegexSplitCursor)
        ensures
            r.wf(),
            r.rows() is None,
    {
        RegexSplitCursor::new()
    }
}

/// A cursor over the pieces of one filter call.
pub struct RegexSplitCursor {
    seq: ResultSequence<String>,
}

impl RegexSplitCursor {
    /// The rows of the last successful filter.
    pub closed spec fn rows(&self) -> Option<Seq<Seq<char>>> {
        match self.seq.rows() {
            Some(v) => Some(v.map_values(|s: String| s@)),
            None => None,
        }
    }

    /// The index of the current row.
    pub closed spec fn position(&self) -> nat {
        self.seq.position()
    }

    /// The position never passes the end of the rows.
    pub closed spec fn wf(&self) -> bool {
        self.seq.wf()
    }

    /// There is no current row.
    pub open spec fn at_end(&self) -> bool {
        match self.rows() {
            Some(v) => self.position() >= v.len(),
            None => true,
        }
    }

    /// A cursor that has not been filtered yet.
    pub fn new() -> (r: RegexSplitCursor)
        ensures
            r.wf(),
            r.rows() is None,
            r.position() == 0,
    {
        RegexSplitCursor { seq: ResultSequence::new() }
    }

    /// Materialises the pieces of the contents (argument 1) between matches
    /// of the pattern (argument 0) and goes to the first. On failure no row
    /// is left.
    pub fn filter(
        &mut self,
        _idx_num: i32,
        values: &Vec<ArgValue>,
        cache: &mut MatcherCache,
    ) -> (r: Result<(), RegexError>)
        requires
            old(cache).wf(),
        ensures
            final(cache).wf(),
            final(self).wf(),
            r.is_ok() == pattern_and_text_ok(values@),
            cache_after_args(*old(cache), *final(cache), values@),
            r is Ok ==> final(self).rows() == Some(
                split_rows(regex_arg_pattern(values@[0]), arg_text(values@[1])),
            ) && final(self).position() == 0,
            r matches Err(e) ==> pattern_and_text_error(values@, e) && final(self).rows() is None,
    {
        match pattern_and_text(values, cache) {
            Ok((m, contents)) => {
                let rows = split(&m, contents);
                self.seq.reset(rows);
                assert(self.rows().unwrap() =~= rows.deep_view());
                Ok(())
            },
            Err(e) => {
                self.seq.clear();
                Err(e)
            },
        }
    }

    /// Moves to the next piece.
    pub fn next(&mut self)
        requires
            old(self).wf(),
        ensures
            final(self).wf(),
            final(self).rows() == old(self).rows(),
            final(self).position() == if old(self).at_end() {
                old(self).position()
            } else {
                old(self).position() + 1
            },
    {
        self.seq.next()
    }

    /// Whether the pieces are used up.
    pub fn eof(&self) -> (r: bool)
        ensures
            r == self.at_end(),
    {
        self.seq.eof()
    }

    /// The index of the current piece.
    pub fn rowid(&self) -> (r: usize)
        ensures
            r == self.position(),
    {
        self.seq.rowid()
    }

    /// Column `i` of the current piece: the piece itself; the hidden columns
    /// and unknown ones are null.
    pub fn column(&self, i: i32) -> (r: Result<ColumnValue, RegexError>)
        ensures
            r.is_ok() == !self.at_end(),
            r matches Err(e) ==> e is Internal,
            r matches Ok(v) ==> self.rows() matches Some(rows) && {
                &&& i == SPLIT_ITEM ==> (v matches ColumnValue::Text(t) && t@
                    == rows[self.position() as int])
                &&& i != SPLIT_ITEM ==> v is Null
            },
    {
        let row = self.seq.current()?;
        if i == SPLIT_ITEM {
            Ok(ColumnValue::Text(row.clone()))
        } else {
            Ok(ColumnValue::Null)
        }
    }
}

} // verus!
