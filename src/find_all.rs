//! The find-all table function: one row per match, with its byte offsets
//! and its text.
use vstd::prelude::*;
use vstd::string::*;
use vstd::utf8::*;

use crate::cache::MatcherCache;
use crate::cursor::{ColumnValue, ResultSequence};
use crate::error::{PlanError, RegexError};
use crate::handle::{
    arg_text, cache_after_args, pattern_and_text, pattern_and_text_error, pattern_and_text_ok,
    regex_arg_pattern, ArgValue,
};
use crate::matcher::{byte_slice, lemma_slice_valid, match_spans, spans_well_formed, Matcher};
use crate::planner::{
    bind_hidden, constrains, has_unsupported, plan_hidden, plan_outcome, IndexConstraint, IndexPlan,
};

verus! {

broadcast use vstd::utf8::group_utf8_lib;

/// Column of the start offset.
pub const FIND_ALL_START: i32 = 0;

/// Column of the end offset.
pub const FIND_ALL_END: i32 = 1;

/// Column of the matched text.
pub const FIND_ALL_MATCH: i32 = 2;

/// Hidden column of the pattern.
pub const FIND_ALL_PATTERN: i32 = 3;

/// Hidden column of the subject.
pub const FIND_ALL_CONTENTS: i32 = 4;

/// One match: its byte range in the subject and its text.
#[derive(Debug)]
pub struct MatchRow {
    pub start: usize,
    pub end: usize,
    pub text: String,
}

impl View for MatchRow {
    type V = (usize, usize, Seq<char>);

    open spec fn view(&self) -> (usize, usize, Seq<char>) {
        (self.start, self.end, self.text@)
    }
}

/// The views of a sequence of rows.
pub open spec fn match_rows_view(rows: Seq<MatchRow>) -> Seq<(usize, usize, Seq<char>)> {
    rows.map_values(|r: MatchRow| r@)
}

/// The rows of find-all for a pattern and a subject: each match of the
/// pattern, left to right, with the text between its offsets.
pub open spec fn find_all_rows(pattern: Seq<char>, subject: Seq<char>) -> Seq<
    (usize, usize, Seq<char>),
> {
    let spans = match_spans(pattern, subject);
    let bytes = encode_utf8(subject);
    Seq::new(
        spans.len(),
        |i: int|
            (
                spans[i].0,
                spans[i].1,
                decode_utf8(bytes.subrange(spans[i].0 as int, spans[i].1 as int)),
            ),
    )
}

/// Ranges that are ordered between neighbours are ordered between any two.
proof fn lemma_spans_pairwise(spans: Seq<(usize, usize)>, bytes: Seq<u8>, i: int, j: int)
    requires
        spans_well_formed(spans, bytes),
        0 <= i < j < spans.len(),
    ensures
        spans[i].1 <= spans[j].0,
        spans[i].0 < spans[j].0,
    decreases j - i,
{
    if j == i + 1 {
        assert(spans[i].1 <= spans[i + 1].0);
    } else {
        lemma_spans_pairwise(spans, bytes, i, j - 1);
        assert(spans[j - 1].0 <= spans[j - 1].1);
        assert(spans[j - 1].1 <= spans[(j - 1) + 1].0);
    }
}

/// The rows of find-all run left to right without overlap: a row ends where
/// or before any later row starts, their starts strictly increase, and the
/// text of each row is exactly the subject's bytes between its offsets.
pub proof fn find_all_rows_ordered(pattern: Seq<char>, subject: Seq<char>)
    requires
        spans_well_formed(match_spans(pattern, subject), encode_utf8(subject)),
    ensures
        forall|i: int, j: int|
            0 <= i < j < find_all_rows(pattern, subject).len() ==> {
                &&& (#[trigger] find_all_rows(pattern, subject)[i]).1 <= (
                #[trigger] find_all_rows(pattern, subject)[j]).0
                &&& find_all_rows(pattern, subject)[i].0 < find_all_rows(pattern, subject)[j].0
            },
        forall|i: int|
            0 <= i < find_all_rows(pattern, subject).len() ==> {
                let row = #[trigger] find_all_rows(pattern, subject)[i];
                &&& row.0 <= row.1 <= encode_utf8(subject).len()
                &&& encode_utf8(row.2) == encode_utf8(subject).subrange(row.0 as int, row.1 as int)
            },
{
    let spans = match_spans(pattern, subject);
    let bytes = encode_utf8(subject);
    let rows = find_all_rows(pattern, subject);
    assert forall|i: int, j: int| 0 <= i < j < rows.len() implies {
        &&& (#[trigger] rows[i]).1 <= (#[trigger] rows[j]).0
        &&& rows[i].0 < rows[j].0
    } by {
        lemma_spans_pairwise(spans, bytes, i, j);
    }
    assert forall|i: int| 0 <= i < rows.len() implies {
        let row = #[trigger] rows[i];
        &&& row.0 <= row.1 <= bytes.len()
        &&& encode_utf8(row.2) == bytes.subrange(row.0 as int, row.1 as int)
    } by {
        assert(spans[i].0 <= spans[i].1);
        lemma_slice_valid(bytes, spans[i].0 as int, spans[i].1 as int);
        decode_utf8_encode_utf8(bytes.subrange(spans[i].0 as int, spans[i].1 as int));
    }
}

/// Every match of `m` in `contents`, left to right.
pub fn find_all(m: &Matcher, contents: &str) -> (r: Vec<MatchRow>)
    ensures
        match_rows_view(r@) == find_all_rows(m@, contents@),
        spans_well_formed(match_spans(m@, contents@), encode_utf8(contents@)),
{
    let spans = m.find_spans(contents);
    let ghost expected = find_all_rows(m@, contents@);
    let mut rows: Vec<MatchRow> = Vec::new();
    let mut i: usize = 0;
    while i < spans.len()
        invariant
            i <= spans@.len(),
            spans@ == match_spans(m@, contents@),
            spans_well_formed(spans@, contents.spec_bytes()),
            expected == find_all_rows(m@, contents@),
            rows@.len() == i,
            forall|j: int| 0 <= j < i ==> (#[trigger] rows@[j])@ == expected[j],
        decreases spans@.len() - i,
    {
        let (s, e) = spans[i];
        assert(spans@[i as int].0 <= spans@[i as int].1);
        let text = byte_slice(contents, s, e);
        proof {
            encode_utf8_decode_utf8(text@);
        }
        rows.push(MatchRow { start: s, end: e, text });
        i = i + 1;
    }
    assert(match_rows_view(rows@) =~= expected);
    rows
}

/// A find-all call whose contents column is not bound by a usable equality
/// is rejected when it is planned, so no cursor ever iterates it.
pub proof fn find_all_requires_contents(constraints: Seq<IndexConstraint>)
    requires
        forall|i: int|
            0 <= i < constraints.len() && (#[trigger] constraints[i]).column == FIND_ALL_CONTENTS
                ==> !constraints[i].is_usable_eq(),
    ensures
        plan_outcome(constraints, FIND_ALL_PATTERN, FIND_ALL_CONTENTS) is Err,
{
    if constrains(constraints, FIND_ALL_CONTENTS) {
        let i = choose|i: int|
            0 <= i < constraints.len() && (#[trigger] constraints[i]).column == FIND_ALL_CONTENTS;
        assert(has_unsupported(constraints, FIND_ALL_PATTERN, FIND_ALL_CONTENTS));
    }
}

/// The find-all table function.
pub struct RegexFindAllTable {}

impl RegexFindAllTable {
    /// The table and its declared shape.
    pub fn connect() -> (r: (String, RegexFindAllTable))
        ensures
            r.0@
                == "CREATE TABLE x(start int, end int, match text, pattern hidden, contents text hidden)"@,
    {
        (
            "CREATE TABLE x(start int, end int, match text, pattern hidden, contents text hidden)"
                .to_owned(),
            RegexFindAllTable {},
        )
    }

    /// Plans a call: the pattern and the contents must both be bound by a
    /// usable equality.
    pub fn best_index(&self, constraints: &mut Vec<IndexConstraint>) -> (r: Result<
        IndexPlan,
        PlanError,
    >)
        ensures
            r == plan_outcome(old(constraints)@, FIND_ALL_PATTERN, FIND_ALL_CONTENTS),
            r is Ok ==> final(constraints)@ == bind_hidden(
                old(constraints)@,
                FIND_ALL_PATTERN,
                FIND_ALL_CONTENTS,
            ),
            r is Err ==> final(constraints)@ == old(constraints)@,
    {
        plan_hidden(constraints, FIND_ALL_PATTERN, FIND_ALL_CONTENTS)
    }

    /// A new cursor over the table.
    pub fn open(&self) -> (r: RegexFindAllCursor)
        ensures
            r.wf(),
            r.rows() is None,
    {
        RegexFindAllCursor::new()
    }
}

/// A cursor over the matches of one filter call.
pub struct RegexFindAllCursor {
    seq: ResultSequence<MatchRow>,
}

impl RegexFindAllCursor {
    /// The rows of the last successful filter.
    pub closed spec fn rows(&self) -> Option<Seq<(usize, usize, Seq<char>)>> {
        match self.seq.rows() {
            Some(v) => Some(match_rows_view(v)),
            None => None,
        }
    }

    /// The index of the current row.
    pub closed spec fn position(&self) -> nat {
        self.seq.position()
    }

    /// The position never passes the end of the rows.
    pub closed spec fn wf(&self) -> bool {
        self.seq.wf()
    }

    /// There is no current row.
    pub open spec fn at_end(&self) -> bool {
        match self.rows() {
            Some(v) => self.position() >= v.len(),
            None => true,
        }
    }

    /// A cursor that has not been filtered yet.
    pub fn new() -> (r: RegexFindAllCursor)
        ensures
            r.wf(),
            r.rows() is None,
            r.position() == 0,
    {
        RegexFindAllCursor { seq: ResultSequence::new() }
    }

    /// Materialises every match of the pattern (argument 0) in the contents
    /// (argument 1) and goes to the first. On failure no row is left.
    pub fn filter(
        &mut self,
        _idx_num: i32,
        values: &Vec<ArgValue>,
        cache: &mut MatcherCache,
    ) -> (r: Result<(), RegexError>)
        requires
            old(cache).wf(),
        ensures
            final(cache).wf(),
            final(self).wf(),
            r.is_ok() == pattern_and_text_ok(values@),
            cache_after_args(*old(cache), *final(cache), values@),
            r is Ok ==> final(self).rows() == Some(
                find_all_rows(regex_arg_pattern(values@[0]), arg_text(values@[1])),
            )
                && final(self).position() == 0
                && spans_well_formed(
                    match_spans(regex_arg_pattern(values@[0]), arg_text(values@[1])),
                    encode_utf8(arg_text(values@[1])),
                ),
            r matches Err(e) ==> pattern_and_text_error(values@, e) && final(self).rows() is None,
    {
        match pattern_and_text(values, cache) {
            Ok((m, contents)) => {
                let rows = find_all(&m, contents);
                self.seq.reset(rows);
                Ok(())
            },
            Err(e) => {
                self.seq.clear();
                Err(e)
            },
        }
    }

    /// Moves to the next match.
    pub fn next(&mut self)
        requires
            old(self).wf(),
        ensures
            final(self).wf(),
            final(self).rows() == old(self).rows(),
            final(self).position() == if old(self).at_end() {
                old(self).position()
            } else {
                old(self).position() + 1
            },
    {
        self.seq.next()
    }

    /// Whether the matches are used up.
    pub fn eof(&self) -> (r: bool)
        ensures
            r == self.at_end(),
    {
        self.seq.eof()
    }

    /// The index of the current match.
    pub fn rowid(&self) -> (r: usize)
        ensures
            r == self.position(),
    {
        self.seq.rowid()
    }

    /// Column `i` of the current match: its start, its end, its text; the
    /// hidden columns and unknown ones are null.
    pub fn column(&self, i: i32) -> (r: Result<ColumnValue, RegexError>)
        ensures
            r.is_ok() == !self.at_end(),
            r matches Err(e) ==> e is Internal,
            r matches Ok(v) ==> self.rows() matches Some(rows) && {
                let row = rows[self.position() as int];
                &&& i == FIND_ALL_START ==> v == ColumnValue::Integer(row.0)
                &&& i == FIND_ALL_END ==> v == ColumnValue::Integer(row.1)
                &&& i == FIND_ALL_MATCH ==> (v matches ColumnValue::Text(t) && t@ == row.2)
                &&& !(i == FIND_ALL_START || i == FIND_ALL_END || i == FIND_ALL_MATCH) ==> v is Null
            },
    {
        let row = self.seq.current()?;
        if i == FIND_ALL_START {
            Ok(ColumnValue::Integer(row.start))
        } else if i == FIND_ALL_END {
            Ok(ColumnValue::Integer(row.end))
        } else if i == FIND_ALL_MATCH {
            Ok(ColumnValue::Text(row.text.clone()))
        } else {
            Ok(ColumnValue::Null)
        }
    }
}

} // verus!
