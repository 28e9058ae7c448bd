//! The set-matches table function: one row per member of a pattern set that
//! matches the subject.
use vstd::prelude::*;

use crate::cursor::{ColumnValue, ResultSequence};
use crate::error::{PlanError, RegexError};
use crate::handle::{arg_text, value_regexset, ArgValue};
use crate::matcher::{matches_somewhere, matching_members, MatcherSet};
use crate::planner::{bind_hidden, plan_hidden, plan_outcome, IndexConstraint, IndexPlan};

verus! {

/// Column of the index of the member that matched.
pub const SET_KEY: i32 = 0;

/// Column of the pattern text of the member that matched.
pub const SET_PATTERN: i32 = 1;

/// Hidden column of the pattern set; a row shows the whole list of patterns.
pub const SET_REGEXSET: i32 = 2;

/// Hidden column of the subject.
pub const SET_CONTENTS: i32 = 3;

/// The members of a set that match a subject are exactly the indices whose
/// pattern, probed alone, matches it; they come in ascending order, hence
/// without repetition, and each is a valid index.
pub proof fn set_matches_exact(patterns: Seq<Seq<char>>, text: Seq<char>)
    requires
        patterns.len() <= usize::MAX,
    ensures
        forall|k: int|
            0 <= k < matching_members(patterns, text).len() ==> (#[trigger] matching_members(
                patterns,
                text,
            )[k]) < patterns.len(),
        forall|a: int, b: int|
            0 <= a < b < matching_members(patterns, text).len() ==> (#[trigger] matching_members(
                patterns,
                text,
            )[a]) < (#[trigger] matching_members(patterns, text)[b]),
        forall|i: int|
            0 <= i < patterns.len() ==> (matching_members(patterns, text).contains(i as usize)
                <==> matches_somewhere(#[trigger] patterns[i], text)),
    decreases patterns.len(),
{
    if patterns.len() > 0 {
        let n = patterns.len() as int;
        let prefix = patterns.drop_last();
        set_matches_exact(prefix, text);
        let earlier = matching_members(prefix, text);
        let r = matching_members(patterns, text);
        assert forall|i: int| 0 <= i < n implies (r.contains(i as usize) <==> matches_somewhere(
            #[trigger] patterns[i],
            text,
        )) by {
            if i < n - 1 {
                assert(prefix[i] == patterns[i]);
                if r.contains(i as usize) {
                    let k = choose|k: int| 0 <= k < r.len() && r[k] == i as usize;
                    if matches_somewhere(patterns.last(), text) {
                        assert(k < earlier.len());
                        assert(earlier[k] == r[k]);
                    }
                    assert(earlier.contains(i as usize));
                }
                if earlier.contains(i as usize) {
                    let k = choose|k: int| 0 <= k < earlier.len() && earlier[k] == i as usize;
                    assert(r[k] == earlier[k]);
                    assert(r.contains(i as usize));
                }
            } else {
                if matches_somewhere(patterns.last(), text) {
                    assert(r[r.len() - 1] == (n - 1) as usize);
                } else if r.contains(i as usize) {
                    let k = choose|k: int| 0 <= k < r.len() && r[k] == i as usize;
                    assert(earlier[k] < prefix.len());
                }
            }
        }
    }
}

/// The set-matches table function.
pub struct RegexSetMatchesTable {}

impl RegexSetMatchesTable {
    /// The table and its declared shape.
    pub fn connect() -> (r: (String, RegexSetMatchesTable))
        ensures
            r.0@ == "CREATE TABLE x(key, pattern, regexset hidden, contents hidden)"@,
    {
        (
            "CREATE TABLE x(key, pattern, regexset hidden, contents hidden)".to_owned(),
            RegexSetMatchesTable {},
        )
    }

    /// Plans a call: the pattern set and the contents must both be bound by
    /// a usable equality.
    pub fn best_index(&self, constraints: &mut Vec<IndexConstraint>) -> (r: Result<
        IndexPlan,
        PlanError,
    >)
        ensures
            r == plan_outcome(old(constraints)@, SET_REGEXSET, SET_CONTENTS),
            r is Ok ==> final(constraints)@ == bind_hidden(
                old(constraints)@,
                SET_REGEXSET,
                SET_CONTENTS,
            ),
            r is Err ==> final(constraints)@ == old(constraints)@,
    {
        plan_hidden(constraints, SET_REGEXSET, SET_CONTENTS)
    }

    /// A new cursor over the table.
    pub fn open(&self) -> (r: RegexSetMatchesCursor)
        ensures
            r.wf(),
            r.rows() is None,
    {
        RegexSetMatchesCursor::new()
    }
}

/// A copy of a list of texts.
pub fn clone_texts(v: &Vec<String>) -> (r: Vec<String>)
    ensures
        r.deep_view() == v.deep_view(),
{
    let mut r: Vec<String> = Vec::new();
    let mut i: usize = 0;
    while i < v.len()
        invariant
            i <= v@.len(),
            r@.len() == i,
            forall|j: int| 0 <= j < i ==> (#[trigger] r@[j])@ == v@[j]@,
        decreases v@.len() - i,
    {
        r.push(v[i].clone());
        i = i + 1;
    }
    assert(r.deep_view() =~= v.deep_view());
    r
}

/// A cursor over the members of a pattern set that matched in one filter
/// call.
pub struct RegexSetMatchesCursor {
    seq: ResultSequence<usize>,
    patterns: Vec<String>,
}

impl RegexSetMatchesCursor {
    /// The indices of the members that matched, from the last successful
    /// filter.
    pub closed spec fn rows(&self) -> Option<Seq<usize>> {
        self.seq.rows()
    }

    /// The patterns of the set of the last successful filter.
    pub closed spec fn patterns(&self) -> Seq<Seq<char>> {
        self.patterns.deep_view()
    }

    /// The index of the current row.
    pub closed spec fn position(&self) -> nat {
        self.seq.position()
    }

    /// The position never passes the end of the rows, and every row names a
    /// member of the set.
    pub closed spec fn wf(&self) -> bool {
        &&& self.seq.wf()
        &&& self.seq.rows() matches Some(v) ==> forall|k: int|
            0 <= k < v.len() ==> (#[trigger] v[k]) < self.patterns@.len()
    }

    /// There is no current row.
    pub open spec fn at_end(&self) -> bool {
        match self.rows() {
            Some(v) => self.position() >= v.len(),
            None => true,
        }
    }

    /// A cursor that has not been filtered yet.
    pub fn new() -> (r: RegexSetMatchesCursor)
        ensures
            r.wf(),
            r.rows() is None,
            r.position() == 0,
    {
        RegexSetMatchesCursor { seq: ResultSequence::new(), patterns: Vec::new() }
    }

    /// Probes the contents (argument 1) with every member of the pattern set
    /// (argument 0, a handle) and goes to the first member that matched. On
    /// failure no row is left.
    pub fn filter(&mut self, _idx_num: i32, values: &Vec<ArgValue>) -> (r: Result<(), RegexError>)
        ensures
            final(self).wf(),
            r.is_ok() == (values@.len() >= 2 && values@[0] is RegexSet && values@[1] is Text),
            r is Ok ==> (values@[0] matches ArgValue::RegexSet(s) && final(self).rows() == Some(
                matching_members(s@, arg_text(values@[1])),
            ) && final(self).patterns() == s@ && final(self).position() == 0),
            r matches Err(e) ==> e is Argument && final(self).rows() is None,
    {
        if values.len() < 2 {
            self.seq.clear();
            return Err(RegexError::Argument("expected a regexset and a text".to_owned()));
        }
        let set = match value_regexset(&values[0]) {
            Ok(s) => s,
            Err(e) => {
                self.seq.clear();
                return Err(e);
            },
        };
        let contents = match &values[1] {
            ArgValue::Text(t) => t.as_str(),
            _ => {
                self.seq.clear();
                return Err(RegexError::Argument("expected the contents as text".to_owned()));
            },
        };
        let rows = set.matching_indices(contents);
        let patterns = clone_texts(set.patterns());
        let count = patterns.len();
        proof {
            assert(patterns.deep_view().len() == count);
            set_matches_exact(set@, contents@);
        }
        self.patterns = patterns;
        self.seq.reset(rows);
        Ok(())
    }

    /// Moves to the next member that matched.
    pub fn next(&mut self)
        requires
            old(self).wf(),
        ensures
            final(self).wf(),
            final(self).rows() == old(self).rows(),
            final(self).patterns() == old(self).patterns(),
            final(self).position() == if old(self).at_end() {
                old(self).position()
            } else {
                old(self).position() + 1
            },
    {
        self.seq.next()
    }

    /// Whether the members that matched are used up.
    pub fn eof(&self) -> (r: bool)
        ensures
            r == self.at_end(),
    {
        self.seq.eof()
    }

    /// The index of the current row.
    pub fn rowid(&self) -> (r: usize)
        ensures
            r == self.position(),
    {
        self.seq.rowid()
    }

    /// Column `i` of the current row: the member's index, its pattern, the
    /// whole list of patterns; the contents and unknown columns are null.
    pub fn column(&self, i: i32) -> (r: Result<ColumnValue, RegexError>)
        requires
            self.wf(),
        ensures
            r.is_ok() == !self.at_end(),
            r matches Err(e) ==> e is Internal,
            r matches Ok(v) ==> self.rows() matches Some(rows) && {
                let key = rows[self.position() as int];
                &&& key < self.patterns().len()
                &&& i == SET_KEY ==> v == ColumnValue::Integer(key)
                &&& i == SET_PATTERN ==> (v matches ColumnValue::Text(t) && t@
                    == self.patterns()[key as int])
                &&& i == SET_REGEXSET ==> (v matches ColumnValue::TextList(l) && l.deep_view()
                    == self.patterns())
                &&& !(i == SET_KEY || i == SET_PATTERN || i == SET_REGEXSET) ==> v is Null
            },
    {
        let key = *self.seq.current()?;
        if i == SET_KEY {
            Ok(ColumnValue::Integer(key))
        } else if i == SET_PATTERN {
            Ok(ColumnValue::Text(self.patterns[key].clone()))
        } else if i == SET_REGEXSET {
            Ok(ColumnValue::TextList(clone_texts(&self.patterns)))
        } else {
            Ok(ColumnValue::Null)
        }
    }
}

} // verus!
