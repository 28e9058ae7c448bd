//! The capture-groups table function: one row per match, whose value is the
//! table of that match's capture groups, by name and by index.
use vstd::prelude::*;

use crate::cache::MatcherCache;
use crate::cursor::{ColumnValue, ResultSequence};
use crate::error::{PlanError, RegexError};
use crate::handle::{
    arg_text, cache_after_args, pattern_and_text, pattern_and_text_error, pattern_and_text_ok,
    regex_arg_pattern, ArgValue,
};
use crate::matcher::{group_names, group_texts, opt_text, Matcher};
use crate::planner::{bind_hidden, plan_hidden, plan_outcome, IndexConstraint, IndexPlan};

verus! {

/// Column of the capture table.
pub const CAPTURES_TABLE: i32 = 0;

/// Hidden column of the pattern.
pub const CAPTURES_PATTERN: i32 = 1;

/// Hidden column of the subject.
pub const CAPTURES_CONTENTS: i32 = 2;

/// How a capture group is addressed.
#[derive(Debug)]
pub enum CaptureGroupKey {
    Index(usize),
    Name(String),
}

/// The view of a group key.
pub enum GroupKey {
    Index(usize),
    Name(Seq<char>),
}

impl View for CaptureGroupKey {
    type V = GroupKey;

    open spec fn view(&self) -> GroupKey {
        match self {
            CaptureGroupKey::Index(i) => GroupKey::Index(*i),
            CaptureGroupKey::Name(n) => GroupKey::Name(n@),
        }
    }
}

/// One capture group of a match: its key and its text, if it took part.
#[derive(Debug)]
pub struct CaptureGroup {
    pub key: CaptureGroupKey,
    pub value: Option<String>,
}

impl View for CaptureGroup {
    type V = (GroupKey, Option<Seq<char>>);

    open spec fn view(&self) -> (GroupKey, Option<Seq<char>>) {
        (self.key@, opt_text(self.value))
    }
}

/// The views of a list of optional texts.
pub open spec fn opt_texts(s: Seq<Option<String>>) -> Seq<Option<Seq<char>>> {
    s.map_values(|o: Option<String>| opt_text(o))
}

/// The views of a capture table.
pub open spec fn table_view(t: Seq<CaptureGroup>) -> Seq<(GroupKey, Option<Seq<char>>)> {
    t.map_values(|g: CaptureGroup| g@)
}

/// The entries for the named groups among the first `k`, in declaration
/// order.
pub open spec fn named_entries(
    names: Seq<Option<Seq<char>>>,
    groups: Seq<Option<Seq<char>>>,
    k: nat,
) -> Seq<(GroupKey, Option<Seq<char>>)>
    decreases k,
{
    if k == 0 {
        seq![]
    } else {
        let earlier = named_entries(names, groups, (k - 1) as nat);
        match names[k - 1] {
            Some(n) => earlier.push((GroupKey::Name(n), groups[k - 1])),
            None => earlier,
        }
    }
}

/// The capture table of one match: an entry for every named group, in
/// declaration order, then one for every group by index, group 0 being the
/// whole match. A group that took no part has no text.
pub open spec fn capture_table(
    names: Seq<Option<Seq<char>>>,
    groups: Seq<Option<Seq<char>>>,
) -> Seq<(GroupKey, Option<Seq<char>>)> {
    named_entries(names, groups, names.len()) + Seq::new(
        groups.len(),
        |i: int| (GroupKey::Index(i as usize), groups[i]),
    )
}

/// The rows of capture-groups for a pattern and a subject: the capture
/// table of each match, left to right.
pub open spec fn captures_rows(pattern: Seq<char>, subject: Seq<char>) -> Seq<
    Seq<(GroupKey, Option<Seq<char>>)>,
> {
    Seq::new(
        group_texts(pattern, subject).len(),
        |k: int| capture_table(group_names(pattern), group_texts(pattern, subject)[k]),
    )
}

/// The text of the first entry of a table under `key`; none if no entry has
/// that key or the group took no part.
pub open spec fn lookup(table: Seq<(GroupKey, Option<Seq<char>>)>, key: GroupKey) -> Option<
    Seq<char>,
>
    decreases table.len(),
{
    if table.len() == 0 {
        None
    } else if table[0].0 == key {
        table[0].1
    } else {
        lookup(table.drop_first(), key)
    }
}

/// A copy of an optional text.
fn clone_opt(o: &Option<String>) -> (r: Option<String>)
    ensures
        opt_text(r) == opt_text(*o),
{
    match o {
        Some(s) => Some(s.clone()),
        None => None,
    }
}

impl CaptureGroupKey {
    /// A copy of the key.
    pub fn duplicate(&self) -> (r: CaptureGroupKey)
        ensures
            r@ == self@,
    {
        match self {
            CaptureGroupKey::Index(i) => CaptureGroupKey::Index(*i),
            CaptureGroupKey::Name(n) => CaptureGroupKey::Name(n.clone()),
        }
    }

    /// Whether two keys are the same.
    pub fn same(&self, other: &CaptureGroupKey) -> (r: bool)
        ensures
            r == (self@ == other@),
    {
        match (self, other) {
            (CaptureGroupKey::Index(a), CaptureGroupKey::Index(b)) => *a == *b,
            (CaptureGroupKey::Name(a), CaptureGroupKey::Name(b)) => *a == *b,
            _ => false,
        }
    }
}

/// A copy of a capture table.
pub fn clone_table(t: &Vec<CaptureGroup>) -> (r: Vec<CaptureGroup>)
    ensures
        table_view(r@) == table_view(t@),
{
    let mut r: Vec<CaptureGroup> = Vec::new();
    let mut i: usize = 0;
    while i < t.len()
        invariant
            i <= t@.len(),
            r@.len() == i,
            forall|j: int| 0 <= j < i ==> (#[trigger] r@[j])@ == t@[j]@,
        decreases t@.len() - i,
    {
        let g = &t[i];
        r.push(CaptureGroup { key: g.key.duplicate(), value: clone_opt(&g.value) });
        i = i + 1;
    }
    assert(table_view(r@) =~= table_view(t@));
    r
}

/// The capture table of one match, from the group names of the pattern and
/// the texts of the groups.
pub fn build_capture_table(names: &Vec<Option<String>>, groups: &Vec<Option<String>>) -> (r: Vec<
    CaptureGroup,
>)
    requires
        names@.len() == groups@.len(),
    ensures
        table_view(r@) == capture_table(opt_texts(names@), opt_texts(groups@)),
{
    let ghost nv = opt_texts(names@);
    let ghost gv = opt_texts(groups@);
    let mut r: Vec<CaptureGroup> = Vec::new();
    let mut i: usize = 0;
    while i < names.len()
        invariant
            i <= names@.len(),
            names@.len() == groups@.len(),
            nv == opt_texts(names@),
            gv == opt_texts(groups@),
            table_view(r@) == named_entries(nv, gv, i as nat),
        decreases names@.len() - i,
    {
        if let Some(n) = &names[i] {
            let value = clone_opt(&groups[i]);
            let ghost before = r@;
            r.push(CaptureGroup { key: CaptureGroupKey::Name(n.clone()), value });
            assert(table_view(r@) =~= table_view(before).push((GroupKey::Name(n@), gv[i as int])));
        }
        i = i + 1;
    }
    let ghost named = table_view(r@);
    let mut j: usize = 0;
    while j < groups.len()
        invariant
            j <= groups@.len(),
            names@.len() == groups@.len(),
            gv == opt_texts(groups@),
            named == named_entries(nv, gv, names@.len() as nat),
            table_view(r@) == named + Seq::new(
                j as nat,
                |k: int| (GroupKey::Index(k as usize), gv[k]),
            ),
        decreases groups@.len() - j,
    {
        let ghost before = r@;
        r.push(CaptureGroup { key: CaptureGroupKey::Index(j), value: clone_opt(&groups[j]) });
        assert(table_view(r@) =~= table_view(before).push((GroupKey::Index(j), gv[j as int])));
        assert(table_view(r@) =~= named + Seq::new(
            (j + 1) as nat,
            |k: int| (GroupKey::Index(k as usize), gv[k]),
        ));
        j = j + 1;
    }
    assert(gv.len() == groups@.len());
    r
}

/// The capture tables of every match of `m` in `contents`, left to right.
pub fn captures_of(m: &Matcher, contents: &str) -> (r: Vec<Vec<CaptureGroup>>)
    ensures
        r@.len() == captures_rows(m@, contents@).len(),
        forall|k: int|
            0 <= k < r@.len() ==> table_view((#[trigger] r@[k])@) == captures_rows(
                m@,
                contents@,
            )[k],
{
    let names = m.capture_names();
    let all = m.all_captures(contents);
    assert(opt_texts(names@) =~= group_names(m@));
    let mut rows: Vec<Vec<CaptureGroup>> = Vec::new();
    let mut k: usize = 0;
    while k < all.len()
        invariant
            k <= all@.len(),
            all@.len() == group_texts(m@, contents@).len(),
            opt_texts(names@) == group_names(m@),
            names@.len() == group_names(m@).len(),
            forall|q: int|
                0 <= q < all@.len() ==> {
                    &&& (#[trigger] all@[q])@.len() == group_names(m@).len()
                    &&& group_texts(m@, contents@)[q].len() == group_names(m@).len()
                    &&& forall|i: int|
                        0 <= i < all@[q]@.len() ==> opt_text(#[trigger] all@[q]@[i])
                            == group_texts(m@, contents@)[q][i]
                },
            rows@.len() == k,
            forall|q: int|
                0 <= q < k ==> table_view((#[trigger] rows@[q])@) == captures_rows(
                    m@,
                    contents@,
                )[q],
        decreases all@.len() - k,
    {
        let table = build_capture_table(&names, &all[k]);
        assert(opt_texts(all@[k as int]@) =~= group_texts(m@, contents@)[k as int]);
        rows.push(table);
        k = k + 1;
    }
    rows
}

/// The text of the group under `key` in a capture table: the first entry
/// with that key; none if there is none or the group took no part.
pub fn capture_lookup(table: &Vec<CaptureGroup>, key: &CaptureGroupKey) -> (r: Option<String>)
    ensures
        opt_text(r) == lookup(table_view(table@), key@),
{
    let ghost tv = table_view(table@);
    assert(tv.subrange(0, tv.len() as int) =~= tv);
    let mut i: usize = 0;
    while i < table.len()
        invariant
            i <= table@.len(),
            tv == table_view(table@),
            lookup(tv, key@) == lookup(tv.subrange(i as int, tv.len() as int), key@),
        decreases table@.len() - i,
    {
        let ghost rest = tv.subrange(i as int, tv.len() as int);
        assert(rest.drop_first() =~= tv.subrange(i + 1, tv.len() as int));
        if table[i].key.same(key) {
            return clone_opt(&table[i].value);
        }
        i = i + 1;
    }
    None
}

/// The capture-groups table function.
pub struct RegexCapturesTable {}

impl RegexCapturesTable {
    /// The table and its declared shape.
    pub fn connect() -> (r: (String, RegexCapturesTable))
        ensures
            r.0@ == "CREATE TABLE x(captures, pattern hidden, contents text hidden)"@,
    {
        (
            "CREATE TABLE x(captures, pattern hidden, contents text hidden)".to_owned(),
            RegexCapturesTable {},
        )
    }

    /// Plans a call: the pattern and the contents must both be bound by a
    /// usable equality.
    pub fn best_index(&self, constraints: &mut Vec<IndexConstraint>) -> (r: Result<
        IndexPlan,
        PlanError,
    >)
        ensures
            r == plan_outcome(old(constraints)@, CAPTURES_PATTERN, CAPTURES_CONTENTS),
            r is Ok ==> final(constraints)@ == bind_hidden(
                old(constraints)@,
                CAPTURES_PATTERN,
                CAPTURES_CONTENTS,
            ),
            r is Err ==> final(constraints)@ == old(constraints)@,
    {
        plan_hidden(constraints, CAPTURES_PATTERN, CAPTURES_CONTENTS)
    }

    /// A new cursor over the table.
    pub fn open(&self) -> (r: RegexCapturesCursor)
        ensures
            r.wf(),
            r.rows() is None,
    {
        RegexCapturesCursor::new()
    }
}

/// A cursor over the matches of one filter call, each with its capture
/// table.
pub struct RegexCapturesCursor {
    seq: ResultSequence<Vec<CaptureGroup>>,
}

impl RegexCapturesCursor {
    /// The capture tables of the last successful filter.
    pub closed spec fn rows(&self) -> Option<Seq<Seq<(GroupKey, Option<Seq<char>>)>>> {
        match self.seq.rows() {
            Some(v) => Some(v.map_values(|t: Vec<CaptureGroup>| table_view(t@))),
            None => None,
        }
    }

    /// The index of the current row.
    pub closed spec fn position(&self) -> nat {
        self.seq.position()
    }

    /// The position never passes the end of the rows.
    pub closed spec fn wf(&self) -> bool {
        self.seq.wf()
    }

    /// There is no current row.
    pub open spec fn at_end(&self) -> bool {
        match self.rows() {
            Some(v) => self.position() >= v.len(),
            None => true,
        }
    }

    /// A cursor that has not been filtered yet.
    pub fn new() -> (r: RegexCapturesCursor)
        ensures
            r.wf(),
            r.rows() is None,
            r.position() == 0,
    {
        RegexCapturesCursor { seq: ResultSequence::new() }
    }

    /// Materialises the capture table of every match of the pattern
    /// (argument 0) in the contents (argument 1) and goes to the first. On
    /// failure no row is left.
    pub fn filter(
        &mut self,
        _idx_num: i32,
        values: &Vec<ArgValue>,
        cache: &mut MatcherCache,
    ) -> (r: Result<(), RegexError>)
        requires
            old(cache).wf(),
        ensures
            final(cache).wf(),
            final(self).wf(),
            r.is_ok() == pattern_and_text_ok(values@),
            cache_after_args(*old(cache), *final(cache), values@),
            r is Ok ==> final(self).rows() == Some(
                captures_rows(regex_arg_pattern(values@[0]), arg_text(values@[1])),
            ) && final(self).position() == 0,
            r matches Err(e) ==> pattern_and_text_error(values@, e) && final(self).rows() is None,
    {
        match pattern_and_text(values, cache) {
            Ok((m, contents)) => {
                let rows = captures_of(&m, contents);
                self.seq.reset(rows);
                assert(self.rows().unwrap() =~= captures_rows(m@, contents@));
                Ok(())
            },
            Err(e) => {
                self.seq.clear();
                Err(e)
            },
        }
    }

    /// Moves to the next match.
    pub fn next(&mut self)
        requires
            old(self).wf(),
        ensures
            final(self).wf(),
            final(self).rows() == old(self).rows(),
            final(self).position() == if old(self).at_end() {
                old(self).position()
            } else {
                old(self).position() + 1
            },
    {
        self.seq.next()
    }

    /// Whether the matches are used up.
    pub fn eof(&self) -> (r: bool)
        ensures
            r == self.at_end(),
    {
        self.seq.eof()
    }

    /// The index of the current match.
    pub fn rowid(&self) -> (r: usize)
        ensures
            r == self.position(),
    {
        self.seq.rowid()
    }

    /// Column `i` of the current match: its capture table; the hidden
    /// columns and unknown ones are null.
    pub fn column(&self, i: i32) -> (r: Result<ColumnValue, RegexError>)
        ensures
            r.is_ok() == !self.at_end(),
            r matches Err(e) ==> e is Internal,
            r matches Ok(v) ==> self.rows() matches Some(rows) && {
                &&& i == CAPTURES_TABLE ==> (v matches ColumnValue::Captures(t) && table_view(t@)
                    == rows[self.position() as int])
                &&& i != CAPTURES_TABLE ==> v is Null
            },
    {
        let row = self.seq.current()?;
        if i == CAPTURES_TABLE {
            Ok(ColumnValue::Captures(clone_table(row)))
        } else {
            Ok(ColumnValue::Null)
        }
    }
}

} // verus!
