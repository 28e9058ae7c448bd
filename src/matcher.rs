//! The boundary to the `regex` crate: compiled patterns and what a search of
//! one subject returns. Byte offsets are offsets into the UTF-8 encoding of the
//! subject.
use vstd::prelude::*;
use vstd::string::*;
use vstd::utf8::*;

verus! {

broadcast use vstd::utf8::group_utf8_lib;

#[verifier::external_type_specification]
#[verifier::external_body]
pub struct ExRegex(regex::Regex);

#[verifier::external_type_specification]
#[verifier::external_body]
pub struct ExRegexError(regex::Error);

#[verifier::external_type_specification]
#[verifier::external_body]
pub struct ExRegexSet(regex::RegexSet);

/// Whether `regex::Regex::new` accepts the pattern.
pub uninterp spec fn compiles(pattern: Seq<char>) -> bool;

/// The successive non-overlapping leftmost-first matches of a pattern in a
/// subject, as byte ranges, in the order `regex::Regex::find_iter` yields them.
pub uninterp spec fn match_spans(pattern: Seq<char>, text: Seq<char>) -> Seq<(usize, usize)>;

/// Whether `regex::RegexSet::new` accepts the patterns as one set.
pub uninterp spec fn set_compiles(patterns: Seq<Seq<char>>) -> bool;

/// The match that `regex::Regex::find_at` reports from a start offset.
pub uninterp spec fn match_from(pattern: Seq<char>, text: Seq<char>, start: nat) -> Option<
    (usize, usize),
>;

/// The names of the capture groups, by group index, as
/// `regex::Regex::capture_names` lists them.
pub uninterp spec fn group_names(pattern: Seq<char>) -> Seq<Option<Seq<char>>>;

/// For each match that `regex::Regex::captures_iter` yields, the text of each
/// capture group by index.
pub uninterp spec fn group_texts(pattern: Seq<char>, text: Seq<char>) -> Seq<
    Seq<Option<Seq<char>>>,
>;

/// What `regex::Regex::replace` returns.
pub uninterp spec fn replaced_first(pattern: Seq<char>, text: Seq<char>, rep: Seq<char>) -> Seq<
    char,
>;

/// What `regex::Regex::replace_all` returns.
pub uninterp spec fn replaced_all(pattern: Seq<char>, text: Seq<char>, rep: Seq<char>) -> Seq<
    char,
>;

/// The pattern matches somewhere in the subject.
pub open spec fn matches_somewhere(pattern: Seq<char>, text: Seq<char>) -> bool {
    match_spans(pattern, text).len() > 0
}

/// The indices of the members of a set that match somewhere in the subject,
/// ascending.
pub open spec fn matching_members(patterns: Seq<Seq<char>>, text: Seq<char>) -> Seq<usize>
    decreases patterns.len(),
{
    if patterns.len() == 0 {
        seq![]
    } else {
        let earlier = matching_members(patterns.drop_last(), text);
        if matches_somewhere(patterns.last(), text) {
            earlier.push((patterns.len() - 1) as usize)
        } else {
            earlier
        }
    }
}

/// The view of an optional string.
pub open spec fn opt_text(o: Option<String>) -> Option<Seq<char>> {
    match o {
        Some(s) => Some(s@),
        None => None,
    }
}

/// The byte range of the `i`-th piece between matches: from the end of the
/// previous match (or the start) to the start of the next (or the end).
pub open spec fn gap(spans: Seq<(usize, usize)>, len: int, i: int) -> (int, int) {
    (
        if i == 0 { 0 } else { spans[i - 1].1 as int },
        if i < spans.len() { spans[i].0 as int } else { len },
    )
}

/// The bytes of the `i`-th piece between matches.
pub open spec fn gap_bytes(bytes: Seq<u8>, spans: Seq<(usize, usize)>, i: int) -> Seq<u8> {
    bytes.subrange(gap(spans, bytes.len() as int, i).0, gap(spans, bytes.len() as int, i).1)
}

/// Every range lies inside the subject on character boundaries, and the ranges
/// come left to right: each one ends where or before the next begins, and
/// their starts strictly increase.
pub open spec fn spans_well_formed(spans: Seq<(usize, usize)>, bytes: Seq<u8>) -> bool {
    &&& forall|i: int|
        0 <= i < spans.len() ==> {
            &&& #[trigger] spans[i].0 <= spans[i].1
            &&& spans[i].1 <= bytes.len()
            &&& is_char_boundary(bytes, spans[i].0 as int)
            &&& is_char_boundary(bytes, spans[i].1 as int)
        }
    &&& forall|i: int|
        0 <= i < spans.len() - 1 ==> {
            &&& #[trigger] spans[i].1 <= spans[i + 1].0
            &&& spans[i].0 < spans[i + 1].0
        }
}

/// Relies on `regex::Regex::new`: it either compiles the pattern or reports
/// why not, and which of the two depends on the pattern text alone.
#[verifier::external_body]
fn regex_new(pattern: &str) -> (r: Result<regex::Regex, regex::Error>)
    ensures
        r.is_ok() == compiles(pattern@),
{
    regex::Regex::new(pattern)
}

/// Relies on the `Display` impl of `regex::Error` for a readable message.
#[verifier::external_body]
fn regex_error_text(e: &regex::Error) -> String {
    e.to_string()
}

/// Relies on `Clone` for `regex::Regex`: the copy shares the compiled program.
pub assume_specification[ <regex::Regex as Clone>::clone ](r: &regex::Regex) -> regex::Regex;

/// Relies on `Clone` for `regex::RegexSet`: the copy shares the compiled
/// program.
pub assume_specification[ <regex::RegexSet as Clone>::clone ](
    s: &regex::RegexSet,
) -> regex::RegexSet;

/// A compiled pattern together with the text it was compiled from.
#[derive(Debug)]
pub struct Matcher {
    pattern: String,
    re: regex::Regex,
}

impl View for Matcher {
    type V = Seq<char>;

    closed spec fn view(&self) -> Seq<char> {
        self.pattern@
    }
}

impl Matcher {
    /// Compiles `pattern`; on failure returns the engine's message.
    pub fn compile(pattern: &str) -> (r: Result<Matcher, String>)
        ensures
            r.is_ok() == compiles(pattern@),
            r matches Ok(m) ==> m@ == pattern@,
    {
        match regex_new(pattern) {
            Ok(re) => Ok(Matcher { pattern: pattern.to_owned(), re }),
            Err(e) => Err(regex_error_text(&e)),
        }
    }

    /// A second handle on the same compiled pattern.
    pub fn share(&self) -> (r: Matcher)
        ensures
            r@ == self@,
    {
        Matcher { pattern: self.pattern.clone(), re: self.re.clone() }
    }

    /// Whether this matcher was compiled from exactly `pattern`.
    pub fn has_pattern(&self, pattern: &String) -> (r: bool)
        ensures
            r == (self@ == pattern@),
    {
        self.pattern == *pattern
    }

    /// The pattern text this matcher was compiled from.
    pub fn as_str(&self) -> (r: &str)
        ensures
            r@ == self@,
    {
        self.pattern.as_str()
    }

    /// Relies on `regex::Regex::find_iter`: the byte ranges of its matches,
    /// which are non-overlapping, in order, and on character boundaries.
    #[verifier::external_body]
    pub(crate) fn find_spans(&self, text: &str) -> (r: Vec<(usize, usize)>)
        ensures
            r@ == match_spans(self@, text@),
            spans_well_formed(r@, text.spec_bytes()),
    {
        self.re.find_iter(text).map(|m| (m.start(), m.end())).collect()
    }

    /// Relies on `regex::Regex::is_match`: true exactly when the pattern
    /// matches somewhere in the subject, that is when `find_iter` yields a
    /// match.
    #[verifier::external_body]
    pub(crate) fn is_match(&self, text: &str) -> (r: bool)
        ensures
            r == matches_somewhere(self@, text@),
    {
        self.re.is_match(text)
    }

    /// Relies on `regex::Regex::find`: the leftmost-first match, which is the
    /// first one that `find_iter` yields.
    #[verifier::external_body]
    pub(crate) fn first_span(&self, text: &str) -> (r: Option<(usize, usize)>)
        ensures
            match_spans(self@, text@).len() == 0 ==> r is None,
            match_spans(self@, text@).len() > 0 ==> r == Some(match_spans(self@, text@)[0]),
            r matches Some(sp) ==> {
                &&& sp.0 <= sp.1 <= text.spec_bytes().len()
                &&& is_char_boundary(text.spec_bytes(), sp.0 as int)
                &&& is_char_boundary(text.spec_bytes(), sp.1 as int)
            },
    {
        self.re.find(text).map(|m| (m.start(), m.end()))
    }

    /// Relies on `regex::Regex::find_at`, which panics when `start` is past
    /// the end: the first match that starts at or after `start`, found with
    /// the text before `start` as context.
    #[verifier::external_body]
    pub(crate) fn span_from(&self, text: &str, start: usize) -> (r: Option<(usize, usize)>)
        requires
            start <= text.spec_bytes().len(),
        ensures
            r == match_from(self@, text@, start as nat),
            r matches Some(sp) ==> {
                &&& start <= sp.0 <= sp.1 <= text.spec_bytes().len()
                &&& is_char_boundary(text.spec_bytes(), sp.0 as int)
                &&& is_char_boundary(text.spec_bytes(), sp.1 as int)
            },
    {
        self.re.find_at(text, start).map(|m| (m.start(), m.end()))
    }

    /// Relies on `regex::Regex::split`: the pieces of the subject between
    /// successive matches of `find_iter`, the first starting at offset 0 and
    /// the last ending at the end of the subject.
    #[verifier::external_body]
    pub(crate) fn split_pieces(&self, text: &str) -> (r: Vec<String>)
        ensures
            r@.len() == match_spans(self@, text@).len() + 1,
            forall|i: int|
                0 <= i < r@.len() ==> encode_utf8(#[trigger] r@[i]@) == gap_bytes(
                    text.spec_bytes(),
                    match_spans(self@, text@),
                    i,
                ),
    {
        self.re.split(text).map(|p| p.to_string()).collect()
    }

    /// Relies on `regex::Regex::capture_names`: one entry per capture group
    /// by index, the name of the group if it has one; group 0, the whole
    /// match, is always there.
    #[verifier::external_body]
    pub(crate) fn capture_names(&self) -> (r: Vec<Option<String>>)
        ensures
            r@.len() >= 1,
            r@.len() == group_names(self@).len(),
            forall|i: int|
                0 <= i < r@.len() ==> opt_text(#[trigger] r@[i]) == group_names(self@)[i],
    {
        self.re.capture_names().map(|n| n.map(|s| s.to_string())).collect()
    }

    /// Relies on `regex::Regex::captures_iter`: for each successive match,
    /// the text of every capture group by index, or nothing for a group that
    /// took no part in it. Each entry has as many groups as
    /// `capture_names` lists.
    #[verifier::external_body]
    pub(crate) fn all_captures(&self, text: &str) -> (r: Vec<Vec<Option<String>>>)
        ensures
            r@.len() == group_texts(self@, text@).len(),
            forall|k: int|
                0 <= k < r@.len() ==> {
                    &&& (#[trigger] r@[k])@.len() == group_names(self@).len()
                    &&& group_texts(self@, text@)[k].len() == group_names(self@).len()
                    &&& forall|i: int|
                        0 <= i < r@[k]@.len() ==> opt_text(#[trigger] r@[k]@[i])
                            == group_texts(self@, text@)[k][i]
                },
    {
        self.re.captures_iter(text).map(
            |c| c.iter().map(|g| g.map(|m| m.as_str().to_string())).collect(),
        ).collect()
    }

    /// Relies on `regex::Regex::captures`: the groups of the leftmost-first
    /// match, the first entry that `captures_iter` yields.
    #[verifier::external_body]
    pub(crate) fn first_captures(&self, text: &str) -> (r: Option<Vec<Option<String>>>)
        ensures
            group_texts(self@, text@).len() == 0 ==> r is None,
            group_texts(self@, text@).len() > 0 ==> (r matches Some(g) && g@.len()
                == group_names(self@).len() && group_texts(self@, text@)[0].len() == g@.len()
                && forall|i: int|
                0 <= i < g@.len() ==> opt_text(#[trigger] g@[i]) == group_texts(
                    self@,
                    text@,
                )[0][i]),
    {
        self.re.captures(text).map(
            |c| c.iter().map(|g| g.map(|m| m.as_str().to_string())).collect(),
        )
    }

    /// Relies on `regex::Regex::replace`: the subject with its first match
    /// replaced, `$name` references expanded.
    #[verifier::external_body]
    pub(crate) fn replace_first(&self, text: &str, rep: &str) -> (r: String)
        ensures
            r@ == replaced_first(self@, text@, rep@),
    {
        self.re.replace(text, rep).into_owned()
    }

    /// Relies on `regex::Regex::replace_all`: the subject with every match of
    /// `find_iter` replaced, `$name` references expanded.
    #[verifier::external_body]
    pub(crate) fn replace_every(&self, text: &str, rep: &str) -> (r: String)
        ensures
            r@ == replaced_all(self@, text@, rep@),
    {
        self.re.replace_all(text, rep).into_owned()
    }
}

/// Patterns compiled jointly; a probe reports every member that matches.
#[derive(Debug)]
pub struct MatcherSet {
    patterns: Vec<String>,
    set: regex::RegexSet,
}

impl View for MatcherSet {
    type V = Seq<Seq<char>>;

    closed spec fn view(&self) -> Seq<Seq<char>> {
        self.patterns.deep_view()
    }
}

/// Relies on `regex::RegexSet::new`: it compiles the patterns jointly or
/// reports why not, depending on the pattern texts alone.
#[verifier::external_body]
fn regex_set_new(patterns: &Vec<String>) -> (r: Result<regex::RegexSet, regex::Error>)
    ensures
        r.is_ok() == set_compiles(patterns.deep_view()),
{
    regex::RegexSet::new(patterns)
}

impl MatcherSet {
    /// Compiles the patterns as one set, keeping their order.
    pub fn compile(patterns: Vec<String>) -> (r: Result<MatcherSet, String>)
        ensures
            r.is_ok() == set_compiles(patterns.deep_view()),
            r matches Ok(s) ==> s@ == patterns.deep_view(),
    {
        match regex_set_new(&patterns) {
            Ok(set) => Ok(MatcherSet { patterns, set }),
            Err(e) => Err(regex_error_text(&e)),
        }
    }

    /// A second handle on the same compiled set.
    pub fn share(&self) -> (r: MatcherSet)
        ensures
            r@ == self@,
    {
        let patterns = crate::set_matches::clone_texts(&self.patterns);
        MatcherSet { patterns, set: self.set.clone() }
    }

    /// The member patterns, in order.
    pub fn patterns(&self) -> (r: &Vec<String>)
        ensures
            r.deep_view() == self@,
    {
        &self.patterns
    }

    /// Relies on `regex::RegexSet::matches`: the indices of the members that
    /// match somewhere in the subject, in ascending order.
    #[verifier::external_body]
    pub(crate) fn matching_indices(&self, text: &str) -> (r: Vec<usize>)
        ensures
            r@ == matching_members(self@, text@),
    {
        self.set.matches(text).into_iter().collect()
    }

    /// Relies on `regex::RegexSet::is_match`: whether some member matches
    /// somewhere in the subject.
    #[verifier::external_body]
    pub(crate) fn is_match(&self, text: &str) -> (r: bool)
        ensures
            r == (matching_members(self@, text@).len() > 0),
    {
        self.set.is_match(text)
    }
}

/// A slice of valid UTF-8 between two character boundaries is valid UTF-8.
pub(crate) proof fn lemma_slice_valid(bytes: Seq<u8>, a: int, b: int)
    requires
        valid_utf8(bytes),
        0 <= a <= b <= bytes.len(),
        is_char_boundary(bytes, a),
        is_char_boundary(bytes, b),
    ensures
        valid_utf8(bytes.subrange(a, b)),
{
    let head = bytes.subrange(0, b);
    valid_utf8_split(bytes, b);
    if a == b {
        is_char_boundary_start_end_of_seq(head);
    } else if a > 0 {
        is_char_boundary_iff_not_is_continuation_byte(bytes, a);
        is_char_boundary_iff_not_is_continuation_byte(head, a);
    }
    valid_utf8_split(head, a);
    assert(head.subrange(a, head.len() as int) =~= bytes.subrange(a, b));
}

/// The text of `s` between two byte offsets on character boundaries.
pub fn byte_slice(s: &str, start: usize, end: usize) -> (r: String)
    requires
        start <= end <= s.spec_bytes().len(),
        is_char_boundary(s.spec_bytes(), start as int),
        is_char_boundary(s.spec_bytes(), end as int),
    ensures
        encode_utf8(r@) == s.spec_bytes().subrange(start as int, end as int),
{
    let ghost bytes = s.spec_bytes();
    proof {
        encode_utf8_valid_utf8(s@);
    }
    let (head, _) = s.split_at(end);
    let ghost hb = head.spec_bytes();
    assert(hb =~= bytes.subrange(0, end as int));
    proof {
        valid_utf8_split(bytes, end as int);
        if start == end {
            is_char_boundary_start_end_of_seq(hb);
        } else if start > 0 {
            is_char_boundary_iff_not_is_continuation_byte(bytes, start as int);
            is_char_boundary_iff_not_is_continuation_byte(hb, start as int);
        }
    }
    let (_, mid) = head.split_at(start);
    assert(mid.spec_bytes() =~= bytes.subrange(start as int, end as int));
    mid.to_owned()
}

} // verus!
