//! How a call obtains its compiled pattern: from a handle that an earlier
//! call produced, from the memo slot of this call site, or by compiling the
//! text through the connection's cache; and who owns it afterwards.
use vstd::prelude::*;

use crate::cache::{lookup_step, MatcherCache};
use crate::error::RegexError;
use crate::matcher::{compiles, set_compiles, Matcher, MatcherSet};

verus! {

/// An argument value as the host hands it over.
#[derive(Debug)]
pub enum ArgValue {
    Null,
    Integer(i64),
    Text(String),
    /// A compiled pattern that an earlier call returned as a handle.
    Regex(Matcher),
    /// A compiled pattern set that an earlier call returned as a handle.
    RegexSet(MatcherSet),
}

/// Where the matcher of a call came from, and so who releases it.
#[derive(PartialEq, Eq, Structural, Clone, Copy, Debug)]
pub enum RegexInputType {
    /// The argument was a handle: it is borrowed, and its owner releases it.
    Pointer,
    /// It was compiled from the text of argument `at`: this call owns it and
    /// hands it to the memo slot of that argument.
    TextInitial(usize),
    /// It came from the memo slot: the slot keeps it.
    GetAuxdata,
}

/// The memo slots of one call site, one per argument position. A slot holds
/// a matcher only while the host keeps that argument constant.
pub struct AuxSlots {
    slots: Vec<Option<Matcher>>,
}

/// The view of an optional matcher: its pattern text.
pub open spec fn opt_pattern(o: Option<Matcher>) -> Option<Seq<char>> {
    match o {
        Some(m) => Some(m@),
        None => None,
    }
}

impl View for AuxSlots {
    type V = Seq<Option<Seq<char>>>;

    closed spec fn view(&self) -> Seq<Option<Seq<char>>> {
        Seq::new(self.slots@.len(), |i: int| opt_pattern(self.slots@[i]))
    }
}

impl AuxSlots {
    /// `n` empty slots.
    pub fn new(n: usize) -> (r: AuxSlots)
        ensures
            r@ == Seq::new(n as nat, |i: int| None::<Seq<char>>),
    {
        let mut slots: Vec<Option<Matcher>> = Vec::new();
        let mut i: usize = 0;
        while i < n
            invariant
                i <= n,
                slots@.len() == i,
                forall|j: int| 0 <= j < i ==> slots@[j] is None,
            decreases n - i,
        {
            slots.push(None);
            i = i + 1;
        }
        let r = AuxSlots { slots };
        assert(r@ =~= Seq::new(n as nat, |i: int| None::<Seq<char>>));
        r
    }

    /// The number of slots.
    pub fn len(&self) -> (r: usize)
        ensures
            r == self@.len(),
    {
        self.slots.len()
    }

    /// A handle on the matcher in slot `at`, if there is one.
    pub fn get(&self, at: usize) -> (r: Option<Matcher>)
        ensures
            at < self@.len() ==> opt_pattern(r) == self@[at as int],
            at >= self@.len() ==> r is None,
    {
        if at < self.slots.len() {
            match &self.slots[at] {
                Some(m) => Some(m.share()),
                None => None,
            }
        } else {
            None
        }
    }

    /// Puts `m` in slot `at`.
    pub fn set(&mut self, at: usize, m: Matcher)
        requires
            at < old(self)@.len(),
        ensures
            final(self)@ == old(self)@.update(at as int, Some(m@)),
    {
        self.slots.set(at, Some(m));
        assert(self@ =~= old(self)@.update(at as int, Some(m@)));
    }
}

/// The argument is a compiled handle or a text that compiles.
pub open spec fn regex_arg_ok(v: ArgValue) -> bool {
    match v {
        ArgValue::Regex(_) => true,
        ArgValue::Text(s) => compiles(s@),
        _ => false,
    }
}

/// The pattern text of an argument that names a pattern.
pub open spec fn regex_arg_pattern(v: ArgValue) -> Seq<char> {
    match v {
        ArgValue::Regex(m) => m@,
        ArgValue::Text(s) => s@,
        _ => Seq::empty(),
    }
}

/// The error that an argument that names no usable pattern gives: a text
/// that does not compile is a pattern error, anything else but a handle is
/// an argument error.
pub open spec fn regex_arg_error(v: ArgValue, e: RegexError) -> bool {
    match v {
        ArgValue::Text(_) => e is Pattern,
        _ => e is Argument,
    }
}

/// The cache is as it was: same patterns, no compilation.
pub open spec fn cache_unchanged(before: MatcherCache, after: MatcherCache) -> bool {
    after@ == before@ && after.compile_count() == before.compile_count()
}

/// What resolving argument `v` does to the cache: a text is looked up (and
/// compiled if it is new); anything else leaves the cache alone.
pub open spec fn cache_after(before: MatcherCache, after: MatcherCache, v: ArgValue) -> bool {
    match v {
        ArgValue::Text(s) => lookup_step(before, after, s@),
        _ => cache_unchanged(before, after),
    }
}

/// The matcher that argument `value` names: the handle itself, or the text
/// compiled through the cache.
pub fn value_regex(value: &ArgValue, cache: &mut MatcherCache) -> (r: Result<Matcher, RegexError>)
    requires
        old(cache).wf(),
    ensures
        final(cache).wf(),
        r.is_ok() == regex_arg_ok(*value),
        r matches Ok(m) ==> m@ == regex_arg_pattern(*value),
        r matches Err(e) ==> regex_arg_error(*value, e),
        cache_after(*old(cache), *final(cache), *value),
{
    match value {
        ArgValue::Regex(m) => Ok(m.share()),
        ArgValue::Text(s) => cache.get_or_compile(s.as_str()),
        _ => Err(RegexError::Argument("expected a pattern or a compiled regex".to_owned())),
    }
}

/// The compiled pattern set that argument `value` is a handle on.
pub fn value_regexset(value: &ArgValue) -> (r: Result<&MatcherSet, RegexError>)
    ensures
        (value is RegexSet) == r.is_ok(),
        r matches Ok(s) ==> *value == ArgValue::RegexSet(*s),
        r matches Err(e) ==> e is Argument,
{
    match value {
        ArgValue::RegexSet(s) => Ok(s),
        _ => Err(RegexError::Argument("value is not a regexset handle".to_owned())),
    }
}

/// Argument `at` is neither a handle nor memoised, so it is resolved as
/// text.
pub open spec fn compiles_from_text(
    vs: Seq<ArgValue>,
    at: int,
    slots: Seq<Option<Seq<char>>>,
) -> bool {
    &&& 0 <= at < vs.len()
    &&& !(vs[at] is Regex)
    &&& (at >= slots.len() || slots[at] is None)
}

/// The matcher for argument `at` of a call, tried in order: a handle passed
/// as the argument; the matcher in the memo slot of `at`; the argument's
/// text compiled through the cache. The second result says which it was.
pub fn regex_from_value_or_cache(
    values: &Vec<ArgValue>,
    at: usize,
    aux: &AuxSlots,
    cache: &mut MatcherCache,
) -> (r: Result<(Matcher, RegexInputType), RegexError>)
    requires
        old(cache).wf(),
    ensures
        final(cache).wf(),
        at >= values@.len() ==> (r matches Err(e) && e is Argument),
        at < values@.len() ==> {
            let v = values@[at as int];
            let slot = if at < aux@.len() { aux@[at as int] } else { None };
            &&& v is Regex ==> (r matches Ok(p) && p.0@ == regex_arg_pattern(v) && p.1
                == RegexInputType::Pointer)
            &&& !(v is Regex) && slot is Some ==> (r matches Ok(p) && Some(p.0@) == slot && p.1
                == RegexInputType::GetAuxdata)
            &&& !(v is Regex) && slot is None ==> {
                &&& r.is_ok() == regex_arg_ok(v)
                &&& r matches Ok(p) ==> p.0@ == regex_arg_pattern(v) && p.1
                    == RegexInputType::TextInitial(at)
                &&& r matches Err(e) ==> regex_arg_error(v, e)
            }
        },
        compiles_from_text(values@, at as int, aux@) ==> cache_after(
            *old(cache),
            *final(cache),
            values@[at as int],
        ),
        !compiles_from_text(values@, at as int, aux@) ==> cache_unchanged(
            *old(cache),
            *final(cache),
        ),
{
    if at >= values.len() {
        return Err(RegexError::Argument("expected a pattern argument".to_owned()));
    }
    let value = &values[at];
    if let ArgValue::Regex(m) = value {
        return Ok((m.share(), RegexInputType::Pointer));
    }
    match aux.get(at) {
        Some(m) => Ok((m, RegexInputType::GetAuxdata)),
        None => match value_regex(value, cache) {
            Ok(m) => Ok((m, RegexInputType::TextInitial(at))),
            Err(e) => Err(e),
        },
    }
}

/// Ends the call's use of `regex`: a matcher compiled for this call goes to
/// the memo slot of its argument; a borrowed one, or one the slot already
/// holds, is left alone.
pub fn cleanup_regex_value_cached(aux: &mut AuxSlots, regex: Matcher, input_type: RegexInputType)
    requires
        input_type matches RegexInputType::TextInitial(at) ==> at < old(aux)@.len(),
    ensures
        input_type matches RegexInputType::TextInitial(at) ==> final(aux)@ == old(aux)@.update(
            at as int,
            Some(regex@),
        ),
        !(input_type is TextInitial) ==> final(aux)@ == old(aux)@,
{
    match input_type {
        RegexInputType::TextInitial(at) => aux.set(at, regex),
        RegexInputType::Pointer => {},
        RegexInputType::GetAuxdata => {},
    }
}

/// The text of a text argument.
pub open spec fn arg_text(v: ArgValue) -> Seq<char> {
    match v {
        ArgValue::Text(s) => s@,
        _ => Seq::empty(),
    }
}

/// The arguments of a filter are a pattern (a handle, or a text that
/// compiles) and then a text to search.
pub open spec fn pattern_and_text_ok(vs: Seq<ArgValue>) -> bool {
    &&& vs.len() >= 2
    &&& regex_arg_ok(vs[0])
    &&& vs[1] is Text
}

/// The error that a filter's arguments give when they are not a pattern and
/// a text; the pattern is looked at first.
pub open spec fn pattern_and_text_error(vs: Seq<ArgValue>, e: RegexError) -> bool {
    if vs.len() < 2 {
        e is Argument
    } else if !regex_arg_ok(vs[0]) {
        regex_arg_error(vs[0], e)
    } else {
        e is Argument
    }
}

/// What a filter call does to the cache: its pattern argument is resolved
/// when there are both arguments.
pub open spec fn cache_after_args(
    before: MatcherCache,
    after: MatcherCache,
    vs: Seq<ArgValue>,
) -> bool {
    if vs.len() >= 2 {
        cache_after(before, after, vs[0])
    } else {
        cache_unchanged(before, after)
    }
}

/// The matcher and the subject text of a filter call.
pub fn pattern_and_text<'a>(values: &'a Vec<ArgValue>, cache: &mut MatcherCache) -> (r: Result<
    (Matcher, &'a str),
    RegexError,
>)
    requires
        old(cache).wf(),
    ensures
        final(cache).wf(),
        r.is_ok() == pattern_and_text_ok(values@),
        r matches Ok(p) ==> p.0@ == regex_arg_pattern(values@[0]) && p.1@ == arg_text(values@[1]),
        r matches Err(e) ==> pattern_and_text_error(values@, e),
        cache_after_args(*old(cache), *final(cache), values@),
{
    if values.len() < 2 {
        return Err(RegexError::Argument("expected a pattern and a text".to_owned()));
    }
    let m = value_regex(&values[0], cache)?;
    match &values[1] {
        ArgValue::Text(s) => Ok((m, s.as_str())),
        _ => Err(RegexError::Argument("expected the contents as text".to_owned())),
    }
}

/// A compiled handle for the pattern text `pattern`, owned by whoever
/// receives it.
pub fn regex_handle(value: &ArgValue) -> (r: Result<Matcher, RegexError>)
    ensures
        r.is_ok() == (value matches ArgValue::Text(s) && compiles(s@)),
        r matches Ok(m) ==> m@ == regex_arg_pattern(*value),
        r matches Err(e) ==> (value is Text ==> e is Pattern) && (!(value is Text)
            ==> e is Argument),
{
    match value {
        ArgValue::Text(s) => match Matcher::compile(s.as_str()) {
            Ok(m) => Ok(m),
            Err(message) => Err(RegexError::Pattern { pattern: s.clone(), message }),
        },
        _ => Err(RegexError::Argument("expected a pattern".to_owned())),
    }
}

/// The texts of a list of arguments that must all be texts.
pub open spec fn all_text(values: Seq<ArgValue>) -> bool {
    forall|i: int| 0 <= i < values.len() ==> #[trigger] values[i] is Text
}

/// The pattern texts of a list of text arguments.
pub open spec fn texts_of(values: Seq<ArgValue>) -> Seq<Seq<char>> {
    Seq::new(values.len(), |i: int| regex_arg_pattern(values[i]))
}

/// A compiled pattern set from pattern texts, in argument order.
pub fn regexset(values: &Vec<ArgValue>) -> (r: Result<MatcherSet, RegexError>)
    ensures
        r.is_ok() == (all_text(values@) && set_compiles(texts_of(values@))),
        r matches Ok(s) ==> s@ == texts_of(values@),
        r matches Err(e) ==> (all_text(values@) ==> e is Pattern) && (!all_text(values@)
            ==> e is Argument),
{
    let mut patterns: Vec<String> = Vec::new();
    let mut i: usize = 0;
    while i < values.len()
        invariant
            i <= values@.len(),
            patterns@.len() == i,
            forall|j: int| 0 <= j < i ==> #[trigger] values@[j] is Text,
            forall|j: int|
                0 <= j < i ==> (#[trigger] patterns@[j])@ == regex_arg_pattern(values@[j]),
        decreases values@.len() - i,
    {
        match &values[i] {
            ArgValue::Text(s) => patterns.push(s.clone()),
            _ => {
                return Err(RegexError::Argument("every regexset member must be text".to_owned()));
            },
        }
        i = i + 1;
    }
    assert(patterns.deep_view() =~= texts_of(values@));
    match MatcherSet::compile(patterns) {
        Ok(s) => Ok(s),
        Err(message) => Err(
            RegexError::Pattern { pattern: "regexset".to_owned(), message },
        ),
    }
}

} // verus!
