//! The scalar functions: each resolves its pattern through the handle
//! protocol, asks the engine one question, and returns one value.
use vstd::prelude::*;
use vstd::string::*;
use vstd::utf8::*;

use crate::cache::MatcherCache;
use crate::captures::{
    build_capture_table, capture_lookup, capture_table, lookup, opt_texts, table_view,
    CaptureGroup, CaptureGroupKey, GroupKey,
};
use crate::error::RegexError;
use crate::handle::{
    arg_text, cache_after, cache_unchanged, cleanup_regex_value_cached, regex_arg_ok,
    regex_arg_pattern,
    regex_from_value_or_cache, value_regex, value_regexset, ArgValue, AuxSlots,
};
use crate::matcher::{
    compiles, group_names, group_texts, match_from, match_spans, matches_somewhere,
    matching_members, opt_text, replaced_all, replaced_first, byte_slice, Matcher,
};

verus! {

broadcast use vstd::utf8::group_utf8_lib;

/// The memo slot of argument `at`, if the call site has one.
pub open spec fn slot_of(slots: Seq<Option<Seq<char>>>, at: int) -> Option<Seq<char>> {
    if 0 <= at < slots.len() {
        slots[at]
    } else {
        None
    }
}

/// The first argument yields a matcher: it is a handle, its memo slot holds
/// one, or it is a text that compiles.
pub open spec fn resolves(vs: Seq<ArgValue>, slots: Seq<Option<Seq<char>>>) -> bool {
    &&& vs.len() >= 1
    &&& (vs[0] is Regex || slot_of(slots, 0) is Some || regex_arg_ok(vs[0]))
}

/// The pattern text of the matcher that the first argument yields.
pub open spec fn resolved_pattern(vs: Seq<ArgValue>, slots: Seq<Option<Seq<char>>>) -> Seq<char> {
    if vs[0] is Regex {
        regex_arg_pattern(vs[0])
    } else if slot_of(slots, 0) is Some {
        slot_of(slots, 0)->Some_0
    } else {
        regex_arg_pattern(vs[0])
    }
}

/// The memo slots after a call: a matcher compiled from the text of the
/// first argument is kept in its slot.
pub open spec fn memo_after(vs: Seq<ArgValue>, slots: Seq<Option<Seq<char>>>) -> Seq<
    Option<Seq<char>>,
> {
    if vs.len() >= 1 && !(vs[0] is Regex) && slot_of(slots, 0) is None && regex_arg_ok(vs[0])
        && slots.len() > 0 {
        slots.update(0, Some(regex_arg_pattern(vs[0])))
    } else {
        slots
    }
}

/// What resolving the first argument does to the cache: only a text that
/// is neither a handle nor memoised is looked up.
pub open spec fn resolve_cache_step(
    before: MatcherCache,
    after: MatcherCache,
    vs: Seq<ArgValue>,
    slots: Seq<Option<Seq<char>>>,
) -> bool {
    if vs.len() >= 1 && !(vs[0] is Regex) && slot_of(slots, 0) is None {
        cache_after(before, after, vs[0])
    } else {
        cache_unchanged(before, after)
    }
}

/// The matcher for the first argument of a scalar call, resolved in the
/// protocol's order; one compiled here is left in the memo slot.
pub fn matcher_arg(values: &Vec<ArgValue>, aux: &mut AuxSlots, cache: &mut MatcherCache) -> (r:
    Result<Matcher, RegexError>)
    requires
        old(cache).wf(),
    ensures
        final(cache).wf(),
        r.is_ok() == resolves(values@, old(aux)@),
        r matches Ok(m) ==> m@ == resolved_pattern(values@, old(aux)@),
        final(aux)@ == memo_after(values@, old(aux)@),
        resolve_cache_step(*old(cache), *final(cache), values@, old(aux)@),
{
    let (m, input_type) = regex_from_value_or_cache(values, 0, aux, cache)?;
    if 0 < aux.len() {
        cleanup_regex_value_cached(aux, m.share(), input_type);
    }
    Ok(m)
}

/// The text of argument `at`.
fn text_arg(values: &Vec<ArgValue>, at: usize) -> (r: Result<&str, RegexError>)
    ensures
        r.is_ok() == (at < values@.len() && values@[at as int] is Text),
        r matches Ok(s) ==> s@ == arg_text(values@[at as int]),
        r matches Err(e) ==> e is Argument,
{
    if at < values.len() {
        if let ArgValue::Text(s) = &values[at] {
            return Ok(s.as_str());
        }
    }
    Err(RegexError::Argument("expected a text argument".to_owned()))
}

/// Argument `at` is a text.
pub open spec fn text_at(vs: Seq<ArgValue>, at: int) -> bool {
    0 <= at < vs.len() && vs[at] is Text
}

/// `regex_matches(pattern, contents)`: whether the pattern matches
/// somewhere in the contents.
pub fn regex_matches(values: &Vec<ArgValue>, aux: &mut AuxSlots, cache: &mut MatcherCache) -> (r:
    Result<bool, RegexError>)
    requires
        old(cache).wf(),
    ensures
        final(cache).wf(),
        r.is_ok() == (resolves(values@, old(aux)@) && text_at(values@, 1)),
        r matches Ok(b) ==> b == matches_somewhere(
            resolved_pattern(values@, old(aux)@),
            arg_text(values@[1]),
        ),
        final(aux)@ == memo_after(values@, old(aux)@),
        resolve_cache_step(*old(cache), *final(cache), values@, old(aux)@),
{
    let m = matcher_arg(values, aux, cache)?;
    let contents = text_arg(values, 1)?;
    Ok(m.is_match(contents))
}

/// `regexp(pattern, contents)`, the engine's `REGEXP` operator: the same as
/// `regex_matches`.
pub fn regexp(values: &Vec<ArgValue>, aux: &mut AuxSlots, cache: &mut MatcherCache) -> (r: Result<
    bool,
    RegexError,
>)
    requires
        old(cache).wf(),
    ensures
        final(cache).wf(),
        r.is_ok() == (resolves(values@, old(aux)@) && text_at(values@, 1)),
        r matches Ok(b) ==> b == matches_somewhere(
            resolved_pattern(values@, old(aux)@),
            arg_text(values@[1]),
        ),
        final(aux)@ == memo_after(values@, old(aux)@),
        resolve_cache_step(*old(cache), *final(cache), values@, old(aux)@),
{
    regex_matches(values, aux, cache)
}

/// `regex_valid(pattern)`: whether the text compiles.
pub fn regex_valid(values: &Vec<ArgValue>) -> (r: Result<bool, RegexError>)
    ensures
        r.is_ok() == text_at(values@, 0),
        r matches Ok(b) ==> b == compiles(arg_text(values@[0])),
        r matches Err(e) ==> e is Argument,
{
    let pattern = text_arg(values, 0)?;
    Ok(Matcher::compile(pattern).is_ok())
}

/// The text of a byte range of the subject.
pub open spec fn span_text(subject: Seq<char>, span: (usize, usize)) -> Seq<char> {
    decode_utf8(encode_utf8(subject).subrange(span.0 as int, span.1 as int))
}

/// The text of the leftmost-first match, if there is one.
pub open spec fn first_match_text(pattern: Seq<char>, subject: Seq<char>) -> Option<Seq<char>> {
    if match_spans(pattern, subject).len() == 0 {
        None
    } else {
        Some(span_text(subject, match_spans(pattern, subject)[0]))
    }
}

/// `regex_find(pattern, contents)`: the text of the first match, if any.
pub fn regex_find(values: &Vec<ArgValue>, aux: &mut AuxSlots, cache: &mut MatcherCache) -> (r:
    Result<Option<String>, RegexError>)
    requires
        old(cache).wf(),
    ensures
        final(cache).wf(),
        r.is_ok() == (resolves(values@, old(aux)@) && text_at(values@, 1)),
        r matches Ok(o) ==> opt_text(o) == first_match_text(
            resolved_pattern(values@, old(aux)@),
            arg_text(values@[1]),
        ),
        final(aux)@ == memo_after(values@, old(aux)@),
        resolve_cache_step(*old(cache), *final(cache), values@, old(aux)@),
{
    let m = matcher_arg(values, aux, cache)?;
    let contents = text_arg(values, 1)?;
    match m.first_span(contents) {
        Some((s, e)) => {
            let t = byte_slice(contents, s, e);
            proof {
                encode_utf8_decode_utf8(t@);
            }
            Ok(Some(t))
        },
        None => Ok(None),
    }
}

/// The offset argument of `regex_find_at` lies in the subject.
pub open spec fn offset_ok(vs: Seq<ArgValue>) -> bool {
    &&& vs.len() >= 3
    &&& vs[2] matches ArgValue::Integer(i) && 0 <= i && i as int <= encode_utf8(
        arg_text(vs[1]),
    ).len()
}

/// The text of the match that a search from `start` finds, if any.
pub open spec fn match_from_text(pattern: Seq<char>, subject: Seq<char>, start: nat) -> Option<
    Seq<char>,
> {
    match match_from(pattern, subject, start) {
        Some(sp) => Some(span_text(subject, sp)),
        None => None,
    }
}

/// `regex_find_at(pattern, contents, offset)`: the text of the first match
/// found from byte `offset`, the text before it serving as context. An
/// offset outside the contents is an argument error.
pub fn regex_find_at(values: &Vec<ArgValue>, aux: &mut AuxSlots, cache: &mut MatcherCache) -> (r:
    Result<Option<String>, RegexError>)
    requires
        old(cache).wf(),
    ensures
        final(cache).wf(),
        r.is_ok() == (resolves(values@, old(aux)@) && text_at(values@, 1) && offset_ok(values@)),
        r matches Ok(o) ==> values@[2] matches ArgValue::Integer(i) && opt_text(o)
            == match_from_text(
            resolved_pattern(values@, old(aux)@),
            arg_text(values@[1]),
            i as nat,
        ),
        final(aux)@ == memo_after(values@, old(aux)@),
        resolve_cache_step(*old(cache), *final(cache), values@, old(aux)@),
{
    let m = matcher_arg(values, aux, cache)?;
    let contents = text_arg(values, 1)?;
    let offset: usize = if values.len() >= 3 {
        match &values[2] {
            ArgValue::Integer(i) => {
                let i = *i;
                if i < 0 || i as i128 > contents.as_bytes().len() as i128 {
                    return Err(RegexError::Argument("offset outside the contents".to_owned()));
                }
                i as usize
            },
            _ => {
                return Err(RegexError::Argument("expected the offset as an integer".to_owned()));
            },
        }
    } else {
        return Err(RegexError::Argument("expected an offset argument".to_owned()));
    };
    match m.span_from(contents, offset) {
        Some((s, e)) => {
            let t = byte_slice(contents, s, e);
            proof {
                encode_utf8_decode_utf8(t@);
            }
            Ok(Some(t))
        },
        None => Ok(None),
    }
}

/// `regex_replace(pattern, contents, replacement)`: the contents with the
/// first match replaced.
pub fn regex_replace(values: &Vec<ArgValue>, aux: &mut AuxSlots, cache: &mut MatcherCache) -> (r:
    Result<String, RegexError>)
    requires
        old(cache).wf(),
    ensures
        final(cache).wf(),
        r.is_ok() == (resolves(values@, old(aux)@) && text_at(values@, 1) && text_at(values@, 2)),
        r matches Ok(s) ==> s@ == replaced_first(
            resolved_pattern(values@, old(aux)@),
            arg_text(values@[1]),
            arg_text(values@[2]),
        ),
        final(aux)@ == memo_after(values@, old(aux)@),
        resolve_cache_step(*old(cache), *final(cache), values@, old(aux)@),
{
    let m = matcher_arg(values, aux, cache)?;
    let contents = text_arg(values, 1)?;
    let replacement = text_arg(values, 2)?;
    Ok(m.replace_first(contents, replacement))
}

/// `regex_replace_all(pattern, contents, replacement)`: the contents with
/// every match replaced.
pub fn regex_replace_all(
    values: &Vec<ArgValue>,
    aux: &mut AuxSlots,
    cache: &mut MatcherCache,
) -> (r: Result<String, RegexError>)
    requires
        old(cache).wf(),
    ensures
        final(cache).wf(),
        r.is_ok() == (resolves(values@, old(aux)@) && text_at(values@, 1) && text_at(values@, 2)),
        r matches Ok(s) ==> s@ == replaced_all(
            resolved_pattern(values@, old(aux)@),
            arg_text(values@[1]),
            arg_text(values@[2]),
        ),
        final(aux)@ == memo_after(values@, old(aux)@),
        resolve_cache_step(*old(cache), *final(cache), values@, old(aux)@),
{
    let m = matcher_arg(values, aux, cache)?;
    let contents = text_arg(values, 1)?;
    let replacement = text_arg(values, 2)?;
    Ok(m.replace_every(contents, replacement))
}

/// The group an argument addresses: a non-negative integer by index, a text
/// by name; a negative integer addresses none.
pub open spec fn group_key_of(v: ArgValue) -> Option<GroupKey> {
    match v {
        ArgValue::Integer(i) => if i >= 0 {
            Some(GroupKey::Index(i as usize))
        } else {
            None
        },
        ArgValue::Text(s) => Some(GroupKey::Name(s@)),
        _ => None,
    }
}

/// The argument can address a group.
pub open spec fn group_arg_ok(v: ArgValue) -> bool {
    v is Integer || v is Text
}

/// The key that a group argument gives.
fn group_key_arg(v: &ArgValue) -> (r: Result<Option<CaptureGroupKey>, RegexError>)
    ensures
        r.is_ok() == group_arg_ok(*v),
        r matches Ok(k) ==> match k {
            Some(key) => group_key_of(*v) == Some(key@),
            None => group_key_of(*v) is None,
        },
        r matches Err(e) ==> e is Argument,
{
    match v {
        ArgValue::Integer(i) => {
            if *i >= 0 {
                Ok(Some(CaptureGroupKey::Index(*i as usize)))
            } else {
                Ok(None)
            }
        },
        ArgValue::Text(s) => Ok(Some(CaptureGroupKey::Name(s.clone()))),
        _ => Err(RegexError::Argument("expected a group index or name".to_owned())),
    }
}

/// The text of a group of the first match, looked up in its capture table;
/// none if nothing matched.
pub open spec fn first_capture(
    pattern: Seq<char>,
    subject: Seq<char>,
    key: Option<GroupKey>,
) -> Option<Seq<char>> {
    if group_texts(pattern, subject).len() == 0 {
        None
    } else {
        match key {
            Some(k) => lookup(
                capture_table(group_names(pattern), group_texts(pattern, subject)[0]),
                k,
            ),
            None => None,
        }
    }
}

/// `regex_capture(pattern, contents, group)`: the text of a capture group,
/// by index or by name, of the first match.
pub fn regex_capture(values: &Vec<ArgValue>, aux: &mut AuxSlots, cache: &mut MatcherCache) -> (r:
    Result<Option<String>, RegexError>)
    requires
        old(cache).wf(),
    ensures
        final(cache).wf(),
        r.is_ok() == (resolves(values@, old(aux)@) && text_at(values@, 1) && values@.len() >= 3
            && group_arg_ok(values@[2])),
        r matches Ok(o) ==> opt_text(o) == first_capture(
            resolved_pattern(values@, old(aux)@),
            arg_text(values@[1]),
            group_key_of(values@[2]),
        ),
        final(aux)@ == memo_after(values@, old(aux)@),
        resolve_cache_step(*old(cache), *final(cache), values@, old(aux)@),
{
    let m = matcher_arg(values, aux, cache)?;
    let contents = text_arg(values, 1)?;
    if values.len() < 3 {
        return Err(RegexError::Argument("expected a group index or name".to_owned()));
    }
    let key = group_key_arg(&values[2])?;
    match m.first_captures(contents) {
        None => Ok(None),
        Some(groups) => {
            let names = m.capture_names();
            assert(opt_texts(names@) =~= group_names(m@));
            assert(opt_texts(groups@) =~= group_texts(m@, contents@)[0]);
            let table = build_capture_table(&names, &groups);
            match key {
                Some(k) => Ok(capture_lookup(&table, &k)),
                None => Ok(None),
            }
        },
    }
}

/// `regex_capture(captures, group)`: the text of a group, by index or by
/// name, in a capture table that the capture-groups function produced.
pub fn regex_capture2(captures: &Vec<CaptureGroup>, group: &ArgValue) -> (r: Result<
    Option<String>,
    RegexError,
>)
    ensures
        r.is_ok() == group_arg_ok(*group),
        r matches Ok(o) ==> opt_text(o) == match group_key_of(*group) {
            Some(k) => lookup(table_view(captures@), k),
            None => None,
        },
        r matches Err(e) ==> e is Argument,
{
    match group_key_arg(group)? {
        Some(k) => Ok(capture_lookup(captures, &k)),
        None => Ok(None),
    }
}

/// `regex_print(pattern)`: the pattern text of a handle, or of a text that
/// compiles.
pub fn regex_print(value: &ArgValue, cache: &mut MatcherCache) -> (r: Result<String, RegexError>)
    requires
        old(cache).wf(),
    ensures
        final(cache).wf(),
        r.is_ok() == regex_arg_ok(*value),
        r matches Ok(s) ==> s@ == regex_arg_pattern(*value),
        cache_after(*old(cache), *final(cache), *value),
{
    let m = value_regex(value, cache)?;
    Ok(m.as_str().to_owned())
}

/// `regexset_print(set)`: the patterns of a set handle, in order.
pub fn regexset_print(value: &ArgValue) -> (r: Result<Vec<String>, RegexError>)
    ensures
        r.is_ok() == (value is RegexSet),
        r matches Ok(l) ==> value matches ArgValue::RegexSet(s) && l.deep_view() == s@,
        r matches Err(e) ==> e is Argument,
{
    let set = value_regexset(value)?;
    Ok(crate::set_matches::clone_texts(set.patterns()))
}

/// `regexset_is_match(set, contents)`: whether some member of the set
/// matches the contents.
pub fn regexset_is_match(values: &Vec<ArgValue>) -> (r: Result<bool, RegexError>)
    ensures
        r.is_ok() == (values@.len() >= 2 && values@[0] is RegexSet && text_at(values@, 1)),
        r matches Ok(b) ==> values@[0] matches ArgValue::RegexSet(s) && b == (matching_members(
            s@,
            arg_text(values@[1]),
        ).len() > 0),
        r matches Err(e) ==> e is Argument,
{
    if values.len() < 2 {
        return Err(RegexError::Argument("expected a regexset and a text".to_owned()));
    }
    let set = value_regexset(&values[0])?;
    let contents = text_arg(values, 1)?;
    Ok(set.is_match(contents))
}

} // verus!
