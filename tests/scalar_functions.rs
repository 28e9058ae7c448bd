use sqlite_regex::{
    capture_lookup, regex_capture, regex_capture2, regex_find, regex_find_at,
    regex_from_value_or_cache, regex_handle, regex_matches, regex_print, regex_replace,
    regex_replace_all, regex_valid, regexp, regexset, regexset_is_match, regexset_print,
    cleanup_regex_value_cached, value_regex, value_regexset, ArgValue, AuxSlots, CaptureGroup,
    CaptureGroupKey, MatcherCache, RegexError, RegexInputType,
};

fn text(s: &str) -> ArgValue {
    ArgValue::Text(s.to_string())
}

fn pattern_of(v: &ArgValue) -> ArgValue {
    match v {
        ArgValue::Text(s) => ArgValue::Text(s.clone()),
        _ => panic!("not a text"),
    }
}

#[test]
fn matches_and_regexp_agree() {
    let mut cache = MatcherCache::new();
    let mut aux = AuxSlots::new(2);
    let args = vec![text("^a.c$"), text("abc")];
    assert_eq!(regex_matches(&args, &mut aux, &mut cache).unwrap(), true);
    let mut aux = AuxSlots::new(2);
    assert_eq!(regexp(&vec![text("^a.c$"), text("abd")], &mut aux, &mut cache).unwrap(), false);
}

#[test]
fn compiled_text_is_memoised_in_its_slot() {
    let mut cache = MatcherCache::new();
    let mut aux = AuxSlots::new(2);
    let args = vec![text("b+"), text("abbc")];
    assert!(aux.get(0).is_none());
    assert_eq!(regex_find(&args, &mut aux, &mut cache).unwrap(), Some("bb".to_string()));
    assert_eq!(aux.get(0).unwrap().as_str(), "b+");
    assert!(aux.get(1).is_none());
    let (m, kind) = regex_from_value_or_cache(&args, 0, &aux, &mut cache).unwrap();
    assert_eq!(kind, RegexInputType::GetAuxdata);
    assert_eq!(m.as_str(), "b+");
    assert_eq!(cache.compilations(), 1);
}

#[test]
fn handle_protocol_priority() {
    let mut cache = MatcherCache::new();
    let handle = regex_handle(&text("x")).unwrap();
    let mut aux = AuxSlots::new(1);
    let (m, kind) =
        regex_from_value_or_cache(&vec![ArgValue::Regex(handle), text("x")], 0, &aux, &mut cache)
            .unwrap();
    assert_eq!(kind, RegexInputType::Pointer);
    assert_eq!(m.as_str(), "x");
    assert_eq!(cache.len(), 0);
    cleanup_regex_value_cached(&mut aux, m, kind);
    assert!(aux.get(0).is_none());

    let (m, kind) = regex_from_value_or_cache(&vec![text("y")], 0, &aux, &mut cache).unwrap();
    assert_eq!(kind, RegexInputType::TextInitial(0));
    assert!(cache.contains("y"));
    cleanup_regex_value_cached(&mut aux, m, kind);
    assert_eq!(aux.get(0).unwrap().as_str(), "y");

    assert!(matches!(
        regex_from_value_or_cache(&vec![text("y")], 3, &aux, &mut cache),
        Err(RegexError::Argument(_))
    ));
    let empty = AuxSlots::new(1);
    assert!(matches!(
        regex_from_value_or_cache(&vec![text("[")], 0, &empty, &mut cache),
        Err(RegexError::Pattern { .. })
    ));
}

#[test]
fn find_and_find_at() {
    let mut cache = MatcherCache::new();
    let mut aux = AuxSlots::new(3);
    let args = vec![text(r"\d+"), text("ab 42 7")];
    assert_eq!(regex_find(&args, &mut aux, &mut cache).unwrap(), Some("42".to_string()));
    let mut aux = AuxSlots::new(3);
    assert_eq!(regex_find(&vec![text(r"\d+"), text("none")], &mut aux, &mut cache).unwrap(), None);
    let mut aux = AuxSlots::new(3);
    assert_eq!(
        regex_find_at(&vec![text(r"\d+"), text("ab 42 7"), ArgValue::Integer(5)], &mut aux, &mut cache)
            .unwrap(),
        Some("7".to_string())
    );
    let mut aux = AuxSlots::new(3);
    assert_eq!(
        regex_find_at(&vec![text(r"\bchew\b"), text("eschew"), ArgValue::Integer(2)], &mut aux, &mut cache)
            .unwrap(),
        None
    );
    let mut aux = AuxSlots::new(3);
    assert!(matches!(
        regex_find_at(&vec![text("a"), text("abc"), ArgValue::Integer(4)], &mut aux, &mut cache),
        Err(RegexError::Argument(_))
    ));
    let mut aux = AuxSlots::new(3);
    assert!(matches!(
        regex_find_at(&vec![text("a"), text("abc"), ArgValue::Integer(-1)], &mut aux, &mut cache),
        Err(RegexError::Argument(_))
    ));
}

#[test]
fn replace_first_and_all() {
    let mut cache = MatcherCache::new();
    let mut aux = AuxSlots::new(3);
    let args = vec![text(r"(\w)(\d)"), text("a1 b2 c3"), text("$2$1")];
    assert_eq!(regex_replace(&args, &mut aux, &mut cache).unwrap(), "1a b2 c3");
    assert_eq!(regex_replace_all(&args, &mut aux, &mut cache).unwrap(), "1a 2b 3c");
    assert!(matches!(
        regex_replace(&vec![text("a"), text("b")], &mut aux, &mut cache),
        Err(RegexError::Argument(_))
    ));
}

#[test]
fn valid_and_print() {
    assert_eq!(regex_valid(&vec![text("a+")]).unwrap(), true);
    assert_eq!(regex_valid(&vec![text("(")]).unwrap(), false);
    assert!(matches!(regex_valid(&vec![ArgValue::Integer(1)]), Err(RegexError::Argument(_))));
    let mut cache = MatcherCache::new();
    assert_eq!(regex_print(&text("a|b"), &mut cache).unwrap(), "a|b");
    assert!(matches!(regex_print(&ArgValue::Null, &mut cache), Err(RegexError::Argument(_))));
    assert!(matches!(regex_handle(&text("(")), Err(RegexError::Pattern { .. })));
}

#[test]
fn capture_by_index_and_name() {
    let mut cache = MatcherCache::new();
    let pattern = text(r"(?P<key>\w+)=(\w+)?");
    let mut aux = AuxSlots::new(3);
    let by_name = vec![pattern_of(&pattern), text("x a=1 b=2"), text("key")];
    assert_eq!(regex_capture(&by_name, &mut aux, &mut cache).unwrap(), Some("a".to_string()));
    let mut aux = AuxSlots::new(3);
    let by_index = vec![pattern_of(&pattern), text("x a=1"), ArgValue::Integer(2)];
    assert_eq!(regex_capture(&by_index, &mut aux, &mut cache).unwrap(), Some("1".to_string()));
    let mut aux = AuxSlots::new(3);
    let absent = vec![pattern_of(&pattern), text("a= "), ArgValue::Integer(2)];
    assert_eq!(regex_capture(&absent, &mut aux, &mut cache).unwrap(), None);
    let mut aux = AuxSlots::new(3);
    let no_match = vec![pattern_of(&pattern), text("   "), ArgValue::Integer(0)];
    assert_eq!(regex_capture(&no_match, &mut aux, &mut cache).unwrap(), None);
    let mut aux = AuxSlots::new(3);
    let unknown = vec![pattern_of(&pattern), text("a=1"), text("nope")];
    assert_eq!(regex_capture(&unknown, &mut aux, &mut cache).unwrap(), None);
}

#[test]
fn capture_lookup_in_a_table() {
    let table = vec![
        CaptureGroup { key: CaptureGroupKey::Name("k".to_string()), value: Some("a".to_string()) },
        CaptureGroup { key: CaptureGroupKey::Index(0), value: Some("a=1".to_string()) },
        CaptureGroup { key: CaptureGroupKey::Index(1), value: Some("a".to_string()) },
        CaptureGroup { key: CaptureGroupKey::Index(2), value: None },
    ];
    assert_eq!(regex_capture2(&table, &text("k")).unwrap(), Some("a".to_string()));
    assert_eq!(regex_capture2(&table, &ArgValue::Integer(0)).unwrap(), Some("a=1".to_string()));
    assert_eq!(regex_capture2(&table, &ArgValue::Integer(2)).unwrap(), None);
    assert_eq!(regex_capture2(&table, &ArgValue::Integer(-1)).unwrap(), None);
    assert_eq!(regex_capture2(&table, &ArgValue::Integer(9)).unwrap(), None);
    assert!(matches!(regex_capture2(&table, &ArgValue::Null), Err(RegexError::Argument(_))));
    assert_eq!(capture_lookup(&table, &CaptureGroupKey::Index(1)), Some("a".to_string()));
}

#[test]
fn regexset_scalars() {
    let set = regexset(&vec![text("a"), text(r"\d")]).unwrap();
    let handle = ArgValue::RegexSet(set);
    assert_eq!(regexset_print(&handle).unwrap(), vec!["a".to_string(), r"\d".to_string()]);
    assert!(value_regexset(&handle).is_ok());
    let args = vec![handle, text("xyz9")];
    assert_eq!(regexset_is_match(&args).unwrap(), true);
    let set = regexset(&vec![text("a"), text(r"\d")]).unwrap();
    assert_eq!(regexset_is_match(&vec![ArgValue::RegexSet(set), text("xyz")]).unwrap(), false);
    assert!(matches!(regexset(&vec![text("a"), text("(")]), Err(RegexError::Pattern { .. })));
    assert!(matches!(regexset(&vec![text("a"), ArgValue::Null]), Err(RegexError::Argument(_))));
    assert!(matches!(regexset_print(&text("a")), Err(RegexError::Argument(_))));
}

#[test]
fn value_regex_uses_the_cache() {
    let mut cache = MatcherCache::new();
    let a = value_regex(&text("q+"), &mut cache).unwrap();
    let b = value_regex(&text("q+"), &mut cache).unwrap();
    assert_eq!(a.as_str(), b.as_str());
    assert_eq!(cache.compilations(), 1);
    assert!(matches!(value_regex(&ArgValue::Integer(1), &mut cache), Err(RegexError::Argument(_))));
}
