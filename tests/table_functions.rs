use sqlite_regex::{
    ArgValue, CaptureGroup, CaptureGroupKey, ColumnValue, ConstraintOp, IndexConstraint,
    MatcherCache, MatcherSet, PlanError, RegexCapturesCursor, RegexCapturesTable, RegexError,
    RegexFindAllCursor, RegexFindAllTable, RegexSetMatchesTable, RegexSplitCursor,
    RegexSplitTable, FIND_ALL_CONTENTS, FIND_ALL_PATTERN,
};

fn text(s: &str) -> ArgValue {
    ArgValue::Text(s.to_string())
}

fn find_all_rows(cursor: &mut RegexFindAllCursor) -> Vec<(usize, usize, String)> {
    let mut rows = vec![];
    while !cursor.eof() {
        let start = match cursor.column(0).unwrap() {
            ColumnValue::Integer(n) => n,
            _ => panic!("start is not an integer"),
        };
        let end = match cursor.column(1).unwrap() {
            ColumnValue::Integer(n) => n,
            _ => panic!("end is not an integer"),
        };
        let m = match cursor.column(2).unwrap() {
            ColumnValue::Text(t) => t,
            _ => panic!("match is not text"),
        };
        rows.push((start, end, m));
        cursor.next();
    }
    rows
}

fn split_rows(cursor: &mut RegexSplitCursor) -> Vec<String> {
    let mut rows = vec![];
    while !cursor.eof() {
        match cursor.column(0).unwrap() {
            ColumnValue::Text(t) => rows.push(t),
            _ => panic!("item is not text"),
        }
        cursor.next();
    }
    rows
}

fn eq_constraint(column: i32) -> IndexConstraint {
    IndexConstraint { column, op: ConstraintOp::Eq, usable: true, omit: false, argv_index: 0 }
}

#[test]
fn find_all_digits() {
    let mut cache = MatcherCache::new();
    let mut cursor = RegexFindAllTable::connect().1.open();
    cursor.filter(2, &vec![text("[0-9]+"), text("a12b345c")], &mut cache).unwrap();
    assert_eq!(
        find_all_rows(&mut cursor),
        vec![(1, 3, "12".to_string()), (4, 7, "345".to_string())]
    );
}

#[test]
fn find_all_byte_offsets_of_multibyte_text() {
    let mut cache = MatcherCache::new();
    let mut cursor = RegexFindAllCursor::new();
    cursor.filter(2, &vec![text("b+"), text("äbbüb")], &mut cache).unwrap();
    assert_eq!(
        find_all_rows(&mut cursor),
        vec![(2, 4, "bb".to_string()), (6, 7, "b".to_string())]
    );
}

#[test]
fn find_all_rows_slice_the_subject() {
    let subject = "one 22 three 4444 five";
    let mut cache = MatcherCache::new();
    let mut cursor = RegexFindAllCursor::new();
    cursor.filter(2, &vec![text(r"\d+|e"), text(subject)], &mut cache).unwrap();
    let rows = find_all_rows(&mut cursor);
    assert!(rows.len() > 2);
    for w in rows.windows(2) {
        assert!(w[0].1 <= w[1].0);
        assert!(w[0].0 < w[1].0);
    }
    for (s, e, m) in rows {
        assert_eq!(&subject[s..e], m);
    }
}

#[test]
fn split_digits() {
    let mut cache = MatcherCache::new();
    let mut cursor = RegexSplitTable::connect().1.open();
    cursor.filter(2, &vec![text("[0-9]+"), text("a12b345c")], &mut cache).unwrap();
    assert_eq!(split_rows(&mut cursor), vec!["a", "b", "c"]);
}

#[test]
fn split_keeps_empty_edge_pieces() {
    let mut cache = MatcherCache::new();
    let mut cursor = RegexSplitCursor::new();
    cursor.filter(2, &vec![text(" +"), text("  a b ")], &mut cache).unwrap();
    assert_eq!(split_rows(&mut cursor), vec!["", "a", "b", ""]);
}

#[test]
fn split_on_empty_pattern_terminates() {
    let mut cache = MatcherCache::new();
    let mut cursor = RegexSplitCursor::new();
    cursor.filter(2, &vec![text(""), text("rust")], &mut cache).unwrap();
    assert_eq!(split_rows(&mut cursor), vec!["", "r", "u", "s", "t", ""]);
}

#[test]
fn split_rejoined_with_matches_gives_subject() {
    let subject = "x1yy22zzz333";
    let mut cache = MatcherCache::new();
    let mut split = RegexSplitCursor::new();
    split.filter(2, &vec![text("[0-9]"), text(subject)], &mut cache).unwrap();
    let pieces = split_rows(&mut split);
    let mut find = RegexFindAllCursor::new();
    find.filter(2, &vec![text("[0-9]"), text(subject)], &mut cache).unwrap();
    let seps = find_all_rows(&mut find);
    assert_eq!(pieces.len(), seps.len() + 1);
    let mut joined = pieces[0].clone();
    for (i, sep) in seps.iter().enumerate() {
        joined.push_str(&sep.2);
        joined.push_str(&pieces[i + 1]);
    }
    assert_eq!(joined, subject);
}

#[test]
fn invalid_pattern_is_never_cached() {
    let mut cache = MatcherCache::new();
    match cache.get_or_compile("(") {
        Err(RegexError::Pattern { pattern, message }) => {
            assert_eq!(pattern, "(");
            assert!(!message.is_empty());
        }
        _ => panic!("expected a pattern error"),
    }
    assert_eq!(cache.len(), 0);
    assert!(!cache.contains("("));
    assert!(cache.get_or_compile("(").is_err());
    assert_eq!(cache.compilations(), 2);
    assert_eq!(cache.len(), 0);
}

#[test]
fn cache_compiles_a_pattern_once() {
    let mut cache = MatcherCache::new();
    let a = cache.get_or_compile("[a-z]+").unwrap();
    let b = cache.get_or_compile("[a-z]+").unwrap();
    assert_eq!(cache.compilations(), 1);
    assert_eq!(cache.len(), 1);
    assert_eq!(a.as_str(), b.as_str());
    let mut c1 = RegexFindAllCursor::new();
    let mut c2 = RegexFindAllCursor::new();
    c1.filter(2, &vec![ArgValue::Regex(a), text("ab 12 cd")], &mut cache).unwrap();
    c2.filter(2, &vec![ArgValue::Regex(b), text("ab 12 cd")], &mut cache).unwrap();
    assert_eq!(find_all_rows(&mut c1), find_all_rows(&mut c2));
    assert!(cache.contains("[a-z]+"));
    assert!(!cache.contains("[a-z]"));
}

#[test]
fn filter_twice_gives_same_rows() {
    let mut cache = MatcherCache::new();
    let mut cursor = RegexFindAllCursor::new();
    let args = vec![text("[0-9]+"), text("a12b345c")];
    cursor.filter(2, &args, &mut cache).unwrap();
    let first = find_all_rows(&mut cursor);
    cursor.filter(2, &args, &mut cache).unwrap();
    let second = find_all_rows(&mut cursor);
    assert_eq!(first, second);
    assert_eq!(cache.compilations(), 1);
}

#[test]
fn refilter_while_streaming_starts_over() {
    let mut cache = MatcherCache::new();
    let mut cursor = RegexSplitCursor::new();
    cursor.filter(2, &vec![text(","), text("a,b,c")], &mut cache).unwrap();
    cursor.next();
    assert_eq!(cursor.rowid(), 1);
    cursor.filter(2, &vec![text(";"), text("x;y")], &mut cache).unwrap();
    assert_eq!(cursor.rowid(), 0);
    assert_eq!(split_rows(&mut cursor), vec!["x", "y"]);
}

#[test]
fn planning_rejects_missing_contents() {
    let table = RegexFindAllTable::connect().1;
    let mut cs = vec![eq_constraint(FIND_ALL_PATTERN)];
    assert_eq!(table.best_index(&mut cs), Err(PlanError::MissingConstraint));
    assert_eq!(cs[0].argv_index, 0);
    assert!(!cs[0].omit);
}

#[test]
fn planning_rejects_non_equality_on_contents() {
    let table = RegexFindAllTable::connect().1;
    let mut cs = vec![
        eq_constraint(FIND_ALL_PATTERN),
        IndexConstraint { op: ConstraintOp::Other, ..eq_constraint(FIND_ALL_CONTENTS) },
    ];
    assert_eq!(table.best_index(&mut cs), Err(PlanError::UnsupportedConstraint));
    let mut unusable = vec![
        eq_constraint(FIND_ALL_PATTERN),
        IndexConstraint { usable: false, ..eq_constraint(FIND_ALL_CONTENTS) },
    ];
    assert_eq!(table.best_index(&mut unusable), Err(PlanError::UnsupportedConstraint));
}

#[test]
fn planning_binds_both_arguments() {
    let table = RegexFindAllTable::connect().1;
    let mut cs = vec![
        eq_constraint(0),
        eq_constraint(FIND_ALL_CONTENTS),
        eq_constraint(FIND_ALL_PATTERN),
    ];
    let plan = table.best_index(&mut cs).unwrap();
    assert_eq!(plan.estimated_cost, 100000);
    assert_eq!(plan.estimated_rows, 100000);
    assert_eq!(plan.idx_num, 2);
    assert_eq!((cs[0].omit, cs[0].argv_index), (false, 0));
    assert_eq!((cs[1].omit, cs[1].argv_index), (true, 2));
    assert_eq!((cs[2].omit, cs[2].argv_index), (true, 1));
}

#[test]
fn set_matches_reports_members_in_order() {
    let patterns = vec![r"\w+", r"\d+", r"\pL+", "foo", "bar", "barfoo", "foobar"];
    let set = MatcherSet::compile(patterns.iter().map(|p| p.to_string()).collect()).unwrap();
    let mut cursor = RegexSetMatchesTable::connect().1.open();
    cursor.filter(2, &vec![ArgValue::RegexSet(set), text("foobar")]).unwrap();
    let mut keys = vec![];
    while !cursor.eof() {
        let key = match cursor.column(0).unwrap() {
            ColumnValue::Integer(k) => k,
            _ => panic!("key is not an integer"),
        };
        match cursor.column(1).unwrap() {
            ColumnValue::Text(p) => assert_eq!(p, patterns[key]),
            _ => panic!("pattern is not text"),
        }
        match cursor.column(2).unwrap() {
            ColumnValue::TextList(l) => assert_eq!(l, patterns),
            _ => panic!("regexset is not a list"),
        }
        keys.push(key);
        cursor.next();
    }
    assert_eq!(keys, vec![0, 2, 3, 4, 6]);
    for (i, p) in patterns.iter().enumerate() {
        let mut cache = MatcherCache::new();
        let m = cache.get_or_compile(p).unwrap();
        let mut probe = RegexFindAllCursor::new();
        probe.filter(2, &vec![ArgValue::Regex(m), text("foobar")], &mut cache).unwrap();
        assert_eq!(!probe.eof(), keys.contains(&i));
    }
}

#[test]
fn set_matches_needs_a_set_handle() {
    let mut cursor = RegexSetMatchesTable::connect().1.open();
    assert!(matches!(
        cursor.filter(2, &vec![text("a"), text("a")]),
        Err(RegexError::Argument(_))
    ));
    assert!(cursor.eof());
}

#[test]
fn captures_table_per_match() {
    let mut cache = MatcherCache::new();
    let mut cursor: RegexCapturesCursor = RegexCapturesTable::connect().1.open();
    let args = vec![text(r"(?P<year>\d{4})-(\d{2})(x)?"), text("2020-01 and 1999-12x")];
    cursor.filter(2, &args, &mut cache).unwrap();
    let mut tables: Vec<Vec<CaptureGroup>> = vec![];
    while !cursor.eof() {
        match cursor.column(0).unwrap() {
            ColumnValue::Captures(t) => tables.push(t),
            _ => panic!("captures column is not a table"),
        }
        cursor.next();
    }
    assert_eq!(tables.len(), 2);
    let render = |t: &Vec<CaptureGroup>| -> Vec<(String, Option<String>)> {
        t.iter()
            .map(|g| {
                let k = match &g.key {
                    CaptureGroupKey::Index(i) => i.to_string(),
                    CaptureGroupKey::Name(n) => n.clone(),
                };
                (k, g.value.clone())
            })
            .collect()
    };
    let s = |v: &str| Some(v.to_string());
    assert_eq!(
        render(&tables[0]),
        vec![
            ("year".to_string(), s("2020")),
            ("0".to_string(), s("2020-01")),
            ("1".to_string(), s("2020")),
            ("2".to_string(), s("01")),
            ("3".to_string(), None),
        ]
    );
    assert_eq!(render(&tables[1])[0], ("year".to_string(), s("1999")));
    assert_eq!(render(&tables[1])[4], ("3".to_string(), s("x")));
}

#[test]
fn cursor_out_of_order_is_an_internal_error() {
    let mut cursor = RegexFindAllCursor::new();
    assert!(cursor.eof());
    assert!(matches!(cursor.column(0), Err(RegexError::Internal(_))));
    cursor.next();
    assert_eq!(cursor.rowid(), 0);
    let mut cache = MatcherCache::new();
    cursor.filter(2, &vec![text("z"), text("abc")], &mut cache).unwrap();
    assert!(cursor.eof());
    cursor.next();
    assert_eq!(cursor.rowid(), 0);
    assert!(matches!(cursor.column(2), Err(RegexError::Internal(_))));
}

#[test]
fn filter_argument_errors() {
    let mut cache = MatcherCache::new();
    let mut cursor = RegexFindAllCursor::new();
    assert!(matches!(
        cursor.filter(2, &vec![text("a")], &mut cache),
        Err(RegexError::Argument(_))
    ));
    assert!(matches!(
        cursor.filter(2, &vec![ArgValue::Null, text("a")], &mut cache),
        Err(RegexError::Argument(_))
    ));
    assert!(matches!(
        cursor.filter(2, &vec![text("a"), ArgValue::Integer(3)], &mut cache),
        Err(RegexError::Argument(_))
    ));
    assert!(matches!(
        cursor.filter(2, &vec![text("(a"), text("a")], &mut cache),
        Err(RegexError::Pattern { .. })
    ));
    assert!(cursor.eof());
}

#[test]
fn hidden_columns_are_null() {
    let mut cache = MatcherCache::new();
    let mut cursor = RegexFindAllCursor::new();
    cursor.filter(2, &vec![text("b"), text("abc")], &mut cache).unwrap();
    assert!(matches!(cursor.column(FIND_ALL_PATTERN), Ok(ColumnValue::Null)));
    assert!(matches!(cursor.column(FIND_ALL_CONTENTS), Ok(ColumnValue::Null)));
}
