use regex::Regex;
use scie_grammar::grammar::Grammar;
use scie_grammar::inter::{CaptureIndex, ILocation};
use scie_grammar::rule::abstract_rule::AbstractRule;
use scie_grammar::rule::{
    BeginEndRule, BeginWhileRule, CaptureRule, CompiledRule, EmptyRule, ICompilePatternsResult,
    IncludeOnlyRule, MatchRule, RegExpSourceList, RuleEnum, RuleError,
};
use scie_grammar::support::regex_source::RegexSource;

fn strings(list: &[&str]) -> Vec<String> {
    list.iter().map(|text| text.to_string()).collect()
}

fn children(ids: &[i32]) -> ICompilePatternsResult {
    ICompilePatternsResult { patterns: ids.to_vec(), has_missing_patterns: false }
}

fn match_rule(id: i32, pattern: &str) -> RuleEnum {
    RuleEnum::MatchRule(MatchRule::new(None, id, None, pattern.to_string(), vec![]))
}

fn begin_end(id: i32, begin: &str, end: &str, last: Option<bool>, nested: &[i32]) -> BeginEndRule {
    BeginEndRule::new(
        None,
        id,
        None,
        None,
        begin.to_string(),
        vec![],
        end.to_string(),
        vec![],
        last,
        children(nested),
    )
}

fn include_only(id: i32, nested: &[i32]) -> RuleEnum {
    RuleEnum::IncludeOnlyRule(IncludeOnlyRule::new(None, id, None, None, children(nested)))
}

fn patterns_of(list: &RegExpSourceList) -> Vec<String> {
    list.items().iter().map(|item| item.source.clone()).collect()
}

/// The index of the pattern that matches first at or after `offset`, and where it starts;
/// of two patterns that start at the same place the earlier one wins.
fn scan(compiled: &CompiledRule, subject: &str, offset: usize) -> Option<(usize, usize)> {
    let mut best: Option<(usize, usize)> = None;
    for (index, pattern) in compiled.patterns().iter().enumerate() {
        let regex = Regex::new(pattern).unwrap();
        if let Some(found) = regex.find_at(subject, offset) {
            if best.map_or(true, |(_, start)| found.start() < start) {
                best = Some((index, found.start()));
            }
        }
    }
    best
}

#[test]
fn match_rule_new_sets_its_fields() {
    let location = ILocation { filename: "rust.json".to_string(), line: 3, column: 9 };
    let rule = MatchRule::new(
        Some(location),
        4,
        Some("constant.numeric".to_string()),
        "[0-9]+".to_string(),
        vec![5, 6],
    );
    assert_eq!(rule.rule._type, "MatchRule");
    assert_eq!(rule.rule.id, 4);
    assert_eq!(rule.rule._name, Some("constant.numeric".to_string()));
    assert_eq!(rule.rule._content_name, None);
    assert_eq!(rule.rule._location.as_ref().unwrap().filename, "rust.json");
    assert_eq!(rule.rule._location.as_ref().unwrap().line, 3);
    assert_eq!(rule._match.source, "[0-9]+");
    assert_eq!(rule._match.rule_id, 4);
    assert!(!rule._match.has_anchor);
    assert_eq!(rule.captures, vec![5, 6]);
    assert!(rule._cached_compiled_patterns.is_none());
    assert_eq!(rule.id(), 4);
    assert_eq!(rule.type_of(), "MatchRule");
    assert_eq!(rule.get_rule().id, 4);
    assert!(!rule.has_missing_pattern());
    assert_eq!(rule.patterns_length(), -1);
}

#[test]
fn begin_end_rule_new_sets_its_fields() {
    let nested = ICompilePatternsResult { patterns: vec![1, 2, 3], has_missing_patterns: true };
    let rule = BeginEndRule::new(
        None,
        9,
        Some("comment.block".to_string()),
        Some("comment.content".to_string()),
        "/\\*".to_string(),
        vec![10],
        "\\*/".to_string(),
        vec![11, 12],
        Some(true),
        nested,
    );
    assert_eq!(rule.rule._type, "BeginEndRule");
    assert_eq!(rule.rule.id, 9);
    assert_eq!(rule.rule._name, Some("comment.block".to_string()));
    assert_eq!(rule.rule._content_name, Some("comment.content".to_string()));
    assert_eq!(rule._begin.source, "/\\*");
    assert_eq!(rule._begin.rule_id, 9);
    assert_eq!(rule._end.source, "\\*/");
    assert_eq!(rule._end.rule_id, 9);
    assert_eq!(rule.begin_captures, vec![10]);
    assert_eq!(rule.end_captures, vec![11, 12]);
    assert_eq!(rule.apply_end_pattern_last, Some(true));
    assert_eq!(rule.patterns, vec![1, 2, 3]);
    assert!(rule.has_missing_patterns);
    assert!(rule._cached_compiled_patterns.is_none());
    assert_eq!(rule.id(), 9);
    assert_eq!(rule.type_of(), "BeginEndRule");
    assert!(rule.has_missing_pattern());
    assert_eq!(rule.patterns_length(), 3);
}

#[test]
fn the_other_kinds_say_what_they_are() {
    let capture = CaptureRule::new(None, 1, Some("variable".to_string()), None, Some(4));
    assert_eq!(capture.type_of(), "CaptureRule");
    assert_eq!(capture.id(), 1);
    assert_eq!(capture.retokenize_captured_with_rule_id, Some(4));
    assert!(!capture.has_missing_pattern());
    assert_eq!(capture.patterns_length(), -1);
    let empty = EmptyRule::new(2);
    assert_eq!(empty.type_of(), "EmptyRule");
    assert_eq!(empty.id(), 2);
    assert!(empty.has_missing_pattern());
    assert_eq!(empty.patterns_length(), -1);
    let container = IncludeOnlyRule::new(None, 3, None, None, children(&[1, 2]));
    assert_eq!(container.type_of(), "IncludeOnlyRule");
    assert_eq!(container.patterns_length(), 2);
    assert!(!container.has_missing_pattern());
    let begin_while = BeginWhileRule::new(
        None,
        4,
        None,
        None,
        ">".to_string(),
        vec![],
        "^>".to_string(),
        vec![],
        None,
        children(&[1]),
    );
    assert_eq!(begin_while.type_of(), "BeginWhileRule");
    assert_eq!(begin_while._while.source, "^>");
    assert_eq!(begin_while._while.rule_id, 4);
    assert_eq!(begin_while.patterns_length(), 1);
}

#[test]
fn rule_instance_is_a_copy_of_the_rule() {
    let rule = begin_end(2, "b", "e", None, &[1]);
    let instance = rule.get_rule_instance();
    assert_eq!(instance.id(), 2);
    assert_eq!(instance.type_of(), "BeginEndRule");
    assert_eq!(instance.patterns_length(), 1);
    match instance {
        RuleEnum::BeginEndRule(copy) => {
            assert_eq!(copy._begin.source, "b");
            assert_eq!(copy._end.source, "e");
            assert_eq!(copy.patterns, vec![1]);
        },
        _ => panic!("a begin/end rule stays a begin/end rule"),
    }
}

#[test]
fn registry_hands_out_rules_by_identifier() {
    let mut grammar = Grammar::new();
    assert_eq!(grammar.len(), 0);
    assert_eq!(grammar.register_rule(match_rule(1, "a")), Ok(1));
    assert_eq!(grammar.register_rule(match_rule(2, "b")), Ok(2));
    assert_eq!(grammar.len(), 2);
    assert_eq!(grammar.get_rule(1).unwrap().id(), 1);
    assert_eq!(grammar.get_rule(2).unwrap().id(), 2);
    match grammar.get_rule(2).unwrap() {
        RuleEnum::MatchRule(rule) => assert_eq!(rule._match.source, "b"),
        _ => panic!("rule 2 is a match rule"),
    }
}

#[test]
fn registry_reports_an_identifier_without_a_rule() {
    let mut grammar = Grammar::new();
    assert_eq!(grammar.register_rule(match_rule(1, "a")), Ok(1));
    assert_eq!(grammar.get_rule(0).err(), Some(RuleError::UnresolvedReference(0)));
    assert_eq!(grammar.get_rule(2).err(), Some(RuleError::UnresolvedReference(2)));
    assert_eq!(grammar.get_rule(-1).err(), Some(RuleError::UnresolvedReference(-1)));
    assert_eq!(
        grammar.get_rule(i32::MAX).err(),
        Some(RuleError::UnresolvedReference(i32::MAX))
    );
}

#[test]
fn registry_refuses_an_identifier_out_of_sequence() {
    let mut grammar = Grammar::new();
    assert_eq!(grammar.register_rule(match_rule(2, "a")), Err(RuleError::IdOutOfSequence(2)));
    assert_eq!(grammar.register_rule(match_rule(0, "a")), Err(RuleError::IdOutOfSequence(0)));
    assert_eq!(grammar.len(), 0);
    assert_eq!(grammar.register_rule(match_rule(1, "a")), Ok(1));
    assert_eq!(grammar.register_rule(match_rule(1, "b")), Err(RuleError::IdOutOfSequence(1)));
    assert_eq!(grammar.len(), 1);
    match grammar.get_rule(1).unwrap() {
        RuleEnum::MatchRule(rule) => assert_eq!(rule._match.source, "a"),
        _ => panic!("rule 1 is a match rule"),
    }
}

#[test]
fn match_rule_contributes_its_pattern_at_either_level() {
    let grammar = Grammar::new();
    let rule = MatchRule::new(None, 1, None, "[a-z]+".to_string(), vec![]);
    let mut first = RegExpSourceList::new();
    assert_eq!(rule.collect_patterns_recursive(&grammar, &mut first, true), Ok(()));
    assert_eq!(patterns_of(&first), strings(&["[a-z]+"]));
    let mut below = RegExpSourceList::new();
    assert_eq!(rule.collect_patterns_recursive(&grammar, &mut below, false), Ok(()));
    assert_eq!(patterns_of(&below), strings(&["[a-z]+"]));
    assert_eq!(below.items()[0].rule_id, 1);
}

#[test]
fn begin_end_rule_stands_for_its_children_at_the_first_level_only() {
    let mut grammar = Grammar::new();
    grammar.register_rule(match_rule(1, "one")).unwrap();
    grammar.register_rule(match_rule(2, "two")).unwrap();
    let rule = begin_end(3, "begin", "end", None, &[2, 1]);
    let mut first = RegExpSourceList::new();
    first.push(Box::new(scie_grammar::rule::RegExpSource::new("kept".to_string(), 0)));
    assert_eq!(rule.collect_patterns_recursive(&grammar, &mut first, true), Ok(()));
    assert_eq!(patterns_of(&first), strings(&["kept", "two", "one"]));
    let mut below = RegExpSourceList::new();
    assert_eq!(rule.collect_patterns_recursive(&grammar, &mut below, false), Ok(()));
    assert_eq!(patterns_of(&below), strings(&["begin"]));
    assert_eq!(below.items()[0].rule_id, 3);
}

#[test]
fn capture_and_empty_rules_contribute_nothing() {
    let mut grammar = Grammar::new();
    grammar
        .register_rule(RuleEnum::CaptureRule(CaptureRule::new(None, 1, None, None, None)))
        .unwrap();
    grammar.register_rule(RuleEnum::EmptyRule(EmptyRule::new(2))).unwrap();
    grammar.register_rule(match_rule(3, "m")).unwrap();
    let rule = begin_end(4, "b", "e", None, &[1, 2, 3]);
    let mut list = RegExpSourceList::new();
    assert_eq!(rule.collect_patterns_recursive(&grammar, &mut list, true), Ok(()));
    assert_eq!(patterns_of(&list), strings(&["m"]));
    let mut capture = CaptureRule::new(None, 1, None, None, None);
    assert_eq!(capture.compile(&grammar, None, true, true).unwrap().len(), 0);
    let mut empty = EmptyRule::new(2);
    assert_eq!(empty.compile(&grammar, None, true, true).unwrap().len(), 0);
}

#[test]
fn include_only_rule_stands_for_its_children_at_every_level() {
    let mut grammar = Grammar::new();
    grammar.register_rule(match_rule(1, "one")).unwrap();
    grammar.register_rule(match_rule(2, "two")).unwrap();
    grammar.register_rule(include_only(3, &[1, 2])).unwrap();
    grammar.register_rule(include_only(4, &[3, 1])).unwrap();
    let root = begin_end(5, "b", "e", None, &[4, 2]);
    let mut list = RegExpSourceList::new();
    assert_eq!(root.collect_patterns_recursive(&grammar, &mut list, true), Ok(()));
    assert_eq!(patterns_of(&list), strings(&["one", "two", "one", "two"]));
}

#[test]
fn rules_that_nest_each_other_are_collected_in_finite_time() {
    let mut grammar = Grammar::new();
    grammar
        .register_rule(RuleEnum::BeginEndRule(begin_end(1, "a-begin", "a-end", None, &[2])))
        .unwrap();
    grammar
        .register_rule(RuleEnum::BeginEndRule(begin_end(2, "b-begin", "b-end", None, &[1])))
        .unwrap();
    let a = grammar.get_rule(1).unwrap();
    let mut list = RegExpSourceList::new();
    assert_eq!(a.collect_patterns_recursive(&grammar, &mut list, true), Ok(()));
    assert_eq!(patterns_of(&list), strings(&["b-begin"]));
    let b = grammar.get_rule(2).unwrap();
    let mut other = RegExpSourceList::new();
    assert_eq!(b.collect_patterns_recursive(&grammar, &mut other, true), Ok(()));
    assert_eq!(patterns_of(&other), strings(&["a-begin"]));
    let compiled = grammar.compile_rule(1, None, true, true).unwrap();
    assert_eq!(compiled.patterns(), &strings(&["a-end", "b-begin"]));
    assert_eq!(compiled.rule_ids(), &vec![1, 2]);
}

#[test]
fn a_rule_that_nests_itself_is_collected_in_finite_time() {
    let mut grammar = Grammar::new();
    grammar
        .register_rule(RuleEnum::BeginEndRule(begin_end(1, "\\(", "\\)", None, &[1])))
        .unwrap();
    let compiled = grammar.compile_rule(1, None, true, true).unwrap();
    assert_eq!(compiled.patterns(), &strings(&["\\)", "\\("]));
    assert_eq!(compiled.rule_ids(), &vec![1, 1]);
}

#[test]
fn including_rules_that_include_each_other_are_entered_once() {
    let mut grammar = Grammar::new();
    grammar.register_rule(include_only(1, &[2, 3])).unwrap();
    grammar.register_rule(include_only(2, &[1, 3])).unwrap();
    grammar.register_rule(match_rule(3, "m")).unwrap();
    let a = grammar.get_rule(1).unwrap();
    let mut list = RegExpSourceList::new();
    assert_eq!(a.collect_patterns_recursive(&grammar, &mut list, true), Ok(()));
    assert_eq!(patterns_of(&list), strings(&["m", "m"]));
    let mut below = RegExpSourceList::new();
    assert_eq!(a.collect_patterns_recursive(&grammar, &mut below, false), Ok(()));
    assert_eq!(patterns_of(&below), strings(&["m", "m"]));
    grammar.register_rule(include_only(4, &[4])).unwrap();
    let alone = grammar.compile_rule(4, None, true, true).unwrap();
    assert_eq!(alone.len(), 0);
}

#[test]
fn an_identifier_without_a_rule_stops_the_collection() {
    let mut grammar = Grammar::new();
    grammar.register_rule(match_rule(1, "one")).unwrap();
    grammar.register_rule(include_only(2, &[1, 77, 1])).unwrap();
    let rule = begin_end(3, "b", "e", None, &[1, 2, 1]);
    let mut list = RegExpSourceList::new();
    assert_eq!(
        rule.collect_patterns_recursive(&grammar, &mut list, true),
        Err(RuleError::UnresolvedReference(77))
    );
    assert_eq!(patterns_of(&list), strings(&["one", "one"]));
    let mut rule = rule;
    assert_eq!(
        rule.compile(&grammar, None, true, true).err(),
        Some(RuleError::UnresolvedReference(77))
    );
    assert!(rule._cached_compiled_patterns.is_none());
    grammar.register_rule(RuleEnum::BeginEndRule(rule)).unwrap();
    assert_eq!(
        grammar.compile_rule(3, None, true, true).err(),
        Some(RuleError::UnresolvedReference(77))
    );
    assert_eq!(
        grammar.compile_rule(9, None, true, true).err(),
        Some(RuleError::UnresolvedReference(9))
    );
}

#[test]
fn end_pattern_is_tried_first_unless_the_rule_puts_it_last() {
    let mut grammar = Grammar::new();
    grammar.register_rule(match_rule(1, "one")).unwrap();
    grammar.register_rule(match_rule(2, "two")).unwrap();
    let mut unset = begin_end(3, "b", "e", None, &[1, 2]);
    let compiled = unset.compile(&grammar, None, true, true).unwrap();
    assert_eq!(compiled.patterns(), &strings(&["e", "one", "two"]));
    assert_eq!(compiled.rule_ids(), &vec![3, 1, 2]);
    let mut first = begin_end(3, "b", "e", Some(false), &[1, 2]);
    let compiled = first.compile(&grammar, None, true, true).unwrap();
    assert_eq!(compiled.patterns(), &strings(&["e", "one", "two"]));
    let mut last = begin_end(3, "b", "e", Some(true), &[1, 2]);
    let compiled = last.compile(&grammar, None, true, true).unwrap();
    assert_eq!(compiled.patterns(), &strings(&["one", "two", "e"]));
    assert_eq!(compiled.rule_ids(), &vec![1, 2, 3]);
}

#[test]
fn while_pattern_is_tried_first_unless_the_rule_puts_it_last() {
    let mut grammar = Grammar::new();
    grammar.register_rule(match_rule(1, "one")).unwrap();
    let mut rule = BeginWhileRule::new(
        None,
        2,
        None,
        None,
        ">".to_string(),
        vec![],
        "^>".to_string(),
        vec![],
        None,
        children(&[1]),
    );
    let compiled = rule.compile(&grammar, None, true, true).unwrap();
    assert_eq!(compiled.patterns(), &strings(&["^>", "one"]));
    assert_eq!(compiled.rule_ids(), &vec![2, 1]);
    let mut last = BeginWhileRule::new(
        None,
        2,
        None,
        None,
        ">".to_string(),
        vec![],
        "^>".to_string(),
        vec![],
        Some(true),
        children(&[1]),
    );
    let compiled = last.compile(&grammar, None, true, true).unwrap();
    assert_eq!(compiled.patterns(), &strings(&["one", "^>"]));
    let mut below = RegExpSourceList::new();
    assert_eq!(last.collect_patterns_recursive(&grammar, &mut below, false), Ok(()));
    assert_eq!(patterns_of(&below), strings(&[">"]));
}

#[test]
fn match_rule_compiles_to_its_pattern() {
    let grammar = Grammar::new();
    let mut rule = MatchRule::new(None, 6, None, "[0-9]+".to_string(), vec![]);
    let compiled = rule.compile(&grammar, None, false, false).unwrap();
    assert_eq!(compiled.patterns(), &strings(&["[0-9]+"]));
    assert_eq!(compiled.rule_ids(), &vec![6]);
    assert!(rule._cached_compiled_patterns.is_some());
}

#[test]
fn the_end_pattern_override_changes_nothing() {
    let grammar = Grammar::new();
    let mut rule = begin_end(1, "b", "e", None, &[]);
    let plain = rule.compile(&grammar, None, true, true).unwrap();
    let mut other = begin_end(1, "b", "e", None, &[]);
    let with = other.compile(&grammar, Some("x".to_string()), true, true).unwrap();
    assert_eq!(plain.patterns(), with.patterns());
    assert_eq!(with.patterns(), &strings(&["e"]));
}

#[test]
fn a_list_without_anchors_is_remembered_by_the_rule() {
    let mut grammar = Grammar::new();
    grammar.register_rule(match_rule(1, "one")).unwrap();
    let mut rule = begin_end(2, "b", "e", None, &[1]);
    let first = rule.compile(&grammar, None, true, true).unwrap();
    assert!(rule._cached_compiled_patterns.is_some());
    grammar.register_rule(match_rule(2, "other")).unwrap();
    let second = rule.compile(&grammar, None, false, false).unwrap();
    assert_eq!(first.patterns(), second.patterns());
    assert_eq!(second.patterns(), &strings(&["e", "one"]));
}

#[test]
fn a_list_with_an_anchor_is_gathered_for_every_call() {
    let mut grammar = Grammar::new();
    grammar.register_rule(match_rule(1, "\\Gone")).unwrap();
    let mut rule = begin_end(2, "b", "\\Ae", None, &[1]);
    let allowed = rule.compile(&grammar, None, true, true).unwrap();
    assert_eq!(allowed.patterns(), &strings(&["\\Ae", "\\Gone"]));
    assert!(rule._cached_compiled_patterns.is_none());
    let forbidden = rule.compile(&grammar, None, false, false).unwrap();
    assert_eq!(forbidden.patterns(), &strings(&["\\\u{FFFF}e", "\\\u{FFFF}one"]));
    assert!(rule._cached_compiled_patterns.is_none());
    grammar.register_rule(RuleEnum::BeginEndRule(rule)).unwrap();
    let mixed = grammar.compile_rule(2, None, true, false).unwrap();
    assert_eq!(mixed.patterns(), &strings(&["\\Ae", "\\\u{FFFF}one"]));
    match grammar.get_rule(2).unwrap() {
        RuleEnum::BeginEndRule(stored) => assert!(stored._cached_compiled_patterns.is_none()),
        _ => panic!("rule 2 is a begin/end rule"),
    }
}

#[test]
fn the_registry_remembers_what_it_compiled() {
    let mut grammar = Grammar::new();
    grammar.register_rule(match_rule(1, "one")).unwrap();
    grammar
        .register_rule(RuleEnum::BeginEndRule(begin_end(2, "b", "e", Some(true), &[1, 3])))
        .unwrap();
    grammar.register_rule(match_rule(3, "three")).unwrap();
    let first = grammar.compile_rule(2, None, true, true).unwrap();
    assert_eq!(first.patterns(), &strings(&["one", "three", "e"]));
    match grammar.get_rule(2).unwrap() {
        RuleEnum::BeginEndRule(stored) => {
            let list = stored._cached_compiled_patterns.as_ref().unwrap();
            assert_eq!(patterns_of(list), strings(&["one", "three", "e"]));
        },
        _ => panic!("rule 2 is a begin/end rule"),
    }
    match grammar.get_rule(1).unwrap() {
        RuleEnum::MatchRule(stored) => assert!(stored._cached_compiled_patterns.is_none()),
        _ => panic!("rule 1 is a match rule"),
    }
    grammar.register_rule(match_rule(4, "four")).unwrap();
    let second = grammar.compile_rule(2, None, false, false).unwrap();
    assert_eq!(second.patterns(), first.patterns());
    assert_eq!(second.rule_ids(), &vec![1, 3, 2]);
}

#[test]
fn registering_does_not_take_over_what_a_rule_remembers() {
    let mut grammar = Grammar::new();
    let mut rule = MatchRule::new(None, 1, None, "m".to_string(), vec![]);
    rule.compile(&grammar, None, true, true).unwrap();
    assert!(rule._cached_compiled_patterns.is_some());
    grammar.register_rule(RuleEnum::MatchRule(rule)).unwrap();
    match grammar.get_rule(1).unwrap() {
        RuleEnum::MatchRule(stored) => assert!(stored._cached_compiled_patterns.is_none()),
        _ => panic!("rule 1 is a match rule"),
    }
}

#[test]
fn a_placeholder_among_the_children_is_a_missing_pattern() {
    let mut grammar = Grammar::new();
    grammar.register_rule(match_rule(1, "one")).unwrap();
    grammar.register_rule(RuleEnum::EmptyRule(EmptyRule::new(2))).unwrap();
    grammar.register_rule(match_rule(3, "three")).unwrap();
    let resolved = ICompilePatternsResult::from_children(&grammar, &vec![1, 2, 3]).unwrap();
    assert_eq!(resolved.patterns, vec![1, 3]);
    assert!(resolved.has_missing_patterns);
    let rule = BeginEndRule::new(
        None,
        4,
        None,
        None,
        "b".to_string(),
        vec![],
        "e".to_string(),
        vec![],
        None,
        resolved,
    );
    assert!(rule.has_missing_pattern());
    assert_eq!(rule.patterns_length(), 2);
    let instance = rule.get_rule_instance();
    assert!(instance.has_missing_pattern());
    assert_eq!(instance.patterns_length(), 2);
}

#[test]
fn children_without_a_placeholder_miss_nothing() {
    let mut grammar = Grammar::new();
    grammar.register_rule(match_rule(1, "one")).unwrap();
    grammar.register_rule(include_only(2, &[1])).unwrap();
    let resolved = ICompilePatternsResult::from_children(&grammar, &vec![2, 1, 2]).unwrap();
    assert_eq!(resolved.patterns, vec![2, 1, 2]);
    assert!(!resolved.has_missing_patterns);
    let none = ICompilePatternsResult::from_children(&grammar, &vec![]).unwrap();
    assert!(none.patterns.is_empty());
    assert!(!none.has_missing_patterns);
    let copy = resolved.clone();
    assert_eq!(copy.patterns, resolved.patterns);
    assert_eq!(copy.has_missing_patterns, resolved.has_missing_patterns);
}

#[test]
fn a_child_without_a_rule_is_reported_when_children_are_resolved() {
    let mut grammar = Grammar::new();
    grammar.register_rule(match_rule(1, "one")).unwrap();
    assert_eq!(
        ICompilePatternsResult::from_children(&grammar, &vec![1, 5, 6]).err(),
        Some(RuleError::UnresolvedReference(5))
    );
}

#[test]
fn name_is_handed_out_as_written_without_a_match() {
    let rule = MatchRule::new(None, 1, Some("entity.$1".to_string()), "x".to_string(), vec![]);
    assert_eq!(rule.get_name(Some("line".to_string()), None), Some("entity.$1".to_string()));
    assert_eq!(rule.get_name(None, None), Some("entity.$1".to_string()));
    let ranges = vec![CaptureIndex { start: 0, end: 1, length: 1 }];
    assert_eq!(rule.get_name(None, Some(ranges)), Some("entity.$1".to_string()));
}

#[test]
fn name_without_a_reference_is_handed_out_as_written() {
    let rule = MatchRule::new(None, 1, Some("entity.name".to_string()), "x".to_string(), vec![]);
    let ranges = vec![CaptureIndex { start: 0, end: 1, length: 1 }];
    assert_eq!(
        rule.get_name(Some("line".to_string()), Some(ranges)),
        Some("entity.name".to_string())
    );
    let unnamed = MatchRule::new(None, 1, None, "x".to_string(), vec![]);
    assert_eq!(unnamed.get_name(Some("line".to_string()), Some(vec![])), None);
}

#[test]
fn name_with_a_reference_becomes_the_empty_name() {
    let rule = MatchRule::new(None, 1, Some("entity.$1".to_string()), "x".to_string(), vec![]);
    let ranges = vec![CaptureIndex { start: 0, end: 1, length: 1 }];
    assert_eq!(rule.get_name(Some("line".to_string()), Some(ranges)), Some("".to_string()));
    let instance = rule.get_rule_instance();
    assert_eq!(instance.get_name(Some("line".to_string()), Some(vec![])), Some("".to_string()));
}

#[test]
fn has_captures_finds_references_to_capture_groups() {
    assert!(RegexSource::has_captures(Some("$1".to_string())));
    assert!(RegexSource::has_captures(Some("entity.$12.name".to_string())));
    assert!(RegexSource::has_captures(Some("${1:/downcase}".to_string())));
    assert!(RegexSource::has_captures(Some("a.${23:/upcase}.b".to_string())));
    assert!(RegexSource::has_captures(Some("$$0".to_string())));
    assert!(RegexSource::has_captures(Some("${x}$9".to_string())));
}

#[test]
fn has_captures_is_not_fooled() {
    assert!(!RegexSource::has_captures(None));
    assert!(!RegexSource::has_captures(Some("".to_string())));
    assert!(!RegexSource::has_captures(Some("entity.name".to_string())));
    assert!(!RegexSource::has_captures(Some("$".to_string())));
    assert!(!RegexSource::has_captures(Some("$x".to_string())));
    assert!(!RegexSource::has_captures(Some("${1}".to_string())));
    assert!(!RegexSource::has_captures(Some("${:/downcase}".to_string())));
    assert!(!RegexSource::has_captures(Some("${1:/lowercase}".to_string())));
    assert!(!RegexSource::has_captures(Some("${1:/upcase".to_string())));
    assert!(!RegexSource::has_captures(Some("${1a:/upcase}".to_string())));
    assert!(!RegexSource::has_captures(Some("1$".to_string())));
}

#[test]
fn end_to_end_number_and_comment() {
    let mut grammar = Grammar::new();
    grammar.register_rule(match_rule(1, "[0-9]+")).unwrap();
    grammar
        .register_rule(RuleEnum::BeginEndRule(begin_end(2, "/\\*", "\\*/", None, &[])))
        .unwrap();
    grammar.register_rule(include_only(3, &[1, 2])).unwrap();
    let compiled = grammar.compile_rule(3, None, true, true).unwrap();
    assert_eq!(compiled.patterns(), &strings(&["[0-9]+", "/\\*"]));
    assert_eq!(compiled.rule_ids(), &vec![1, 2]);
    let subject = "12 /* c */";
    let (index, start) = scan(&compiled, subject, 0).unwrap();
    assert_eq!(index, 0);
    assert_eq!(start, 0);
    assert_eq!(compiled.rule_id_at(index), Some(1));
    let (index, start) = scan(&compiled, subject, 2).unwrap();
    assert_eq!((index, start), (1, 3));
    assert_eq!(compiled.rule_id_at(index), Some(2));
    let inside = grammar.compile_rule(2, None, true, true).unwrap();
    assert_eq!(inside.patterns(), &strings(&["\\*/"]));
    let (index, start) = scan(&inside, subject, 5).unwrap();
    assert_eq!((index, start), (0, 8));
    assert_eq!(inside.rule_id_at(index), Some(2));
}
