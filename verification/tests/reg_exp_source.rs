use scie_grammar::grammar::Grammar;
use scie_grammar::rule::{CompiledRule, RegExpSource, RegExpSourceList};

fn source(text: &str, rule_id: i32) -> Box<RegExpSource> {
    Box::new(RegExpSource::new(text.to_string(), rule_id))
}

fn strings(list: &[&str]) -> Vec<String> {
    list.iter().map(|text| text.to_string()).collect()
}

#[test]
fn new_source_keeps_text_and_owner() {
    let entry = RegExpSource::new("[0-9]+".to_string(), 7);
    assert_eq!(entry.source, "[0-9]+");
    assert_eq!(entry.rule_id, 7);
    assert!(!entry.has_anchor);
}

#[test]
fn new_source_finds_anchors() {
    assert!(RegExpSource::new("\\Gfoo".to_string(), 1).has_anchor);
    assert!(RegExpSource::new("\\Afoo".to_string(), 1).has_anchor);
    assert!(RegExpSource::new("a(\\G|b)".to_string(), 1).has_anchor);
    assert!(RegExpSource::new("\\\\\\G".to_string(), 1).has_anchor);
}

#[test]
fn new_source_is_not_fooled_by_letters_and_escaped_backslashes() {
    assert!(!RegExpSource::new("".to_string(), 1).has_anchor);
    assert!(!RegExpSource::new("AG".to_string(), 1).has_anchor);
    assert!(!RegExpSource::new("\\\\G".to_string(), 1).has_anchor);
    assert!(!RegExpSource::new("\\\\A".to_string(), 1).has_anchor);
    assert!(!RegExpSource::new("\\z\\b".to_string(), 1).has_anchor);
    assert!(!RegExpSource::new("G\\".to_string(), 1).has_anchor);
}

#[test]
fn resolve_anchors_replaces_what_the_flags_forbid() {
    let entry = RegExpSource::new("\\A\\Gx".to_string(), 1);
    assert_eq!(entry.resolve_anchors(true, true), "\\A\\Gx");
    assert_eq!(entry.resolve_anchors(false, true), "\\\u{FFFF}\\Gx");
    assert_eq!(entry.resolve_anchors(true, false), "\\A\\\u{FFFF}x");
    assert_eq!(entry.resolve_anchors(false, false), "\\\u{FFFF}\\\u{FFFF}x");
}

#[test]
fn resolve_anchors_leaves_escaped_backslashes_alone() {
    let entry = RegExpSource::new("\\\\A\\G".to_string(), 1);
    assert!(entry.has_anchor);
    assert_eq!(entry.resolve_anchors(false, false), "\\\\A\\\u{FFFF}");
}

#[test]
fn resolve_anchors_takes_an_unmarked_entry_as_written() {
    let entry = RegExpSource { source: "\\Gx".to_string(), rule_id: 1, has_anchor: false };
    assert_eq!(entry.resolve_anchors(false, false), "\\Gx");
}

#[test]
fn new_list_is_empty() {
    let grammar = Grammar::new();
    let mut list = RegExpSourceList::new();
    assert_eq!(list.len(), 0);
    assert!(!list.has_anchors());
    let compiled = list.compile(&grammar, true, true);
    assert_eq!(compiled.len(), 0);
    assert!(compiled.patterns().is_empty());
    assert!(compiled.rule_ids().is_empty());
}

#[test]
fn compile_keeps_the_order_of_pushes() {
    let grammar = Grammar::new();
    let mut list = RegExpSourceList::new();
    list.push(source("alpha", 1));
    list.push(source("beta", 2));
    list.push(source("gamma", 3));
    let compiled = list.compile(&grammar, false, false);
    assert_eq!(compiled.patterns(), &strings(&["alpha", "beta", "gamma"]));
    assert_eq!(compiled.rule_ids(), &vec![1, 2, 3]);
}

#[test]
fn unshift_puts_the_entry_in_front() {
    let grammar = Grammar::new();
    let mut list = RegExpSourceList::new();
    list.push(source("alpha", 1));
    list.push(source("beta", 2));
    list.push(source("gamma", 3));
    let before = list.compile(&grammar, false, false);
    assert_eq!(before.patterns(), &strings(&["alpha", "beta", "gamma"]));
    list.unshift(source("omega", 9));
    let compiled = list.compile(&grammar, false, false);
    assert_eq!(compiled.patterns(), &strings(&["omega", "alpha", "beta", "gamma"]));
    assert_eq!(compiled.rule_ids(), &vec![9, 1, 2, 3]);
    assert_eq!(list.len(), 4);
}

#[test]
fn flags_do_not_matter_without_anchors() {
    let grammar = Grammar::new();
    let mut list = RegExpSourceList::new();
    list.push(source("a+", 1));
    list.push(source("b\\\\G", 2));
    assert!(!list.has_anchors());
    let first = list.compile(&grammar, true, true);
    let second = list.compile(&grammar, false, false);
    let third = list.compile(&grammar, false, true);
    assert_eq!(first.patterns(), second.patterns());
    assert_eq!(first.rule_ids(), second.rule_ids());
    assert_eq!(first.patterns(), third.patterns());
    assert_eq!(first.patterns(), &strings(&["a+", "b\\\\G"]));
    assert!(list.cached_rule().is_some());
}

#[test]
fn each_flag_combination_has_its_own_result() {
    let grammar = Grammar::new();
    let mut list = RegExpSourceList::new();
    list.push(source("\\Aa", 1));
    list.push(source("\\Gb", 2));
    list.push(source("c", 3));
    assert!(list.has_anchors());
    let a1_g1 = list.compile(&grammar, true, true);
    let a0_g1 = list.compile(&grammar, false, true);
    let a1_g0 = list.compile(&grammar, true, false);
    let a0_g0 = list.compile(&grammar, false, false);
    assert_eq!(a1_g1.patterns(), &strings(&["\\Aa", "\\Gb", "c"]));
    assert_eq!(a0_g1.patterns(), &strings(&["\\\u{FFFF}a", "\\Gb", "c"]));
    assert_eq!(a1_g0.patterns(), &strings(&["\\Aa", "\\\u{FFFF}b", "c"]));
    assert_eq!(a0_g0.patterns(), &strings(&["\\\u{FFFF}a", "\\\u{FFFF}b", "c"]));
    assert_ne!(a1_g1.patterns(), a0_g1.patterns());
    for compiled in [&a1_g1, &a0_g1, &a1_g0, &a0_g0] {
        assert_eq!(compiled.rule_ids(), &vec![1, 2, 3]);
    }
    assert!(list.cached_rule().is_none());
}

#[test]
fn a_flag_combination_is_stable_once_computed() {
    let grammar = Grammar::new();
    let mut list = RegExpSourceList::new();
    list.push(source("\\Gb", 2));
    let first = list.compile(&grammar, true, false);
    assert!(list.anchor_cache().get(true, false).is_some());
    assert!(list.anchor_cache().get(true, true).is_none());
    assert!(list.anchor_cache().get(false, false).is_none());
    assert!(list.anchor_cache().get(false, true).is_none());
    let other = list.compile(&grammar, true, true);
    let again = list.compile(&grammar, true, false);
    assert_eq!(first.patterns(), again.patterns());
    assert_eq!(first.patterns(), &strings(&["\\\u{FFFF}b"]));
    assert_eq!(other.patterns(), &strings(&["\\Gb"]));
}

#[test]
fn the_anchor_flag_of_a_list_never_goes_back() {
    let mut list = RegExpSourceList::new();
    assert!(!list.has_anchors());
    list.push(source("a", 1));
    assert!(!list.has_anchors());
    list.unshift(source("\\Ga", 2));
    assert!(list.has_anchors());
    list.push(source("b", 3));
    assert!(list.has_anchors());
    list.unshift(source("c", 4));
    assert!(list.has_anchors());
}

#[test]
fn a_longer_list_is_compiled_anew() {
    let grammar = Grammar::new();
    let mut list = RegExpSourceList::new();
    list.push(source("a", 1));
    let short = list.compile(&grammar, true, true);
    assert_eq!(short.len(), 1);
    list.push(source("b", 2));
    assert!(list.cached_rule().is_none());
    let long = list.compile(&grammar, true, true);
    assert_eq!(long.patterns(), &strings(&["a", "b"]));
    assert_eq!(long.rule_ids(), &vec![1, 2]);
}

#[test]
fn a_copied_list_compiles_to_the_same() {
    let grammar = Grammar::new();
    let mut list = RegExpSourceList::new();
    list.push(source("\\Aa", 1));
    list.push(source("b", 2));
    let mut copy = list.clone();
    assert_eq!(copy.len(), 2);
    assert_eq!(
        copy.compile(&grammar, false, true).patterns(),
        list.compile(&grammar, false, true).patterns()
    );
}

#[test]
fn compiled_rule_pairs_patterns_with_owners() {
    let compiled = CompiledRule::new(strings(&["x", "y"]), vec![4, 5]);
    assert_eq!(compiled.len(), 2);
    assert_eq!(compiled.rule_id_at(0), Some(4));
    assert_eq!(compiled.rule_id_at(1), Some(5));
    assert_eq!(compiled.rule_id_at(2), None);
    assert_eq!(compiled.pattern_at(1), Some(&"y".to_string()));
    assert_eq!(compiled.pattern_at(2), None);
    let copy = compiled.clone();
    assert_eq!(copy.patterns(), compiled.patterns());
    assert_eq!(copy.rule_ids(), compiled.rule_ids());
}
