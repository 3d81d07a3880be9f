use scie_grammar::grammar::{Grammar, ScopeListElement};
use std::rc::Rc;

fn names(list: &[&str]) -> Vec<String> {
    list.iter().map(|name| name.to_string()).collect()
}

#[test]
fn default_chain_is_one_unnamed_scope() {
    let chain = ScopeListElement::default();
    assert!(chain.parent.is_none());
    assert_eq!(chain.generate_scopes(), names(&[""]));
}

#[test]
fn generate_scopes_lists_outermost_first() {
    let root = ScopeListElement::new(None, "source.rust".to_string());
    let middle = ScopeListElement::new(Some(Rc::new(root)), "meta.function".to_string());
    let leaf = ScopeListElement::new(Some(Rc::new(middle)), "string.quoted".to_string());
    assert_eq!(
        leaf.generate_scopes(),
        names(&["source.rust", "meta.function", "string.quoted"])
    );
}

#[test]
fn push_without_a_scope_keeps_the_chain() {
    let grammar = Grammar::new();
    let root = ScopeListElement::new(None, "source.rust".to_string());
    let chain = root.push(&grammar, Some("meta.block".to_string()));
    let same = chain.push(&grammar, None);
    assert_eq!(same.generate_scopes(), chain.generate_scopes());
    assert_eq!(same.scope, chain.scope);
    assert!(Rc::ptr_eq(
        same.parent.as_ref().unwrap(),
        chain.parent.as_ref().unwrap()
    ));
}

#[test]
fn push_appends_one_name_and_leaves_the_old_chain() {
    let grammar = Grammar::new();
    let root = ScopeListElement::new(None, "source.rust".to_string());
    let before = root.generate_scopes();
    let longer = root.push(&grammar, Some("comment.line".to_string()));
    assert_eq!(longer.generate_scopes(), names(&["source.rust", "comment.line"]));
    assert_eq!(root.generate_scopes(), before);
    assert_eq!(longer.scope, "comment.line");
    assert_eq!(longer.parent.as_ref().unwrap().scope, "source.rust");
}

#[test]
fn push_splits_a_string_of_several_names() {
    let grammar = Grammar::new();
    let root = ScopeListElement::new(None, "source.rust".to_string());
    let longer = root.push(&grammar, Some("meta.a meta.b meta.c".to_string()));
    assert_eq!(
        longer.generate_scopes(),
        names(&["source.rust", "meta.a", "meta.b", "meta.c"])
    );
    assert_eq!(root.generate_scopes(), names(&["source.rust"]));
}

#[test]
fn push_takes_a_string_without_a_space_as_one_name() {
    let grammar = Grammar::new();
    let root = ScopeListElement::new(None, "r".to_string());
    assert_eq!(
        root.push(&grammar, Some("".to_string())).generate_scopes(),
        names(&["r", ""])
    );
    assert_eq!(
        root.push(&grammar, Some("a\tb".to_string())).generate_scopes(),
        names(&["r", "a\tb"])
    );
}

#[test]
fn push_leaves_out_the_empty_names_between_spaces() {
    let grammar = Grammar::new();
    let root = ScopeListElement::new(None, "r".to_string());
    assert_eq!(
        root.push(&grammar, Some(" ".to_string())).generate_scopes(),
        names(&["r"])
    );
    assert_eq!(
        root.push(&grammar, Some("a  b".to_string())).generate_scopes(),
        names(&["r", "a", "b"])
    );
    assert_eq!(
        root.push(&grammar, Some("a ".to_string())).generate_scopes(),
        names(&["r", "a"])
    );
    assert_eq!(
        root.push(&grammar, Some(" a".to_string())).generate_scopes(),
        names(&["r", "a"])
    );
    assert_eq!(
        root.push(&grammar, Some("   ".to_string())).generate_scopes(),
        names(&["r"])
    );
}

#[test]
fn chains_are_equal_when_they_name_the_same_scopes() {
    let grammar = Grammar::new();
    let root = ScopeListElement::new(None, "source".to_string());
    let one = root.push(&grammar, Some("meta.block string".to_string()));
    let other = root
        .push(&grammar, Some("meta.block".to_string()))
        .push(&grammar, Some("string".to_string()));
    assert!(one == other);
    assert!(one != root);
    assert!(one != root.push(&grammar, Some("meta.block".to_string())));
    assert!(one != root.push(&grammar, Some("meta.block comment".to_string())));
    assert!(root.clone() == root);
    assert!(ScopeListElement::default() == ScopeListElement::new(None, String::new()));
}

#[test]
fn sibling_chains_share_their_parent() {
    let grammar = Grammar::new();
    let root = ScopeListElement::new(None, "source".to_string());
    let block = root.push(&grammar, Some("meta.block".to_string()));
    let first = block.push(&grammar, Some("keyword".to_string()));
    let second = block.push(&grammar, Some("string".to_string()));
    assert_eq!(first.generate_scopes(), names(&["source", "meta.block", "keyword"]));
    assert_eq!(second.generate_scopes(), names(&["source", "meta.block", "string"]));
    assert_eq!(block.generate_scopes(), names(&["source", "meta.block"]));
    let above_first = first.parent.as_ref().unwrap().parent.as_ref().unwrap();
    let above_second = second.parent.as_ref().unwrap().parent.as_ref().unwrap();
    assert!(Rc::ptr_eq(above_first, above_second));
}

#[test]
fn underscore_push_extends_by_each_name_in_order() {
    let grammar = Grammar::new();
    let root = ScopeListElement::new(None, "source".to_string());
    let same = ScopeListElement::_push(root.clone(), &grammar, Vec::new());
    assert_eq!(same.generate_scopes(), names(&["source"]));
    let longer = ScopeListElement::_push(root, &grammar, names(&["a", "b c"]));
    assert_eq!(longer.generate_scopes(), names(&["source", "a", "b c"]));
}
