use crate::grammar::registry::Grammar;
use crate::rule::abstract_rule::{AbstractRule, Rule, RuleEnum, RuleView};
use crate::rule::compiled_rule::CompiledRule;
use crate::rule::error::RuleError;
use crate::rule::reg_exp_source::{compiled, RegExpSourceList, RegExpSourceView};
use vstd::prelude::*;

verus! {

/// What an [`EmptyRule`] is.
pub struct EmptyRuleView {
    pub rule: Rule,
}

/// A placeholder for a rule that the grammar refers to and does not define. It has no
/// pattern and nests no rule; whoever meets it learns that a pattern is missing.
#[derive(Debug)]
pub struct EmptyRule {
    pub rule: Rule,
}

impl View for EmptyRule {
    type V = EmptyRuleView;

    open spec fn view(&self) -> EmptyRuleView {
        EmptyRuleView { rule: self.rule }
    }
}

impl Clone for EmptyRule {
    fn clone(&self) -> (copy: Self)
        ensures
            copy == *self,
    {
        EmptyRule { rule: self.rule.clone() }
    }
}

impl EmptyRule {
    /// A placeholder under the identifier `id`.
    pub fn new(id: i32) -> (rule: Self)
        ensures
            rule.rule._type@ == "EmptyRule"@,
            rule.rule._location is None,
            rule.rule.id == id,
            rule.rule._name is None,
            rule.rule._content_name is None,
    {
        EmptyRule {
            rule: Rule {
                _type: "EmptyRule".to_owned(),
                _location: None,
                id,
                _name: None,
                _content_name: None,
            },
        }
    }
}

impl AbstractRule for EmptyRule {
    open spec fn model(&self) -> RuleView {
        RuleView::EmptyRule(self@)
    }

    open spec fn cache(&self) -> Option<Seq<RegExpSourceView>> {
        None
    }

    open spec fn well_formed(&self) -> bool {
        true
    }

    fn id(&self) -> (id: i32) {
        self.rule.id
    }

    fn type_of(&self) -> (name: String) {
        self.rule._type.clone()
    }

    fn get_rule(&self) -> (rule: Rule) {
        assert(self.model().base() == self.rule);
        self.rule.clone()
    }

    fn get_rule_instance(&self) -> (instance: RuleEnum) {
        RuleEnum::EmptyRule(self.clone())
    }

    fn has_missing_pattern(&self) -> (missing: bool)
        ensures
            missing,
    {
        true
    }

    fn collect_patterns_recursive(
        &self,
        grammar: &Grammar,
        out: &mut RegExpSourceList,
        is_first: bool,
    ) -> (result: Result<(), RuleError>) {
        assert(out@ =~= out@ + Seq::<RegExpSourceView>::empty());
        Ok(())
    }

    fn compile(
        &mut self,
        grammar: &Grammar,
        end_regex_source: Option<String>,
        allow_a: bool,
        allow_g: bool,
    ) -> (result: Result<CompiledRule, RuleError>) {
        let rule = CompiledRule::new(Vec::new(), Vec::new());
        assert(rule@.patterns =~= compiled(Seq::empty(), allow_a, allow_g).patterns);
        assert(rule@.rule_ids =~= compiled(Seq::empty(), allow_a, allow_g).rule_ids);
        Ok(rule)
    }
}

} // verus!
