use crate::inter::ILocation;
use crate::grammar::registry::Grammar;
use crate::rule::abstract_rule::{AbstractRule, Rule, RuleEnum, RuleView};
use crate::rule::compiled_rule::CompiledRule;
use crate::rule::error::RuleError;
use crate::rule::reg_exp_source::{compiled, RegExpSourceList, RegExpSourceView};
use vstd::prelude::*;

verus! {

/// What a [`CaptureRule`] is.
pub struct CaptureRuleView {
    pub rule: Rule,
    pub retokenize_captured_with_rule_id: Option<i32>,
}

/// A rule bound to one capture group of an enclosing pattern. It names the scope of the
/// captured text and may name a rule by which that text is scanned again; it has no pattern
/// of its own.
#[derive(Debug)]
pub struct CaptureRule {
    pub rule: Rule,
    pub retokenize_captured_with_rule_id: Option<i32>,
}

impl View for CaptureRule {
    type V = CaptureRuleView;

    open spec fn view(&self) -> CaptureRuleView {
        CaptureRuleView {
            rule: self.rule,
            retokenize_captured_with_rule_id: self.retokenize_captured_with_rule_id,
        }
    }
}

impl Clone for CaptureRule {
    fn clone(&self) -> (copy: Self)
        ensures
            copy == *self,
    {
        CaptureRule {
            rule: self.rule.clone(),
            retokenize_captured_with_rule_id: self.retokenize_captured_with_rule_id,
        }
    }
}

impl CaptureRule {
    /// A capture rule under the identifier `id`.
    pub fn new(
        location: Option<ILocation>,
        id: i32,
        name: Option<String>,
        content_name: Option<String>,
        retokenize_captured_with_rule_id: Option<i32>,
    ) -> (rule: Self)
        ensures
            rule.rule._type@ == "CaptureRule"@,
            rule.rule._location == location,
            rule.rule.id == id,
            rule.rule._name == name,
            rule.rule._content_name == content_name,
            rule.retokenize_captured_with_rule_id == retokenize_captured_with_rule_id,
    {
        CaptureRule {
            rule: Rule {
                _type: "CaptureRule".to_owned(),
                _location: location,
                id,
                _name: name,
                _content_name: content_name,
            },
            retokenize_captured_with_rule_id,
        }
    }
}

impl AbstractRule for CaptureRule {
    open spec fn model(&self) -> RuleView {
        RuleView::CaptureRule(self@)
    }

    open spec fn cache(&self) -> Option<Seq<RegExpSourceView>> {
        None
    }

    open spec fn well_formed(&self) -> bool {
        true
    }

    fn id(&self) -> (id: i32) {
        self.rule.id
    }

    fn type_of(&self) -> (name: String) {
        self.rule._type.clone()
    }

    fn get_rule(&self) -> (rule: Rule) {
        assert(self.model().base() == self.rule);
        self.rule.clone()
    }

    fn get_rule_instance(&self) -> (instance: RuleEnum) {
        RuleEnum::CaptureRule(self.clone())
    }

    fn collect_patterns_recursive(
        &self,
        grammar: &Grammar,
        out: &mut RegExpSourceList,
        is_first: bool,
    ) -> (result: Result<(), RuleError>) {
        assert(out@ =~= out@ + Seq::<RegExpSourceView>::empty());
        Ok(())
    }

    fn compile(
        &mut self,
        grammar: &Grammar,
        end_regex_source: Option<String>,
        allow_a: bool,
        allow_g: bool,
    ) -> (result: Result<CompiledRule, RuleError>) {
        let rule = CompiledRule::new(Vec::new(), Vec::new());
        assert(rule@.patterns =~= compiled(Seq::empty(), allow_a, allow_g).patterns);
        assert(rule@.rule_ids =~= compiled(Seq::empty(), allow_a, allow_g).rule_ids);
        Ok(rule)
    }
}

} // verus!
