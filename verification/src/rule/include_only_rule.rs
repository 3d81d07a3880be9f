use crate::grammar::registry::{collected, gathers, pattern_list, Grammar};
use crate::inter::ILocation;
use crate::rule::abstract_rule::{
    cache_wf, clone_cache, compile_fresh, remembered, AbstractRule, Rule, RuleEnum, RuleView,
};
use crate::rule::compiled_rule::CompiledRule;
use crate::rule::error::RuleError;
use crate::rule::reg_exp_source::{RegExpSourceList, RegExpSourceView};
use crate::rule::rule_factory::ICompilePatternsResult;
use crate::support::text::clone_ids;
use vstd::prelude::*;

verus! {

/// What an [`IncludeOnlyRule`] is, apart from what it remembers.
pub struct IncludeOnlyRuleView {
    pub rule: Rule,
    pub patterns: Seq<i32>,
    pub has_missing_patterns: bool,
}

/// A rule without a pattern of its own: it stands for the rules that it nests, in their
/// order. Grammars use it to put rules together by reference.
#[derive(Debug)]
pub struct IncludeOnlyRule {
    pub rule: Rule,
    pub patterns: Vec<i32>,
    pub has_missing_patterns: bool,
    pub _cached_compiled_patterns: Option<RegExpSourceList>,
}

impl View for IncludeOnlyRule {
    type V = IncludeOnlyRuleView;

    open spec fn view(&self) -> IncludeOnlyRuleView {
        IncludeOnlyRuleView {
            rule: self.rule,
            patterns: self.patterns@,
            has_missing_patterns: self.has_missing_patterns,
        }
    }
}

impl Clone for IncludeOnlyRule {
    fn clone(&self) -> (copy: Self)
        ensures
            copy@ == self@,
            remembered(copy._cached_compiled_patterns) == remembered(
                self._cached_compiled_patterns,
            ),
            self.wf() ==> copy.wf(),
    {
        IncludeOnlyRule {
            rule: self.rule.clone(),
            patterns: clone_ids(&self.patterns),
            has_missing_patterns: self.has_missing_patterns,
            _cached_compiled_patterns: clone_cache(&self._cached_compiled_patterns),
        }
    }
}

impl IncludeOnlyRule {
    /// The rule's invariant: the number of nested rules can be reported, and what the rule
    /// remembers is fit to be remembered.
    pub open spec fn wf(&self) -> bool {
        &&& self.patterns.len() <= i32::MAX
        &&& cache_wf(self._cached_compiled_patterns)
    }

    /// A container under the identifier `id` for the nested rules that `patterns` holds.
    pub fn new(
        location: Option<ILocation>,
        id: i32,
        name: Option<String>,
        content_name: Option<String>,
        patterns: ICompilePatternsResult,
    ) -> (rule: Self)
        requires
            patterns.patterns.len() <= i32::MAX,
        ensures
            rule.wf(),
            rule.rule._type@ == "IncludeOnlyRule"@,
            rule.rule._location == location,
            rule.rule.id == id,
            rule.rule._name == name,
            rule.rule._content_name == content_name,
            rule.patterns == patterns.patterns,
            rule.has_missing_patterns == patterns.has_missing_patterns,
            rule._cached_compiled_patterns is None,
    {
        IncludeOnlyRule {
            rule: Rule {
                _type: "IncludeOnlyRule".to_owned(),
                _location: location,
                id,
                _name: name,
                _content_name: content_name,
            },
            has_missing_patterns: patterns.has_missing_patterns,
            patterns: patterns.patterns,
            _cached_compiled_patterns: None,
        }
    }
}

impl IncludeOnlyRule {
    /// The patterns that are scanned for while this rule is the active one, gathered from
    /// `grammar`.
    pub(crate) fn gather(&self, grammar: &Grammar) -> (gathered: Result<
        RegExpSourceList,
        RuleError,
    >)
        requires
            grammar.wf(),
        ensures
            gathers(gathered, pattern_list(grammar@, self.model())),
    {
        let mut list = RegExpSourceList::new();
        match self.collect_patterns_recursive(grammar, &mut list, true) {
            Ok(()) => {},
            Err(error) => {
                return Err(error);
            },
        }
        assert(list@ =~= collected(grammar@, self.model(), true).items);
        Ok(list)
    }
}

impl AbstractRule for IncludeOnlyRule {
    open spec fn model(&self) -> RuleView {
        RuleView::IncludeOnlyRule(self@)
    }

    open spec fn cache(&self) -> Option<Seq<RegExpSourceView>> {
        remembered(self._cached_compiled_patterns)
    }

    open spec fn well_formed(&self) -> bool {
        self.wf()
    }

    fn id(&self) -> (id: i32) {
        self.rule.id
    }

    fn type_of(&self) -> (name: String) {
        self.rule._type.clone()
    }

    fn get_rule(&self) -> (rule: Rule) {
        assert(self.model().base() == self.rule);
        self.rule.clone()
    }

    fn get_rule_instance(&self) -> (instance: RuleEnum) {
        RuleEnum::IncludeOnlyRule(self.clone())
    }

    fn has_missing_pattern(&self) -> (missing: bool)
        ensures
            missing == self.has_missing_patterns,
    {
        self.has_missing_patterns
    }

    fn patterns_length(&self) -> (length: i32)
        ensures
            length == self.patterns.len(),
    {
        self.patterns.len() as i32
    }

    fn collect_patterns_recursive(
        &self,
        grammar: &Grammar,
        out: &mut RegExpSourceList,
        is_first: bool,
    ) -> (result: Result<(), RuleError>) {
        let mut path: Vec<i32> = Vec::new();
        path.push(self.rule.id);
        assert(path@ =~= seq![self.rule.id]);
        grammar.contribute_all(&self.patterns, &mut path, out)
    }

    fn compile(
        &mut self,
        grammar: &Grammar,
        end_regex_source: Option<String>,
        allow_a: bool,
        allow_g: bool,
    ) -> (result: Result<CompiledRule, RuleError>) {
        match &mut self._cached_compiled_patterns {
            Some(list) => {
                return Ok(list.compile_for(allow_a, allow_g));
            },
            None => {},
        }
        let list = match self.gather(grammar) {
            Ok(list) => list,
            Err(error) => {
                return Err(error);
            },
        };
        Ok(compile_fresh(&mut self._cached_compiled_patterns, list, allow_a, allow_g))
    }
}

} // verus!
