use crate::grammar::registry::{collected, gathers, pattern_list, Grammar};
use crate::inter::ILocation;
use crate::rule::abstract_rule::{
    cache_wf, clone_cache, compile_fresh, remembered, AbstractRule, Rule, RuleEnum, RuleView,
};
use crate::rule::compiled_rule::CompiledRule;
use crate::rule::error::RuleError;
use crate::rule::reg_exp_source::{has_anchor, RegExpSource, RegExpSourceList, RegExpSourceView};
use crate::support::text::clone_ids;
use vstd::prelude::*;

verus! {

/// What a [`MatchRule`] is, apart from what it remembers.
pub struct MatchRuleView {
    pub rule: Rule,
    pub pattern: RegExpSourceView,
    pub captures: Seq<i32>,
}

/// A rule of one pattern. `captures` names, for each capture group of the pattern, the
/// capture rule that scopes the text of that group.
#[derive(Debug)]
pub struct MatchRule {
    pub rule: Rule,
    pub _match: RegExpSource,
    pub captures: Vec<i32>,
    pub _cached_compiled_patterns: Option<RegExpSourceList>,
}

impl View for MatchRule {
    type V = MatchRuleView;

    open spec fn view(&self) -> MatchRuleView {
        MatchRuleView { rule: self.rule, pattern: self._match@, captures: self.captures@ }
    }
}

impl Clone for MatchRule {
    fn clone(&self) -> (copy: Self)
        ensures
            copy@ == self@,
            remembered(copy._cached_compiled_patterns) == remembered(
                self._cached_compiled_patterns,
            ),
            self.wf() ==> copy.wf(),
    {
        MatchRule {
            rule: self.rule.clone(),
            _match: self._match.clone(),
            captures: clone_ids(&self.captures),
            _cached_compiled_patterns: clone_cache(&self._cached_compiled_patterns),
        }
    }
}

impl MatchRule {
    /// The rule's invariant: what it remembers is fit to be remembered.
    pub open spec fn wf(&self) -> bool {
        cache_wf(self._cached_compiled_patterns)
    }

    /// A match rule for the pattern `_match`, owned by the rule `id` itself.
    pub fn new(
        location: Option<ILocation>,
        id: i32,
        name: Option<String>,
        _match: String,
        captures: Vec<i32>,
    ) -> (rule: Self)
        ensures
            rule.wf(),
            rule.rule._type@ == "MatchRule"@,
            rule.rule._location == location,
            rule.rule.id == id,
            rule.rule._name == name,
            rule.rule._content_name is None,
            rule._match@ == (RegExpSourceView {
                source: _match@,
                rule_id: id,
                has_anchor: has_anchor(_match@),
            }),
            rule.captures == captures,
            rule._cached_compiled_patterns is None,
    {
        MatchRule {
            rule: Rule {
                _type: "MatchRule".to_owned(),
                _location: location,
                id,
                _name: name,
                _content_name: None,
            },
            _match: RegExpSource::new(_match, id),
            captures,
            _cached_compiled_patterns: None,
        }
    }
}

impl MatchRule {
    /// The patterns that are scanned for while this rule is the active one, gathered from
    /// `grammar`.
    pub(crate) fn gather(&self, grammar: &Grammar) -> (gathered: Result<
        RegExpSourceList,
        RuleError,
    >)
        requires
            grammar.wf(),
        ensures
            gathers(gathered, pattern_list(grammar@, self.model())),
    {
        let mut list = RegExpSourceList::new();
        match self.collect_patterns_recursive(grammar, &mut list, true) {
            Ok(()) => {},
            Err(error) => {
                return Err(error);
            },
        }
        assert(list@ =~= collected(grammar@, self.model(), true).items);
        Ok(list)
    }
}

impl AbstractRule for MatchRule {
    open spec fn model(&self) -> RuleView {
        RuleView::MatchRule(self@)
    }

    open spec fn cache(&self) -> Option<Seq<RegExpSourceView>> {
        remembered(self._cached_compiled_patterns)
    }

    open spec fn well_formed(&self) -> bool {
        self.wf()
    }

    fn id(&self) -> (id: i32) {
        self.rule.id
    }

    fn type_of(&self) -> (name: String) {
        self.rule._type.clone()
    }

    fn get_rule(&self) -> (rule: Rule) {
        assert(self.model().base() == self.rule);
        self.rule.clone()
    }

    fn get_rule_instance(&self) -> (instance: RuleEnum) {
        RuleEnum::MatchRule(self.clone())
    }

    fn collect_patterns_recursive(
        &self,
        grammar: &Grammar,
        out: &mut RegExpSourceList,
        is_first: bool,
    ) -> (result: Result<(), RuleError>) {
        let ghost before = out@;
        out.push(Box::new(self._match.clone()));
        assert(out@ =~= before + seq![self._match@]);
        Ok(())
    }

    fn compile(
        &mut self,
        grammar: &Grammar,
        end_regex_source: Option<String>,
        allow_a: bool,
        allow_g: bool,
    ) -> (result: Result<CompiledRule, RuleError>) {
        match &mut self._cached_compiled_patterns {
            Some(list) => {
                return Ok(list.compile_for(allow_a, allow_g));
            },
            None => {},
        }
        let list = match self.gather(grammar) {
            Ok(list) => list,
            Err(error) => {
                return Err(error);
            },
        };
        Ok(compile_fresh(&mut self._cached_compiled_patterns, list, allow_a, allow_g))
    }
}

} // verus!
