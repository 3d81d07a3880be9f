use crate::grammar::registry::{collected, gathers, pattern_list, Grammar};
use crate::inter::ILocation;
use crate::rule::abstract_rule::{
    cache_wf, clone_cache, compile_fresh, remembered, AbstractRule, Rule, RuleEnum, RuleView,
};
use crate::rule::compiled_rule::CompiledRule;
use crate::rule::error::RuleError;
use crate::rule::reg_exp_source::{has_anchor, RegExpSource, RegExpSourceList, RegExpSourceView};
use crate::rule::rule_factory::ICompilePatternsResult;
use crate::support::text::clone_ids;
use vstd::prelude::*;

verus! {

/// What a [`BeginWhileRule`] is, apart from what it remembers.
pub struct BeginWhileRuleView {
    pub rule: Rule,
    pub begin: RegExpSourceView,
    pub begin_captures: Seq<i32>,
    pub while_pattern: RegExpSourceView,
    pub while_captures: Seq<i32>,
    pub apply_while_pattern_last: Option<bool>,
    pub patterns: Seq<i32>,
    pub has_missing_patterns: bool,
}

impl BeginWhileRuleView {
    /// Whether the while pattern is tried after the patterns of the nested rules. Unless the
    /// rule says so, it is tried before them.
    pub open spec fn while_is_last(self) -> bool {
        self.apply_while_pattern_last == Some(true)
    }
}

/// A rule that opens a region with its begin pattern and keeps it open for as long as each
/// following line matches its while pattern. Inside the region the nested rules `patterns`
/// are tried.
#[derive(Debug)]
pub struct BeginWhileRule {
    pub rule: Rule,
    pub _begin: RegExpSource,
    pub begin_captures: Vec<i32>,
    pub _while: RegExpSource,
    pub while_captures: Vec<i32>,
    pub apply_while_pattern_last: Option<bool>,
    pub _cached_compiled_patterns: Option<RegExpSourceList>,
    pub patterns: Vec<i32>,
    pub has_missing_patterns: bool,
}

impl View for BeginWhileRule {
    type V = BeginWhileRuleView;

    open spec fn view(&self) -> BeginWhileRuleView {
        BeginWhileRuleView {
            rule: self.rule,
            begin: self._begin@,
            begin_captures: self.begin_captures@,
            while_pattern: self._while@,
            while_captures: self.while_captures@,
            apply_while_pattern_last: self.apply_while_pattern_last,
            patterns: self.patterns@,
            has_missing_patterns: self.has_missing_patterns,
        }
    }
}

impl Clone for BeginWhileRule {
    fn clone(&self) -> (copy: Self)
        ensures
            copy@ == self@,
            remembered(copy._cached_compiled_patterns) == remembered(
                self._cached_compiled_patterns,
            ),
            self.wf() ==> copy.wf(),
    {
        BeginWhileRule {
            rule: self.rule.clone(),
            _begin: self._begin.clone(),
            begin_captures: clone_ids(&self.begin_captures),
            _while: self._while.clone(),
            while_captures: clone_ids(&self.while_captures),
            apply_while_pattern_last: self.apply_while_pattern_last,
            _cached_compiled_patterns: clone_cache(&self._cached_compiled_patterns),
            patterns: clone_ids(&self.patterns),
            has_missing_patterns: self.has_missing_patterns,
        }
    }
}

impl BeginWhileRule {
    /// The rule's invariant: the number of nested rules can be reported, and what the rule
    /// remembers is fit to be remembered.
    pub open spec fn wf(&self) -> bool {
        &&& self.patterns.len() <= i32::MAX
        &&& cache_wf(self._cached_compiled_patterns)
    }

    /// A rule for the region that `begin` opens and `_while` keeps open, owned by the rule `id`
    /// itself, with the nested rules that `patterns` holds.
    pub fn new(
        location: Option<ILocation>,
        id: i32,
        name: Option<String>,
        content_name: Option<String>,
        begin: String,
        begin_captures: Vec<i32>,
        _while: String,
        while_captures: Vec<i32>,
        apply_while_pattern_last: Option<bool>,
        patterns: ICompilePatternsResult,
    ) -> (rule: BeginWhileRule)
        requires
            patterns.patterns.len() <= i32::MAX,
        ensures
            rule.wf(),
            rule.rule._type@ == "BeginWhileRule"@,
            rule.rule._location == location,
            rule.rule.id == id,
            rule.rule._name == name,
            rule.rule._content_name == content_name,
            rule._begin@ == (RegExpSourceView {
                source: begin@,
                rule_id: id,
                has_anchor: has_anchor(begin@),
            }),
            rule.begin_captures == begin_captures,
            rule._while@ == (RegExpSourceView {
                source: _while@,
                rule_id: id,
                has_anchor: has_anchor(_while@),
            }),
            rule.while_captures == while_captures,
            rule.apply_while_pattern_last == apply_while_pattern_last,
            rule.patterns == patterns.patterns,
            rule.has_missing_patterns == patterns.has_missing_patterns,
            rule._cached_compiled_patterns is None,
    {
        BeginWhileRule {
            rule: Rule {
                _type: "BeginWhileRule".to_owned(),
                _location: location,
                id,
                _name: name,
                _content_name: content_name,
            },
            _begin: RegExpSource::new(begin, id),
            begin_captures,
            _while: RegExpSource::new(_while, id),
            while_captures,
            apply_while_pattern_last,
            has_missing_patterns: patterns.has_missing_patterns,
            patterns: patterns.patterns,
            _cached_compiled_patterns: None,
        }
    }
}

impl BeginWhileRule {
    /// The patterns that are scanned for inside the region, gathered from `grammar`: those of
    /// the nested rules and the while pattern, which comes first unless the rule puts it last.
    pub(crate) fn gather(&self, grammar: &Grammar) -> (gathered: Result<
        RegExpSourceList,
        RuleError,
    >)
        requires
            grammar.wf(),
        ensures
            gathers(gathered, pattern_list(grammar@, self.model())),
    {
        let mut list = RegExpSourceList::new();
        match self.collect_patterns_recursive(grammar, &mut list, true) {
            Ok(()) => {},
            Err(error) => {
                return Err(error);
            },
        }
        let ghost nested = list@;
        assert(nested =~= collected(grammar@, self.model(), true).items);
        if let Some(true) = self.apply_while_pattern_last {
            list.push(Box::new(self._while.clone()));
        } else {
            list.unshift(Box::new(self._while.clone()));
        }
        Ok(list)
    }
}

impl AbstractRule for BeginWhileRule {
    open spec fn model(&self) -> RuleView {
        RuleView::BeginWhileRule(self@)
    }

    open spec fn cache(&self) -> Option<Seq<RegExpSourceView>> {
        remembered(self._cached_compiled_patterns)
    }

    open spec fn well_formed(&self) -> bool {
        self.wf()
    }

    fn id(&self) -> (id: i32) {
        self.rule.id
    }

    fn type_of(&self) -> (name: String) {
        self.rule._type.clone()
    }

    fn get_rule(&self) -> (rule: Rule) {
        assert(self.model().base() == self.rule);
        self.rule.clone()
    }

    fn get_rule_instance(&self) -> (instance: RuleEnum) {
        RuleEnum::BeginWhileRule(self.clone())
    }

    fn has_missing_pattern(&self) -> (missing: bool)
        ensures
            missing == self.has_missing_patterns,
    {
        self.has_missing_patterns
    }

    fn patterns_length(&self) -> (length: i32)
        ensures
            length == self.patterns.len(),
    {
        self.patterns.len() as i32
    }

    fn collect_patterns_recursive(
        &self,
        grammar: &Grammar,
        out: &mut RegExpSourceList,
        is_first: bool,
    ) -> (result: Result<(), RuleError>) {
        if is_first {
            let mut path: Vec<i32> = Vec::new();
            assert(path@ =~= Seq::<i32>::empty());
            grammar.contribute_all(&self.patterns, &mut path, out)
        } else {
            let ghost before = out@;
            out.push(Box::new(self._begin.clone()));
            assert(out@ =~= before + seq![self._begin@]);
            Ok(())
        }
    }

    fn compile(
        &mut self,
        grammar: &Grammar,
        end_regex_source: Option<String>,
        allow_a: bool,
        allow_g: bool,
    ) -> (result: Result<CompiledRule, RuleError>) {
        match &mut self._cached_compiled_patterns {
            Some(list) => {
                return Ok(list.compile_for(allow_a, allow_g));
            },
            None => {},
        }
        let list = match self.gather(grammar) {
            Ok(list) => list,
            Err(error) => {
                return Err(error);
            },
        };
        Ok(compile_fresh(&mut self._cached_compiled_patterns, list, allow_a, allow_g))
    }
}

} // verus!
