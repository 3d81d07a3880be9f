use crate::grammar::registry::{
    cache_after, collected, compile_outcome, gathers, pattern_list, viewed, Grammar,
};
use crate::inter::{CaptureIndex, ILocation};
use crate::rule::begin_end_rule::{BeginEndRule, BeginEndRuleView};
use crate::rule::begin_while_rule::{BeginWhileRule, BeginWhileRuleView};
use crate::rule::capture_rule::{CaptureRule, CaptureRuleView};
use crate::rule::compiled_rule::CompiledRule;
use crate::rule::empty_rule::{EmptyRule, EmptyRuleView};
use crate::rule::error::RuleError;
use crate::rule::include_only_rule::{IncludeOnlyRule, IncludeOnlyRuleView};
use crate::rule::match_rule::{MatchRule, MatchRuleView};
use crate::rule::reg_exp_source::{any_anchor, compiled, RegExpSourceList, RegExpSourceView};
use crate::support::regex_source::{refers_to_capture, RegexSource};
use crate::support::text::clone_text;
use vstd::prelude::*;

verus! {

/// What every rule carries, whatever its kind.
#[derive(Debug)]
pub struct Rule {
    /// The name of the rule's kind, such as `MatchRule`.
    pub _type: String,
    /// Where the rule was written down, for diagnostics.
    pub _location: Option<ILocation>,
    /// The identifier under which the registry holds the rule. Other rules refer to it by this
    /// number and in no other way.
    pub id: i32,
    /// The scope name of the text that the rule matches.
    pub _name: Option<String>,
    /// The scope name of the text between the begin and the closing pattern.
    pub _content_name: Option<String>,
}

impl Clone for Rule {
    fn clone(&self) -> (copy: Self)
        ensures
            copy == *self,
    {
        let location = match &self._location {
            Some(place) => Some(place.clone()),
            None => None,
        };
        Rule {
            _type: self._type.clone(),
            _location: location,
            id: self.id,
            _name: clone_text(&self._name),
            _content_name: clone_text(&self._content_name),
        }
    }
}

/// The entries of a remembered pattern list, if one is remembered.
pub open spec fn remembered(cache: Option<RegExpSourceList>) -> Option<Seq<RegExpSourceView>> {
    match cache {
        Some(list) => Some(list@),
        None => None,
    }
}

/// A rule remembers only lists that are well formed and hold no anchor: the compiled form of
/// such a list does not depend on where a search starts.
pub open spec fn cache_wf(cache: Option<RegExpSourceList>) -> bool {
    cache matches Some(list) ==> list.wf() && !list.anchored()
}

/// A copy of a remembered pattern list.
pub(crate) fn clone_cache(cache: &Option<RegExpSourceList>) -> (copy: Option<RegExpSourceList>)
    ensures
        remembered(copy) == remembered(*cache),
        cache_wf(*cache) ==> cache_wf(copy),
{
    match cache {
        Some(list) => Some(list.clone()),
        None => None,
    }
}

/// Compiles a pattern list that was gathered for this call and remembers it in `cache` if
/// it holds no anchor.
pub(crate) fn compile_fresh(
    cache: &mut Option<RegExpSourceList>,
    list: RegExpSourceList,
    allow_a: bool,
    allow_g: bool,
) -> (rule: CompiledRule)
    requires
        list.wf(),
        *old(cache) is None,
    ensures
        rule@ == compiled(list@, allow_a, allow_g),
        remembered(*final(cache)) == if any_anchor(list@) {
            None
        } else {
            Some(list@)
        },
        cache_wf(*final(cache)),
{
    let mut list = list;
    let rule = list.compile_for(allow_a, allow_g);
    if !list.has_anchors() {
        *cache = Some(list);
    }
    rule
}

/// Whether a rule's name is handed out as it is written: it is, unless a match is given by
/// its capture ranges and its line, and the name refers to a capture group.
pub open spec fn name_is_literal(
    name: Option<String>,
    line_text: Option<String>,
    capture_indices: Option<Vec<CaptureIndex>>,
) -> bool {
    capture_indices is None || line_text is None || !refers_to_capture(name)
}

/// What a rule is, apart from what it remembers of earlier compilations.
pub enum RuleView {
    BeginEndRule(BeginEndRuleView),
    BeginWhileRule(BeginWhileRuleView),
    CaptureRule(CaptureRuleView),
    MatchRule(MatchRuleView),
    EmptyRule(EmptyRuleView),
    IncludeOnlyRule(IncludeOnlyRuleView),
}

impl RuleView {
    /// The fields that all kinds share.
    pub open spec fn base(self) -> Rule {
        match self {
            RuleView::BeginEndRule(r) => r.rule,
            RuleView::BeginWhileRule(r) => r.rule,
            RuleView::CaptureRule(r) => r.rule,
            RuleView::MatchRule(r) => r.rule,
            RuleView::EmptyRule(r) => r.rule,
            RuleView::IncludeOnlyRule(r) => r.rule,
        }
    }

    /// The rule's identifier.
    pub open spec fn id(self) -> i32 {
        self.base().id
    }

    /// The pattern by which the rule is found when it is met below the first level: the match
    /// pattern of a match rule, the begin pattern of a rule with a begin. The other kinds have
    /// none.
    pub open spec fn representative(self) -> Option<RegExpSourceView> {
        match self {
            RuleView::BeginEndRule(r) => Some(r.begin),
            RuleView::BeginWhileRule(r) => Some(r.begin),
            RuleView::MatchRule(r) => Some(r.pattern),
            RuleView::CaptureRule(_) => None,
            RuleView::EmptyRule(_) => None,
            RuleView::IncludeOnlyRule(_) => None,
        }
    }

    /// The identifiers of the nested rules, in the order in which they are tried.
    pub open spec fn children(self) -> Seq<i32> {
        match self {
            RuleView::BeginEndRule(r) => r.patterns,
            RuleView::BeginWhileRule(r) => r.patterns,
            RuleView::IncludeOnlyRule(r) => r.patterns,
            RuleView::CaptureRule(_) => Seq::empty(),
            RuleView::MatchRule(_) => Seq::empty(),
            RuleView::EmptyRule(_) => Seq::empty(),
        }
    }

    /// Whether a nested rule had to be left out when the rule was built. An empty rule stands
    /// for a rule that is missing altogether.
    pub open spec fn has_missing_pattern(self) -> bool {
        match self {
            RuleView::BeginEndRule(r) => r.has_missing_patterns,
            RuleView::BeginWhileRule(r) => r.has_missing_patterns,
            RuleView::IncludeOnlyRule(r) => r.has_missing_patterns,
            RuleView::EmptyRule(_) => true,
            RuleView::CaptureRule(_) => false,
            RuleView::MatchRule(_) => false,
        }
    }

    /// Whether a rule of this kind remembers the pattern list that it was compiled from.
    pub open spec fn remembers(self) -> bool {
        !(self is CaptureRule) && !(self is EmptyRule)
    }

    /// The number of nested rules of a rule that can nest rules, and -1 for the other kinds.
    pub open spec fn patterns_length(self) -> int {
        match self {
            RuleView::BeginEndRule(r) => r.patterns.len() as int,
            RuleView::BeginWhileRule(r) => r.patterns.len() as int,
            RuleView::IncludeOnlyRule(r) => r.patterns.len() as int,
            RuleView::EmptyRule(_) => -1,
            RuleView::CaptureRule(_) => -1,
            RuleView::MatchRule(_) => -1,
        }
    }
}

/// A rule of any of the six kinds.
#[derive(Debug)]
pub enum RuleEnum {
    BeginEndRule(BeginEndRule),
    BeginWhileRule(BeginWhileRule),
    CaptureRule(CaptureRule),
    MatchRule(MatchRule),
    EmptyRule(EmptyRule),
    IncludeOnlyRule(IncludeOnlyRule),
}

impl View for RuleEnum {
    type V = RuleView;

    open spec fn view(&self) -> RuleView {
        match self {
            RuleEnum::BeginEndRule(r) => RuleView::BeginEndRule(r@),
            RuleEnum::BeginWhileRule(r) => RuleView::BeginWhileRule(r@),
            RuleEnum::CaptureRule(r) => RuleView::CaptureRule(r@),
            RuleEnum::MatchRule(r) => RuleView::MatchRule(r@),
            RuleEnum::EmptyRule(r) => RuleView::EmptyRule(r@),
            RuleEnum::IncludeOnlyRule(r) => RuleView::IncludeOnlyRule(r@),
        }
    }
}

impl Clone for RuleEnum {
    fn clone(&self) -> (copy: Self)
        ensures
            copy@ == self@,
            copy.cached_list() == self.cached_list(),
            self.wf() ==> copy.wf(),
    {
        match self {
            RuleEnum::BeginEndRule(r) => RuleEnum::BeginEndRule(r.clone()),
            RuleEnum::BeginWhileRule(r) => RuleEnum::BeginWhileRule(r.clone()),
            RuleEnum::CaptureRule(r) => RuleEnum::CaptureRule(r.clone()),
            RuleEnum::MatchRule(r) => RuleEnum::MatchRule(r.clone()),
            RuleEnum::EmptyRule(r) => RuleEnum::EmptyRule(r.clone()),
            RuleEnum::IncludeOnlyRule(r) => RuleEnum::IncludeOnlyRule(r.clone()),
        }
    }
}

impl RuleEnum {
    /// The entries of the pattern list that the rule remembers, if it remembers one.
    pub open spec fn cached_list(&self) -> Option<Seq<RegExpSourceView>> {
        match self {
            RuleEnum::BeginEndRule(r) => remembered(r._cached_compiled_patterns),
            RuleEnum::BeginWhileRule(r) => remembered(r._cached_compiled_patterns),
            RuleEnum::MatchRule(r) => remembered(r._cached_compiled_patterns),
            RuleEnum::IncludeOnlyRule(r) => remembered(r._cached_compiled_patterns),
            RuleEnum::CaptureRule(_) => None,
            RuleEnum::EmptyRule(_) => None,
        }
    }

    /// The rule's invariant: see the kind's own.
    pub open spec fn wf(&self) -> bool {
        match self {
            RuleEnum::BeginEndRule(r) => r.wf(),
            RuleEnum::BeginWhileRule(r) => r.wf(),
            RuleEnum::MatchRule(r) => r.wf(),
            RuleEnum::IncludeOnlyRule(r) => r.wf(),
            RuleEnum::CaptureRule(_) => true,
            RuleEnum::EmptyRule(_) => true,
        }
    }
}

/// What every kind of rule can do.
pub trait AbstractRule {
    /// What the rule is, apart from what it remembers.
    spec fn model(&self) -> RuleView;

    /// The entries of the pattern list that the rule remembers, if it remembers one.
    spec fn cache(&self) -> Option<Seq<RegExpSourceView>>;

    /// The rule's invariant.
    spec fn well_formed(&self) -> bool;

    /// The rule's identifier.
    fn id(&self) -> (id: i32)
        ensures
            id == self.model().id(),
    ;

    /// The name of the rule's kind.
    fn type_of(&self) -> (name: String)
        ensures
            name == self.model().base()._type,
    ;

    /// A copy of the fields that all kinds share.
    fn get_rule(&self) -> (rule: Rule)
        ensures
            rule == self.model().base(),
    ;

    /// A copy of the rule as a value of the closed set of kinds.
    fn get_rule_instance(&self) -> (instance: RuleEnum)
        ensures
            instance@ == self.model(),
            instance.cached_list() == self.cache(),
            self.well_formed() ==> instance.wf(),
    ;

    /// The scope name of the text that the rule matched.
    ///
    /// The name is handed out as written unless it refers to a capture group and the match
    /// is given by `line_text` and `capture_indices`. For such a name the captured text is
    /// not put in: the result is then the empty name.
    fn get_name(
        &self,
        line_text: Option<String>,
        capture_indices: Option<Vec<CaptureIndex>>,
    ) -> (name: Option<String>)
        ensures
            name_is_literal(self.model().base()._name, line_text, capture_indices) ==> name
                == self.model().base()._name,
            !name_is_literal(self.model().base()._name, line_text, capture_indices) ==> (
            name matches Some(text) && text@ == Seq::<char>::empty()),
    {
        let name = self.get_rule()._name;
        if capture_indices.is_none() {
            return name;
        }
        let has_captures = RegexSource::has_captures(clone_text(&name));
        if !has_captures || name.is_none() || line_text.is_none() {
            return name;
        }
        Some(String::new())
    }

    /// Whether a nested rule had to be left out when the rule was built.
    fn has_missing_pattern(&self) -> (missing: bool)
        default_ensures
            !missing,
    {
        false
    }

    /// The number of nested rules, or -1 for a rule of a kind that nests none.
    fn patterns_length(&self) -> (length: i32)
        requires
            self.well_formed(),
        default_ensures
            length == -1,
    {
        -1
    }

    /// Appends to `out` what the rule adds to a pattern list: at the first level what its
    /// nested rules contribute, below it the pattern that stands for the rule itself. The
    /// walk stops at the first identifier that names no rule in `grammar`, and reports it.
    fn collect_patterns_recursive(
        &self,
        grammar: &Grammar,
        out: &mut RegExpSourceList,
        is_first: bool,
    ) -> (result: Result<(), RuleError>)
        requires
            grammar.wf(),
            old(out).wf(),
        ensures
            final(out).wf(),
            final(out)@ == old(out)@ + collected(grammar@, self.model(), is_first).items,
            result == collected(grammar@, self.model(), is_first).outcome(),
    ;

    /// The scanner-ready form of the patterns that are scanned for while this rule is the
    /// active one, under the given anchor flags.
    ///
    /// A rule that remembers a pattern list compiles that list. Otherwise the list is gathered
    /// from `grammar`, and is remembered from then on if it holds no anchor. The end pattern
    /// override is taken for the sake of the callers that have one and is not looked at.
    fn compile(
        &mut self,
        grammar: &Grammar,
        end_regex_source: Option<String>,
        allow_a: bool,
        allow_g: bool,
    ) -> (result: Result<CompiledRule, RuleError>)
        requires
            old(self).well_formed(),
            grammar.wf(),
        ensures
            final(self).well_formed(),
            final(self).model() == old(self).model(),
            viewed(result) == compile_outcome(
                old(self).cache(),
                pattern_list(grammar@, old(self).model()),
                allow_a,
                allow_g,
            ),
            final(self).cache() == cache_after(
                old(self).model().remembers(),
                old(self).cache(),
                pattern_list(grammar@, old(self).model()),
            ),
    ;
}

impl RuleEnum {
    /// The patterns that are scanned for while this rule is the active one, gathered from
    /// `grammar`.
    pub(crate) fn gather(&self, grammar: &Grammar) -> (gathered: Result<
        RegExpSourceList,
        RuleError,
    >)
        requires
            grammar.wf(),
        ensures
            gathers(gathered, pattern_list(grammar@, self@)),
    {
        match self {
            RuleEnum::BeginEndRule(r) => r.gather(grammar),
            RuleEnum::BeginWhileRule(r) => r.gather(grammar),
            RuleEnum::MatchRule(r) => r.gather(grammar),
            RuleEnum::IncludeOnlyRule(r) => r.gather(grammar),
            RuleEnum::CaptureRule(_) => Ok(RegExpSourceList::new()),
            RuleEnum::EmptyRule(_) => Ok(RegExpSourceList::new()),
        }
    }

    /// The compiled form of the pattern list that the rule remembers, if it remembers one.
    pub(crate) fn compile_remembered(&mut self, allow_a: bool, allow_g: bool) -> (rule: Option<
        CompiledRule,
    >)
        requires
            old(self).wf(),
        ensures
            final(self).wf(),
            final(self)@ == old(self)@,
            final(self).cached_list() == old(self).cached_list(),
            match old(self).cached_list() {
                Some(items) => rule matches Some(found) && found@ == compiled(
                    items,
                    allow_a,
                    allow_g,
                ),
                None => rule is None,
            },
    {
        let cache = match self {
            RuleEnum::BeginEndRule(r) => &mut r._cached_compiled_patterns,
            RuleEnum::BeginWhileRule(r) => &mut r._cached_compiled_patterns,
            RuleEnum::MatchRule(r) => &mut r._cached_compiled_patterns,
            RuleEnum::IncludeOnlyRule(r) => &mut r._cached_compiled_patterns,
            RuleEnum::CaptureRule(_) => {
                return None;
            },
            RuleEnum::EmptyRule(_) => {
                return None;
            },
        };
        match cache {
            Some(list) => Some(list.compile_for(allow_a, allow_g)),
            None => None,
        }
    }

    /// Puts `cache` in the place of what the rule remembers. A rule of a kind that remembers
    /// nothing stays as it is.
    pub(crate) fn remember(&mut self, cache: Option<RegExpSourceList>)
        requires
            old(self).wf(),
            cache_wf(cache),
        ensures
            final(self).wf(),
            final(self)@ == old(self)@,
            final(self).cached_list() == if old(self)@.remembers() {
                remembered(cache)
            } else {
                None
            },
    {
        match self {
            RuleEnum::BeginEndRule(r) => {
                r._cached_compiled_patterns = cache;
            },
            RuleEnum::BeginWhileRule(r) => {
                r._cached_compiled_patterns = cache;
            },
            RuleEnum::MatchRule(r) => {
                r._cached_compiled_patterns = cache;
            },
            RuleEnum::IncludeOnlyRule(r) => {
                r._cached_compiled_patterns = cache;
            },
            RuleEnum::CaptureRule(_) => {},
            RuleEnum::EmptyRule(_) => {},
        }
    }
}

impl AbstractRule for RuleEnum {
    open spec fn model(&self) -> RuleView {
        self@
    }

    open spec fn cache(&self) -> Option<Seq<RegExpSourceView>> {
        self.cached_list()
    }

    open spec fn well_formed(&self) -> bool {
        self.wf()
    }

    fn id(&self) -> (id: i32) {
        match self {
            RuleEnum::BeginEndRule(r) => r.id(),
            RuleEnum::BeginWhileRule(r) => r.id(),
            RuleEnum::CaptureRule(r) => r.id(),
            RuleEnum::MatchRule(r) => r.id(),
            RuleEnum::EmptyRule(r) => r.id(),
            RuleEnum::IncludeOnlyRule(r) => r.id(),
        }
    }

    fn type_of(&self) -> (name: String) {
        match self {
            RuleEnum::BeginEndRule(r) => r.type_of(),
            RuleEnum::BeginWhileRule(r) => r.type_of(),
            RuleEnum::CaptureRule(r) => r.type_of(),
            RuleEnum::MatchRule(r) => r.type_of(),
            RuleEnum::EmptyRule(r) => r.type_of(),
            RuleEnum::IncludeOnlyRule(r) => r.type_of(),
        }
    }

    fn get_rule(&self) -> (rule: Rule) {
        match self {
            RuleEnum::BeginEndRule(r) => r.get_rule(),
            RuleEnum::BeginWhileRule(r) => r.get_rule(),
            RuleEnum::CaptureRule(r) => r.get_rule(),
            RuleEnum::MatchRule(r) => r.get_rule(),
            RuleEnum::EmptyRule(r) => r.get_rule(),
            RuleEnum::IncludeOnlyRule(r) => r.get_rule(),
        }
    }

    fn get_rule_instance(&self) -> (instance: RuleEnum) {
        self.clone()
    }

    fn has_missing_pattern(&self) -> (missing: bool)
        ensures
            missing == self@.has_missing_pattern(),
    {
        match self {
            RuleEnum::BeginEndRule(r) => r.has_missing_pattern(),
            RuleEnum::BeginWhileRule(r) => r.has_missing_pattern(),
            RuleEnum::CaptureRule(r) => r.has_missing_pattern(),
            RuleEnum::MatchRule(r) => r.has_missing_pattern(),
            RuleEnum::EmptyRule(r) => r.has_missing_pattern(),
            RuleEnum::IncludeOnlyRule(r) => r.has_missing_pattern(),
        }
    }

    fn patterns_length(&self) -> (length: i32)
        ensures
            length == self@.patterns_length(),
    {
        match self {
            RuleEnum::BeginEndRule(r) => r.patterns_length(),
            RuleEnum::BeginWhileRule(r) => r.patterns_length(),
            RuleEnum::CaptureRule(r) => r.patterns_length(),
            RuleEnum::MatchRule(r) => r.patterns_length(),
            RuleEnum::EmptyRule(r) => r.patterns_length(),
            RuleEnum::IncludeOnlyRule(r) => r.patterns_length(),
        }
    }

    fn collect_patterns_recursive(
        &self,
        grammar: &Grammar,
        out: &mut RegExpSourceList,
        is_first: bool,
    ) -> (result: Result<(), RuleError>) {
        match self {
            RuleEnum::BeginEndRule(r) => r.collect_patterns_recursive(grammar, out, is_first),
            RuleEnum::BeginWhileRule(r) => r.collect_patterns_recursive(grammar, out, is_first),
            RuleEnum::CaptureRule(r) => r.collect_patterns_recursive(grammar, out, is_first),
            RuleEnum::MatchRule(r) => r.collect_patterns_recursive(grammar, out, is_first),
            RuleEnum::EmptyRule(r) => r.collect_patterns_recursive(grammar, out, is_first),
            RuleEnum::IncludeOnlyRule(r) => r.collect_patterns_recursive(grammar, out, is_first),
        }
    }

    fn compile(
        &mut self,
        grammar: &Grammar,
        end_regex_source: Option<String>,
        allow_a: bool,
        allow_g: bool,
    ) -> (result: Result<CompiledRule, RuleError>) {
        match self {
            RuleEnum::BeginEndRule(r) => r.compile(grammar, end_regex_source, allow_a, allow_g),
            RuleEnum::BeginWhileRule(r) => r.compile(grammar, end_regex_source, allow_a, allow_g),
            RuleEnum::CaptureRule(r) => r.compile(grammar, end_regex_source, allow_a, allow_g),
            RuleEnum::MatchRule(r) => r.compile(grammar, end_regex_source, allow_a, allow_g),
            RuleEnum::EmptyRule(r) => r.compile(grammar, end_regex_source, allow_a, allow_g),
            RuleEnum::IncludeOnlyRule(r) => r.compile(grammar, end_regex_source, allow_a, allow_g),
        }
    }
}

} // verus!
