use crate::rule::abstract_rule::{AbstractRule, RuleEnum, RuleView};
use crate::rule::compiled_rule::{CompiledRule, CompiledRuleView};
use crate::rule::error::RuleError;
use crate::rule::reg_exp_source::{any_anchor, compiled, RegExpSourceList, RegExpSourceView};
use vstd::prelude::*;

verus! {

/// What a walk over rules has gathered: the patterns found, in the order in which they are to
/// be tried, and the first identifier that named no rule, if there was one. The walk stops at
/// such an identifier, so `items` then holds what was found before it.
pub struct Collected {
    pub items: Seq<RegExpSourceView>,
    pub unresolved: Option<i32>,
}

impl Collected {
    /// Nothing found, nothing wrong.
    pub open spec fn nothing() -> Collected {
        Collected { items: Seq::empty(), unresolved: None }
    }

    /// One pattern found.
    pub open spec fn one(pattern: RegExpSourceView) -> Collected {
        Collected { items: seq![pattern], unresolved: None }
    }

    /// The walk met `id`, which names no rule.
    pub open spec fn missing(id: i32) -> Collected {
        Collected { items: Seq::empty(), unresolved: Some(id) }
    }

    /// The walk `self` followed by the walk `next`, which is not begun where `self` stopped at
    /// an unresolved identifier.
    pub open spec fn followed_by(self, next: Collected) -> Collected {
        if self.unresolved is Some {
            self
        } else {
            Collected { items: self.items + next.items, unresolved: next.unresolved }
        }
    }

    /// What the caller of a walk is told: the identifier that named no rule, or success.
    pub open spec fn outcome(self) -> Result<(), RuleError> {
        match self.unresolved {
            Some(id) => Err(RuleError::UnresolvedReference(id)),
            None => Ok(()),
        }
    }
}

/// Whether the registry `rules` holds a rule under `id`. Identifiers are given out in the
/// order of registration, starting with 1.
pub open spec fn known(rules: Seq<RuleView>, id: i32) -> bool {
    1 <= id <= rules.len()
}

/// The rule that `rules` holds under `id`.
pub open spec fn rule_at(rules: Seq<RuleView>, id: i32) -> RuleView {
    rules[id - 1]
}

/// How many of the identifiers 1 to `count` are not on `path`.
pub open spec fn unvisited(count: nat, path: Seq<i32>) -> nat
    decreases count,
{
    if count == 0 {
        0
    } else {
        let below = unvisited((count - 1) as nat, path);
        if path.contains(count as i32) {
            below
        } else {
            below + 1
        }
    }
}

/// Entering a registered rule that is not on the path leaves fewer rules to enter.
pub proof fn lemma_unvisited_decreases(count: nat, path: Seq<i32>, id: i32)
    requires
        1 <= id <= count,
        !path.contains(id),
    ensures
        unvisited(count, path.push(id)) < unvisited(count, path),
    decreases count,
{
    let longer = path.push(id);
    assert(longer[path.len() as int] == id);
    if count == id {
        lemma_unvisited_shrinks((count - 1) as nat, path, id);
        assert(longer.contains(count as i32));
    } else {
        lemma_unvisited_decreases((count - 1) as nat, path, id);
        if path.contains(count as i32) {
            let i = choose|i: int| 0 <= i < path.len() && path[i] == count as i32;
            assert(longer[i] == count as i32);
        }
    }
}

/// A longer path never leaves more rules to enter.
pub proof fn lemma_unvisited_shrinks(count: nat, path: Seq<i32>, id: i32)
    ensures
        unvisited(count, path.push(id)) <= unvisited(count, path),
    decreases count,
{
    if count > 0 {
        lemma_unvisited_shrinks((count - 1) as nat, path, id);
        let longer = path.push(id);
        if path.contains(count as i32) {
            let i = choose|i: int| 0 <= i < path.len() && path[i] == count as i32;
            assert(longer[i] == count as i32);
        }
    }
}

/// What the rule `id` contributes to the pattern list of a rule that nests it.
///
/// A rule with a pattern of its own contributes that pattern and nothing of what it nests:
/// a rule that nests itself, directly or through others, is therefore never entered twice.
/// A rule that only includes others contributes what they contribute, unless it is already
/// being entered (`path` holds the rules that are), in which case it contributes nothing more.
/// The other kinds contribute nothing. An identifier that names no rule stops the walk.
pub open spec fn contribution(rules: Seq<RuleView>, id: i32, path: Seq<i32>) -> Collected
    decreases unvisited(rules.len(), path), 0nat,
{
    if !known(rules, id) {
        Collected::missing(id)
    } else {
        let rule = rule_at(rules, id);
        match rule.representative() {
            Some(pattern) => Collected::one(pattern),
            None => {
                if rule is IncludeOnlyRule && !path.contains(id) {
                    proof {
                        lemma_unvisited_decreases(rules.len(), path, id);
                    }
                    contributions(rules, rule.children(), path.push(id))
                } else {
                    Collected::nothing()
                }
            },
        }
    }
}

/// What the rules `children` contribute, one after the other.
pub open spec fn contributions(rules: Seq<RuleView>, children: Seq<i32>, path: Seq<i32>)
    -> Collected
    decreases unvisited(rules.len(), path), children.len() + 1,
{
    if children.len() == 0 {
        Collected::nothing()
    } else {
        contribution(rules, children.first(), path).followed_by(
            contributions(rules, children.drop_first(), path),
        )
    }
}

/// What `rule` adds to a pattern list when it is asked for its patterns.
///
/// At the first level a rule stands for what it nests: the search is for the entry into one
/// of the nested rules, not for the rule that is already entered. Below the first level it
/// stands for itself. A match rule has one pattern and nests nothing, so it adds that pattern
/// at either level; a rule that only includes others has no pattern, so it adds theirs at
/// either level. Capture rules and empty rules add nothing.
pub open spec fn collected(rules: Seq<RuleView>, rule: RuleView, is_first: bool) -> Collected {
    match rule {
        RuleView::MatchRule(r) => Collected::one(r.pattern),
        RuleView::BeginEndRule(r) => {
            if is_first {
                contributions(rules, r.patterns, Seq::empty())
            } else {
                Collected::one(r.begin)
            }
        },
        RuleView::BeginWhileRule(r) => {
            if is_first {
                contributions(rules, r.patterns, Seq::empty())
            } else {
                Collected::one(r.begin)
            }
        },
        RuleView::IncludeOnlyRule(r) => contributions(rules, r.patterns, seq![r.rule.id]),
        RuleView::CaptureRule(_) => Collected::nothing(),
        RuleView::EmptyRule(_) => Collected::nothing(),
    }
}

/// The walk `found` with the pattern that closes the region added: behind all that was found
/// when `closing_last` holds, in front of it otherwise. A walk that stopped stays as it is.
pub open spec fn closed_by(found: Collected, closing: RegExpSourceView, closing_last: bool)
    -> Collected {
    if found.unresolved is Some {
        found
    } else if closing_last {
        Collected { items: found.items.push(closing), unresolved: None }
    } else {
        Collected { items: seq![closing] + found.items, unresolved: None }
    }
}

/// The patterns that are scanned for while `rule` is the active rule, in the order of their
/// priority: what the rule collects at the first level and, for a rule that closes a region,
/// the closing pattern.
pub open spec fn pattern_list(rules: Seq<RuleView>, rule: RuleView) -> Collected {
    match rule {
        RuleView::BeginEndRule(r) => closed_by(
            collected(rules, rule, true),
            r.end,
            r.end_is_last(),
        ),
        RuleView::BeginWhileRule(r) => closed_by(
            collected(rules, rule, true),
            r.while_pattern,
            r.while_is_last(),
        ),
        _ => collected(rules, rule, true),
    }
}

/// Whether `gathered` is the outcome of gathering the pattern list `expected`: the list
/// itself, well formed, or the identifier at which gathering stopped.
pub open spec fn gathers(gathered: Result<RegExpSourceList, RuleError>, expected: Collected)
    -> bool {
    match gathered {
        Ok(list) => list.wf() && expected == (Collected { items: list@, unresolved: None }),
        Err(error) => expected.unresolved matches Some(id) && error
            == RuleError::UnresolvedReference(id),
    }
}

/// What compiling a rule returns. A rule that remembers a pattern list compiles that list;
/// any other rule compiles the list `fresh`, gathered for this call, and fails where
/// gathering met an identifier that names no rule.
pub open spec fn compile_outcome(
    cache: Option<Seq<RegExpSourceView>>,
    fresh: Collected,
    allow_a: bool,
    allow_g: bool,
) -> Result<CompiledRuleView, RuleError> {
    match cache {
        Some(items) => Ok(compiled(items, allow_a, allow_g)),
        None => match fresh.unresolved {
            Some(id) => Err(RuleError::UnresolvedReference(id)),
            None => Ok(compiled(fresh.items, allow_a, allow_g)),
        },
    }
}

/// What a rule remembers after it was compiled. A list once remembered stays. A list gathered
/// for this call is remembered if the rule is of a kind that remembers, gathering succeeded
/// and the list holds no anchor: the compiled form of a list with an anchor depends on the
/// flags of each call, so such a list is gathered anew every time.
pub open spec fn cache_after(
    remembers: bool,
    cache: Option<Seq<RegExpSourceView>>,
    fresh: Collected,
) -> Option<Seq<RegExpSourceView>> {
    match cache {
        Some(items) => Some(items),
        None => {
            if remembers && fresh.unresolved is None && !any_anchor(fresh.items) {
                Some(fresh.items)
            } else {
                None
            }
        },
    }
}

/// What compiling the rule `id` of the registry `rules` returns: the compiled form of the
/// rule's pattern list, or the identifier that names no rule, be it `id` itself or one that
/// was met while the list was gathered.
pub open spec fn compiled_rule(rules: Seq<RuleView>, id: i32, allow_a: bool, allow_g: bool)
    -> Result<CompiledRuleView, RuleError> {
    if known(rules, id) {
        compile_outcome(None, pattern_list(rules, rule_at(rules, id)), allow_a, allow_g)
    } else {
        Err(RuleError::UnresolvedReference(id))
    }
}

/// A rule with a pattern of its own is not entered when it is met below the first level: it
/// contributes that one pattern, whatever it nests and whatever is on the path. This is
/// what keeps the walk finite on rules that nest each other.
pub proof fn lemma_patterned_rule_is_not_entered(rules: Seq<RuleView>, id: i32, path: Seq<i32>)
    requires
        known(rules, id),
        rule_at(rules, id).representative() is Some,
    ensures
        contribution(rules, id, path) == Collected::one(rule_at(rules, id).representative()->0),
{
}

/// A rule that only includes others is not entered again while it is being entered: met on
/// its own path it contributes nothing more.
pub proof fn lemma_rule_on_path_is_not_entered(rules: Seq<RuleView>, id: i32, path: Seq<i32>)
    requires
        known(rules, id),
        rule_at(rules, id) is IncludeOnlyRule,
        path.contains(id),
    ensures
        contribution(rules, id, path) == Collected::nothing(),
{
}

/// Children that all have a pattern of their own contribute exactly these patterns, one for
/// each child and in the order of the children, whatever the children nest: rules that nest
/// each other are collected in one step.
pub proof fn lemma_patterned_children_contribute_their_patterns(
    rules: Seq<RuleView>,
    children: Seq<i32>,
    path: Seq<i32>,
)
    requires
        forall|i: int|
            0 <= i < children.len() ==> known(rules, #[trigger] children[i]) && rule_at(
                rules,
                children[i],
            ).representative() is Some,
    ensures
        contributions(rules, children, path) == (Collected {
            items: Seq::new(
                children.len(),
                |i: int| rule_at(rules, children[i]).representative()->0,
            ),
            unresolved: None,
        }),
    decreases children.len(),
{
    let expected = Seq::new(
        children.len(),
        |i: int| rule_at(rules, children[i]).representative()->0,
    );
    if children.len() == 0 {
        assert(contributions(rules, children, path).items =~= expected);
    } else {
        let rest = children.drop_first();
        assert forall|i: int| 0 <= i < rest.len() implies known(rules, #[trigger] rest[i])
            && rule_at(rules, rest[i]).representative() is Some by {
            assert(rest[i] == children[i + 1]);
        }
        lemma_patterned_children_contribute_their_patterns(rules, rest, path);
        let first = contribution(rules, children[0], path);
        assert(first == Collected::one(rule_at(rules, children[0]).representative()->0));
        assert(contributions(rules, children, path) == first.followed_by(
            contributions(rules, rest, path),
        ));
        assert(contributions(rules, children, path).items =~= expected);
    }
}

/// Children that are not rules of the including kind contribute at most one pattern each,
/// whatever they nest themselves.
pub proof fn lemma_at_most_one_pattern_per_child(
    rules: Seq<RuleView>,
    children: Seq<i32>,
    path: Seq<i32>,
)
    requires
        forall|i: int|
            0 <= i < children.len() && known(rules, #[trigger] children[i]) ==> !(rule_at(
                rules,
                children[i],
            ) is IncludeOnlyRule),
    ensures
        contributions(rules, children, path).items.len() <= children.len(),
    decreases children.len(),
{
    if children.len() > 0 {
        let rest = children.drop_first();
        assert forall|i: int| 0 <= i < rest.len() && known(rules, #[trigger] rest[i]) implies !(
        rule_at(rules, rest[i]) is IncludeOnlyRule) by {
            assert(rest[i] == children[i + 1]);
        }
        lemma_at_most_one_pattern_per_child(rules, rest, path);
        let first = contribution(rules, children[0], path);
        assert(first.items.len() <= 1);
        assert(contributions(rules, children, path) == first.followed_by(
            contributions(rules, rest, path),
        ));
    }
}

/// Below the first level a registered rule adds to a pattern list what it contributes to
/// a rule that nests it.
pub proof fn lemma_contribution_is_collection_below_first_level(rules: Seq<RuleView>, id: i32)
    requires
        known(rules, id),
        rule_at(rules, id).id() == id,
    ensures
        contribution(rules, id, Seq::empty()) == collected(rules, rule_at(rules, id), false),
{
    assert(Seq::<i32>::empty().push(id) =~= seq![id]);
}

/// A walk that went through stays what it is when one more rule is registered: every
/// identifier that it met named a rule before, and names the same rule after.
pub proof fn lemma_contribution_survives(
    rules: Seq<RuleView>,
    extra: RuleView,
    id: i32,
    path: Seq<i32>,
)
    requires
        contribution(rules, id, path).unresolved is None,
    ensures
        contribution(rules.push(extra), id, path) == contribution(rules, id, path),
    decreases unvisited(rules.len(), path), 0nat,
{
    let more = rules.push(extra);
    assert(known(rules, id));
    assert(rule_at(more, id) == rule_at(rules, id));
    let rule = rule_at(rules, id);
    if rule.representative() is None && rule is IncludeOnlyRule && !path.contains(id) {
        lemma_unvisited_decreases(rules.len(), path, id);
        lemma_contributions_survive(rules, extra, rule.children(), path.push(id));
    }
}

/// A walk over several rules that went through stays what it is when one more rule is
/// registered.
pub proof fn lemma_contributions_survive(
    rules: Seq<RuleView>,
    extra: RuleView,
    children: Seq<i32>,
    path: Seq<i32>,
)
    requires
        contributions(rules, children, path).unresolved is None,
    ensures
        contributions(rules.push(extra), children, path) == contributions(rules, children, path),
    decreases unvisited(rules.len(), path), children.len() + 1,
{
    if children.len() > 0 {
        lemma_contribution_survives(rules, extra, children.first(), path);
        lemma_contributions_survive(rules, extra, children.drop_first(), path);
    }
}

/// A pattern list that could be gathered stays what it is when one more rule is registered.
pub proof fn lemma_pattern_list_survives(rules: Seq<RuleView>, extra: RuleView, rule: RuleView)
    requires
        pattern_list(rules, rule).unresolved is None,
    ensures
        pattern_list(rules.push(extra), rule) == pattern_list(rules, rule),
{
    match rule {
        RuleView::BeginEndRule(r) => {
            lemma_contributions_survive(rules, extra, r.patterns, Seq::empty());
        },
        RuleView::BeginWhileRule(r) => {
            lemma_contributions_survive(rules, extra, r.patterns, Seq::empty());
        },
        RuleView::IncludeOnlyRule(r) => {
            lemma_contributions_survive(rules, extra, r.patterns, seq![r.rule.id]);
        },
        _ => {},
    }
}

/// The result of a compilation with the compiled rule seen as its view.
pub open spec fn viewed(result: Result<CompiledRule, RuleError>) -> Result<
    CompiledRuleView,
    RuleError,
> {
    match result {
        Ok(rule) => Ok(rule@),
        Err(error) => Err(error),
    }
}

/// The views of a sequence of rules, in order.
pub open spec fn rule_views(rules: Seq<RuleEnum>) -> Seq<RuleView> {
    Seq::new(rules.len(), |i: int| rules[i]@)
}

/// Whether `id` is on `path`.
fn on_path(path: &Vec<i32>, id: i32) -> (found: bool)
    ensures
        found == path@.contains(id),
{
    let mut i: usize = 0;
    while i < path.len()
        invariant
            i <= path.len(),
            forall|k: int| 0 <= k < i ==> path[k] != id,
        decreases path.len() - i,
    {
        if path[i] == id {
            return true;
        }
        i = i + 1;
    }
    false
}

/// The registry of a grammar: it owns every rule and hands each out by its identifier.
/// Identifiers are given out in the order of registration, starting with 1, and a registered
/// rule is neither replaced nor removed.
#[derive(Debug)]
pub struct Grammar {
    rules: Vec<RuleEnum>,
}

impl View for Grammar {
    type V = Seq<RuleView>;

    closed spec fn view(&self) -> Seq<RuleView> {
        rule_views(self.rules@)
    }
}

impl Grammar {
    /// The registry's invariant: the rule under the identifier `id` is the one that says of
    /// itself that it is `id`, every rule is well formed, and the identifiers fit their type.
    pub closed spec fn wf(&self) -> bool {
        &&& self.rules.len() <= i32::MAX
        &&& forall|k: int| 0 <= k < self.rules.len() ==> (#[trigger] self.rules[k]).wf()
        &&& forall|k: int| 0 <= k < self.rules.len() ==> (#[trigger] self@[k]).id() == k + 1
        &&& forall|k: int|
            0 <= k < self.rules.len() ==> ((#[trigger] self.rules[k]).cached_list() matches Some(
                items,
            ) ==> pattern_list(self@, self.rules[k]@) == (Collected { items, unresolved: None }))
    }

    /// The entries of the pattern list that the rule `id` remembers, if it remembers one.
    pub closed spec fn cached_list(&self, id: i32) -> Option<Seq<RegExpSourceView>> {
        if known(self@, id) {
            self.rules[id - 1].cached_list()
        } else {
            None
        }
    }

    /// An empty registry.
    pub fn new() -> (grammar: Self)
        ensures
            grammar.wf(),
            grammar@ == Seq::<RuleView>::empty(),
    {
        let grammar = Grammar { rules: Vec::new() };
        assert(grammar@ =~= Seq::<RuleView>::empty());
        grammar
    }

    /// The number of registered rules, which is also the greatest identifier in use.
    pub fn len(&self) -> (n: usize)
        ensures
            n == self@.len(),
    {
        self.rules.len()
    }

    /// The rule registered under `id`.
    pub fn get_rule(&self, id: i32) -> (found: Result<&RuleEnum, RuleError>)
        requires
            self.wf(),
        ensures
            known(self@, id) ==> (found matches Ok(rule) && rule@ == rule_at(self@, id)
                && rule.wf() && rule.cached_list() == self.cached_list(id)),
            !known(self@, id) ==> found == Err::<&RuleEnum, RuleError>(
                RuleError::UnresolvedReference(id),
            ),
    {
        if id < 1 || id as usize > self.rules.len() {
            return Err(RuleError::UnresolvedReference(id));
        }
        let index = (id - 1) as usize;
        assert(self@[index as int] == self.rules[index as int]@);
        Ok(&self.rules[index])
    }

    /// Registers `rule` under the next free identifier, which is the number of rules
    /// registered so far plus one and must be the identifier that the rule says it has.
    /// A rule with any other identifier is refused and the registry stays as it is. What the
    /// rule remembers of earlier compilations is not taken over.
    pub fn register_rule(&mut self, rule: RuleEnum) -> (result: Result<i32, RuleError>)
        requires
            old(self).wf(),
            rule.wf(),
        ensures
            final(self).wf(),
            forall|id: i32|
                known(old(self)@, id) ==> #[trigger] final(self).cached_list(id) == old(
                    self,
                ).cached_list(id),
            match result {
                Ok(id) => {
                    &&& id == old(self)@.len() + 1
                    &&& rule@.id() == id
                    &&& final(self)@ == old(self)@.push(rule@)
                    &&& final(self).cached_list(id) is None
                },
                Err(error) => {
                    &&& final(self)@ == old(self)@
                    &&& error == RuleError::IdOutOfSequence(rule@.id())
                    &&& rule@.id() != old(self)@.len() + 1
                },
            },
    {
        let found = rule.id();
        if found < 1 || (found - 1) as usize != self.rules.len() {
            return Err(RuleError::IdOutOfSequence(found));
        }
        let ghost before = self@;
        let ghost stored = self.rules@;
        let mut rule = rule;
        rule.remember(None);
        self.rules.push(rule);
        proof {
            assert(self@ =~= before.push(rule@));
            assert forall|k: int| 0 <= k < self.rules.len() implies ((
            #[trigger] self.rules[k]).cached_list() matches Some(items) ==> pattern_list(
                self@,
                self.rules[k]@,
            ) == (Collected { items, unresolved: None })) by {
                if k < stored.len() {
                    assert(self.rules[k] == stored[k]);
                    assert(before[k] == stored[k]@);
                    if stored[k].cached_list() is Some {
                        lemma_pattern_list_survives(before, rule@, stored[k]@);
                    }
                }
            }
            assert forall|k: int| 0 <= k < self.rules.len() implies (#[trigger] self@[k]).id()
                == k + 1 by {
                if k < stored.len() {
                    assert(self@[k] == before[k]);
                }
            }
        }
        Ok(found)
    }

    /// The scanner-ready form of the patterns that are scanned for while the rule `id` is the
    /// active one, under the given anchor flags.
    ///
    /// The pattern list of the rule is gathered on the first call and is remembered in the
    /// registry from then on if it holds no anchor; a list with an anchor is gathered anew on
    /// every call. The end pattern override is taken for the sake of the callers that have
    /// one and is not looked at.
    pub fn compile_rule(
        &mut self,
        id: i32,
        end_regex_source: Option<String>,
        allow_a: bool,
        allow_g: bool,
    ) -> (result: Result<CompiledRule, RuleError>)
        requires
            old(self).wf(),
        ensures
            final(self).wf(),
            final(self)@ == old(self)@,
            viewed(result) == compiled_rule(old(self)@, id, allow_a, allow_g),
            forall|other: i32|
                other != id ==> #[trigger] final(self).cached_list(other) == old(
                    self,
                ).cached_list(other),
            known(old(self)@, id) ==> final(self).cached_list(id) == cache_after(
                rule_at(old(self)@, id).remembers(),
                old(self).cached_list(id),
                pattern_list(old(self)@, rule_at(old(self)@, id)),
            ),
    {
        if id < 1 || id as usize > self.rules.len() {
            return Err(RuleError::UnresolvedReference(id));
        }
        let index = (id - 1) as usize;
        let ghost before = self@;
        let ghost stored = self.rules@;
        assert(before[index as int] == stored[index as int]@);
        let remembered = self.rules[index].compile_remembered(allow_a, allow_g);
        proof {
            assert(self@ =~= before);
            assert forall|k: int| 0 <= k < self.rules.len() implies (
            #[trigger] self.rules[k]).wf() && self.rules[k].cached_list()
                == stored[k].cached_list() by {
                if k != index {
                    assert(self.rules[k] == stored[k]);
                }
            }
        }
        if let Some(rule) = remembered {
            return Ok(rule);
        }
        let mut list = match self.rules[index].gather(&*self) {
            Ok(list) => list,
            Err(error) => {
                return Err(error);
            },
        };
        let rule = list.compile_for(allow_a, allow_g);
        if !list.has_anchors() {
            let ghost kept = self.rules@;
            self.rules[index].remember(Some(list));
            proof {
                assert(self@ =~= before);
                assert forall|k: int| 0 <= k < self.rules.len() implies (
                #[trigger] self.rules[k]).wf() && (k != index ==> self.rules[k].cached_list()
                    == stored[k].cached_list()) by {
                    if k != index {
                        assert(self.rules[k] == kept[k]);
                    }
                }
            }
        }
        Ok(rule)
    }

    /// Appends to `out` what the rule `id` contributes to a rule that nests it.
    pub(crate) fn contribute(
        &self,
        id: i32,
        path: &mut Vec<i32>,
        out: &mut RegExpSourceList,
    ) -> (result: Result<(), RuleError>)
        requires
            self.wf(),
            old(out).wf(),
        ensures
            final(path)@ == old(path)@,
            final(out).wf(),
            final(out)@ == old(out)@ + contribution(self@, id, old(path)@).items,
            result == contribution(self@, id, old(path)@).outcome(),
        decreases unvisited(self@.len(), old(path)@), 0nat,
    {
        let ghost before = out@;
        let rule = match self.get_rule(id) {
            Ok(rule) => rule,
            Err(error) => {
                assert(out@ =~= before + Seq::<RegExpSourceView>::empty());
                return Err(error);
            },
        };
        match rule {
            RuleEnum::MatchRule(r) => {
                out.push(Box::new(r._match.clone()));
                assert(out@ =~= before + seq![r._match@]);
                Ok(())
            },
            RuleEnum::BeginEndRule(r) => {
                out.push(Box::new(r._begin.clone()));
                assert(out@ =~= before + seq![r._begin@]);
                Ok(())
            },
            RuleEnum::BeginWhileRule(r) => {
                out.push(Box::new(r._begin.clone()));
                assert(out@ =~= before + seq![r._begin@]);
                Ok(())
            },
            RuleEnum::IncludeOnlyRule(r) => {
                if on_path(path, id) {
                    assert(out@ =~= before + Seq::<RegExpSourceView>::empty());
                    Ok(())
                } else {
                    let ghost outer = path@;
                    proof {
                        lemma_unvisited_decreases(self@.len(), outer, id);
                    }
                    path.push(id);
                    let result = self.contribute_all(&r.patterns, path, out);
                    path.pop();
                    assert(path@ =~= outer);
                    result
                }
            },
            RuleEnum::CaptureRule(_) => {
                assert(out@ =~= before + Seq::<RegExpSourceView>::empty());
                Ok(())
            },
            RuleEnum::EmptyRule(_) => {
                assert(out@ =~= before + Seq::<RegExpSourceView>::empty());
                Ok(())
            },
        }
    }

    /// Appends to `out` what the rules `children` contribute, one after the other, and stops
    /// at the first identifier that names no rule.
    pub(crate) fn contribute_all(
        &self,
        children: &Vec<i32>,
        path: &mut Vec<i32>,
        out: &mut RegExpSourceList,
    ) -> (result: Result<(), RuleError>)
        requires
            self.wf(),
            old(out).wf(),
        ensures
            final(path)@ == old(path)@,
            final(out).wf(),
            final(out)@ == old(out)@ + contributions(self@, children@, old(path)@).items,
            result == contributions(self@, children@, old(path)@).outcome(),
        decreases unvisited(self@.len(), old(path)@), children.len() + 1,
    {
        let ghost before = out@;
        let ghost outer = path@;
        let ghost whole = contributions(self@, children@, outer);
        let ghost mut found: Seq<RegExpSourceView> = Seq::empty();
        let mut i: usize = 0;
        assert(children@.skip(0) =~= children@);
        assert(out@ =~= before + found);
        assert(whole.items =~= found + whole.items);
        while i < children.len()
            invariant
                self.wf(),
                i <= children.len(),
                outer == old(path)@,
                before == old(out)@,
                path@ == outer,
                out.wf(),
                out@ == before + found,
                whole == contributions(self@, children@, outer),
                whole.items == found + contributions(self@, children@.skip(i as int), outer).items,
                whole.unresolved == contributions(
                    self@,
                    children@.skip(i as int),
                    outer,
                ).unresolved,
            decreases children.len() - i,
        {
            let ghost rest = children@.skip(i as int);
            let ghost step = contribution(self@, children[i as int], outer);
            let ghost tail = contributions(self@, rest.drop_first(), outer);
            assert(rest.first() == children[i as int]);
            assert(rest.drop_first() =~= children@.skip(i + 1));
            assert(contributions(self@, rest, outer) == step.followed_by(tail));
            let result = self.contribute(children[i], path, out);
            proof {
                assert(out@ =~= before + (found + step.items));
                if step.unresolved is None {
                    assert(whole.items =~= (found + step.items) + tail.items);
                }
                found = found + step.items;
            }
            if result.is_err() {
                return result;
            }
            i = i + 1;
        }
        assert(children@.skip(children.len() as int) =~= Seq::<i32>::empty());
        assert(out@ =~= before + whole.items);
        Ok(())
    }
}

} // verus!
