use crate::grammar::registry::{known, rule_at, Grammar};
use crate::rule::abstract_rule::{RuleEnum, RuleView};
use crate::rule::error::RuleError;
use crate::support::text::clone_ids;
use vstd::prelude::*;

verus! {

/// Whether `id` names an empty rule, the placeholder for a rule that the grammar lacks.
pub open spec fn is_placeholder(rules: Seq<RuleView>, id: i32) -> bool {
    known(rules, id) && rule_at(rules, id) is EmptyRule
}

/// The rules of `children` that stand for a pattern: all but the placeholders, in order.
pub open spec fn resolved_children(rules: Seq<RuleView>, children: Seq<i32>) -> Seq<i32> {
    children.filter(|id: i32| !is_placeholder(rules, id))
}

/// The rules of `children` that are placeholders, in order.
pub open spec fn placeholders(rules: Seq<RuleView>, children: Seq<i32>) -> Seq<i32> {
    children.filter(|id: i32| is_placeholder(rules, id))
}

/// Whether some rule of `children` is a placeholder.
pub open spec fn has_placeholder(rules: Seq<RuleView>, children: Seq<i32>) -> bool {
    exists|i: int| 0 <= i < children.len() && is_placeholder(rules, #[trigger] children[i])
}

/// Whether position `i` of `children` holds the first identifier that names no rule.
pub open spec fn first_unknown_at(rules: Seq<RuleView>, children: Seq<i32>, i: int) -> bool {
    &&& 0 <= i < children.len()
    &&& !known(rules, children[i])
    &&& forall|j: int| 0 <= j < i ==> known(rules, #[trigger] children[j])
}

/// Every child is either resolved or a placeholder, so the two counts add up to the number
/// of children; and a child list with a placeholder has fewer resolved children than
/// children.
pub proof fn lemma_children_partition(rules: Seq<RuleView>, children: Seq<i32>)
    ensures
        resolved_children(rules, children).len() + placeholders(rules, children).len()
            == children.len(),
        has_placeholder(rules, children) <==> placeholders(rules, children).len() > 0,
        has_placeholder(rules, children) <==> resolved_children(rules, children).len()
            < children.len(),
    decreases children.len(),
{
    let keep = |id: i32| !is_placeholder(rules, id);
    let drop = |id: i32| is_placeholder(rules, id);
    if children.len() == 0 {
        reveal(Seq::filter);
        assert(children.filter(keep).len() == 0);
        assert(children.filter(drop).len() == 0);
    } else {
        let front = children.drop_last();
        let last = children.last();
        lemma_children_partition(rules, front);
        assert(children =~= front.push(last));
        front.lemma_filter_push(last, keep);
        front.lemma_filter_push(last, drop);
        if has_placeholder(rules, front) {
            let i = choose|i: int|
                0 <= i < front.len() && is_placeholder(rules, #[trigger] front[i]);
            assert(is_placeholder(rules, children[i]));
        }
        if is_placeholder(rules, last) {
            assert(is_placeholder(rules, children[children.len() - 1]));
        }
        if has_placeholder(rules, children) {
            let i = choose|i: int|
                0 <= i < children.len() && is_placeholder(rules, #[trigger] children[i]);
            if i < front.len() {
                assert(is_placeholder(rules, front[i]));
            }
        }
    }
}

/// The nested rules of a container rule after its child list was resolved: the children that
/// stand for a pattern, in order, and whether any child had to be left out.
#[derive(Debug)]
pub struct ICompilePatternsResult {
    pub patterns: Vec<i32>,
    pub has_missing_patterns: bool,
}

impl Clone for ICompilePatternsResult {
    fn clone(&self) -> (copy: Self)
        ensures
            copy.patterns@ == self.patterns@,
            copy.has_missing_patterns == self.has_missing_patterns,
    {
        ICompilePatternsResult {
            patterns: clone_ids(&self.patterns),
            has_missing_patterns: self.has_missing_patterns,
        }
    }
}

impl ICompilePatternsResult {
    /// Resolves the child list of a container rule against the registry.
    ///
    /// A child that is a placeholder is left out and makes the result say that a pattern is
    /// missing; every other child is kept, in order. A child that names no rule at all is
    /// an error of the grammar: the first such child is reported.
    pub fn from_children(grammar: &Grammar, children: &Vec<i32>) -> (result: Result<
        ICompilePatternsResult,
        RuleError,
    >)
        requires
            grammar.wf(),
        ensures
            match result {
                Ok(found) => {
                    &&& forall|i: int|
                        0 <= i < children.len() ==> known(grammar@, #[trigger] children[i])
                    &&& found.patterns@ == resolved_children(grammar@, children@)
                    &&& found.has_missing_patterns == has_placeholder(grammar@, children@)
                },
                Err(error) => exists|i: int|
                    first_unknown_at(grammar@, children@, i) && error
                        == RuleError::UnresolvedReference(children[i]),
            },
    {
        let ghost keep = |id: i32| !is_placeholder(grammar@, id);
        let mut patterns: Vec<i32> = Vec::new();
        let mut has_missing_patterns = false;
        let mut i: usize = 0;
        proof {
            reveal(Seq::filter);
            assert(children@.take(0).filter(keep) =~= Seq::<i32>::empty());
        }
        while i < children.len()
            invariant
                grammar.wf(),
                i <= children.len(),
                keep == |id: i32| !is_placeholder(grammar@, id),
                forall|j: int| 0 <= j < i ==> known(grammar@, #[trigger] children[j]),
                patterns@ == children@.take(i as int).filter(keep),
                has_missing_patterns == has_placeholder(grammar@, children@.take(i as int)),
            decreases children.len() - i,
        {
            let id = children[i];
            let ghost before = children@.take(i as int);
            let ghost after = children@.take(i + 1);
            proof {
                assert(after =~= before.push(id));
                before.lemma_filter_push(id, keep);
                if has_placeholder(grammar@, before) {
                    let k = choose|k: int|
                        0 <= k < before.len() && is_placeholder(grammar@, #[trigger] before[k]);
                    assert(is_placeholder(grammar@, after[k]));
                }
                if has_placeholder(grammar@, after) {
                    let k = choose|k: int|
                        0 <= k < after.len() && is_placeholder(grammar@, #[trigger] after[k]);
                    if k < before.len() {
                        assert(is_placeholder(grammar@, before[k]));
                    }
                }
                if is_placeholder(grammar@, id) {
                    assert(is_placeholder(grammar@, after[i as int]));
                }
            }
            match grammar.get_rule(id) {
                Ok(RuleEnum::EmptyRule(_)) => {
                    has_missing_patterns = true;
                },
                Ok(_) => {
                    patterns.push(id);
                },
                Err(error) => {
                    assert(first_unknown_at(grammar@, children@, i as int));
                    return Err(error);
                },
            }
            i = i + 1;
        }
        assert(children@.take(children.len() as int) =~= children@);
        Ok(ICompilePatternsResult { patterns, has_missing_patterns })
    }
}

} // verus!
