use crate::support::text::texts;
use vstd::prelude::*;

verus! {

/// What a [`CompiledRule`] holds: the pattern texts in priority order and, at the same index,
/// the identifier of the rule that owns each pattern.
pub struct CompiledRuleView {
    pub patterns: Seq<Seq<char>>,
    pub rule_ids: Seq<i32>,
}

/// The scanner-ready form of a pattern list: two parallel sequences that a matching engine
/// reads. The engine reports the index of the pattern that matched; [`CompiledRule::rule_id_at`]
/// maps that index back to the owning rule.
#[derive(Debug)]
pub struct CompiledRule {
    patterns: Vec<String>,
    rule_ids: Vec<i32>,
}

impl View for CompiledRule {
    type V = CompiledRuleView;

    closed spec fn view(&self) -> CompiledRuleView {
        CompiledRuleView { patterns: texts(self.patterns@), rule_ids: self.rule_ids@ }
    }
}

impl CompiledRule {
    #[verifier::type_invariant]
    spec fn paired(&self) -> bool {
        self.patterns.len() == self.rule_ids.len()
    }

    /// Pairs each pattern with the rule identifier at the same index.
    pub fn new(patterns: Vec<String>, rule_ids: Vec<i32>) -> (compiled: Self)
        requires
            patterns.len() == rule_ids.len(),
        ensures
            compiled@.patterns == texts(patterns@),
            compiled@.rule_ids == rule_ids@,
    {
        CompiledRule { patterns, rule_ids }
    }

    /// The number of patterns, which is also the number of rule identifiers.
    pub fn len(&self) -> (n: usize)
        ensures
            n == self@.patterns.len(),
            n == self@.rule_ids.len(),
    {
        proof {
            use_type_invariant(self);
        }
        self.patterns.len()
    }

    /// The pattern texts, highest priority first.
    pub fn patterns(&self) -> (patterns: &Vec<String>)
        ensures
            texts(patterns@) == self@.patterns,
    {
        &self.patterns
    }

    /// The owning rule of each pattern, in the order of [`CompiledRule::patterns`].
    pub fn rule_ids(&self) -> (rule_ids: &Vec<i32>)
        ensures
            rule_ids@ == self@.rule_ids,
    {
        &self.rule_ids
    }

    /// The rule that owns the pattern at `index`, or `None` when the list has no such pattern.
    pub fn rule_id_at(&self, index: usize) -> (id: Option<i32>)
        ensures
            index < self@.rule_ids.len() ==> id == Some(self@.rule_ids[index as int]),
            index >= self@.rule_ids.len() ==> id is None,
    {
        if index < self.rule_ids.len() {
            Some(self.rule_ids[index])
        } else {
            None
        }
    }

    /// The pattern text at `index`, or `None` when the list has no such pattern.
    pub fn pattern_at(&self, index: usize) -> (pattern: Option<&String>)
        ensures
            index < self@.patterns.len() ==> (pattern matches Some(text) && text@
                == self@.patterns[index as int]),
            index >= self@.patterns.len() ==> pattern is None,
    {
        if index < self.patterns.len() {
            Some(&self.patterns[index])
        } else {
            None
        }
    }
}

impl Clone for CompiledRule {
    fn clone(&self) -> (copy: Self)
        ensures
            copy@ == self@,
    {
        proof {
            use_type_invariant(self);
        }
        let mut patterns: Vec<String> = Vec::new();
        let mut i: usize = 0;
        while i < self.patterns.len()
            invariant
                i <= self.patterns.len(),
                patterns.len() == i,
                forall|k: int| 0 <= k < i ==> patterns[k]@ == self.patterns[k]@,
            decreases self.patterns.len() - i,
        {
            patterns.push(self.patterns[i].clone());
            i = i + 1;
        }
        let rule_ids = self.rule_ids.clone();
        assert(texts(patterns@) =~= texts(self.patterns@));
        assert(rule_ids@ =~= self.rule_ids@);
        CompiledRule { patterns, rule_ids }
    }
}

} // verus!
