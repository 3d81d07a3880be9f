use crate::grammar::registry::Grammar;
use crate::rule::compiled_rule::{CompiledRule, CompiledRuleView};
use crate::support::text::push_char;
use vstd::prelude::*;

verus! {

/// The character that replaces the letter of an anchor that the caller does not allow. No
/// subject text holds it, so an alternative that asks for it cannot match.
pub const NEVER_MATCHES: char = '\u{FFFF}';

/// Whether position `i` of `pattern` is taken by a backslash escape: the character before it
/// is a backslash that is not itself escaped.
pub open spec fn escaped(pattern: Seq<char>, i: int) -> bool
    decreases i,
{
    if 0 < i <= pattern.len() {
        pattern[i - 1] == '\\' && !escaped(pattern, i - 1)
    } else {
        false
    }
}

/// Position `i` holds the letter of a subject-start anchor, written `\A`.
pub open spec fn is_subject_start_anchor(pattern: Seq<char>, i: int) -> bool {
    0 <= i < pattern.len() && escaped(pattern, i) && pattern[i] == 'A'
}

/// Position `i` holds the letter of a search-start anchor, written `\G`.
pub open spec fn is_search_start_anchor(pattern: Seq<char>, i: int) -> bool {
    0 <= i < pattern.len() && escaped(pattern, i) && pattern[i] == 'G'
}

/// Position `i` holds the letter of either anchor.
pub open spec fn is_anchor(pattern: Seq<char>, i: int) -> bool {
    is_subject_start_anchor(pattern, i) || is_search_start_anchor(pattern, i)
}

/// A pattern is position-sensitive when it holds at least one anchor.
pub open spec fn has_anchor(pattern: Seq<char>) -> bool {
    exists|i: int| is_anchor(pattern, i)
}

/// The character at position `i` once the anchors that the flags forbid are taken out.
pub open spec fn resolved_char(pattern: Seq<char>, i: int, allow_a: bool, allow_g: bool) -> char {
    if is_subject_start_anchor(pattern, i) && !allow_a {
        NEVER_MATCHES
    } else if is_search_start_anchor(pattern, i) && !allow_g {
        NEVER_MATCHES
    } else {
        pattern[i]
    }
}

/// The text of `pattern` for one combination of the two flags. `allow_a` says that the search
/// runs on a subject that starts at its true beginning, `allow_g` that the search step starts
/// where the previous match ended. The letter of every anchor that its flag forbids is replaced
/// by [`NEVER_MATCHES`]; all other characters stay where they are.
pub open spec fn resolve_anchors(pattern: Seq<char>, allow_a: bool, allow_g: bool) -> Seq<char> {
    Seq::new(pattern.len(), |i: int| resolved_char(pattern, i, allow_a, allow_g))
}

/// What a [`RegExpSource`] holds.
pub struct RegExpSourceView {
    pub source: Seq<char>,
    pub rule_id: i32,
    pub has_anchor: bool,
}

impl RegExpSourceView {
    /// The pattern text that this entry hands to the scanner under the given flags: an entry
    /// marked position-sensitive has its anchors resolved, any other entry is taken as written.
    pub open spec fn pattern_for(self, allow_a: bool, allow_g: bool) -> Seq<char> {
        if self.has_anchor {
            resolve_anchors(self.source, allow_a, allow_g)
        } else {
            self.source
        }
    }
}

/// Whether any entry of `items` is marked position-sensitive.
pub open spec fn any_anchor(items: Seq<RegExpSourceView>) -> bool {
    exists|i: int| 0 <= i < items.len() && #[trigger] items[i].has_anchor
}

/// The compiled form of `items` under the given flags: entry `i` contributes its pattern text
/// and its owning rule at index `i`, so list order is match priority.
pub open spec fn compiled(items: Seq<RegExpSourceView>, allow_a: bool, allow_g: bool)
    -> CompiledRuleView {
    CompiledRuleView {
        patterns: Seq::new(items.len(), |i: int| items[i].pattern_for(allow_a, allow_g)),
        rule_ids: Seq::new(items.len(), |i: int| items[i].rule_id),
    }
}

/// One pattern together with the rule that owns it.
#[derive(Debug)]
pub struct RegExpSource {
    pub source: String,
    pub rule_id: i32,
    pub has_anchor: bool,
}

impl View for RegExpSource {
    type V = RegExpSourceView;

    open spec fn view(&self) -> RegExpSourceView {
        RegExpSourceView {
            source: self.source@,
            rule_id: self.rule_id,
            has_anchor: self.has_anchor,
        }
    }
}

impl Clone for RegExpSource {
    fn clone(&self) -> (copy: Self)
        ensures
            copy == *self,
    {
        RegExpSource {
            source: self.source.clone(),
            rule_id: self.rule_id,
            has_anchor: self.has_anchor,
        }
    }
}

/// Whether `pattern` holds an anchor, found in one pass over its characters.
fn scan_for_anchor(pattern: &str) -> (found: bool)
    ensures
        found == has_anchor(pattern@),
{
    let mut found = false;
    let mut after_backslash = false;
    for c in it: pattern.chars()
        invariant
            it.seq() == pattern@,
            after_backslash == escaped(pattern@, it.index() as int),
            found == exists|i: int| 0 <= i < it.index() && is_anchor(pattern@, i),
    {
        let ghost here = it.index() as int;
        if after_backslash && (c == 'A' || c == 'G') {
            assert(is_anchor(pattern@, here));
            found = true;
        }
        after_backslash = !after_backslash && c == '\\';
    }
    found
}

impl RegExpSource {
    /// Wraps `reg_exp_source` for the rule `rule_id` and records whether it is
    /// position-sensitive.
    pub fn new(reg_exp_source: String, rule_id: i32) -> (entry: RegExpSource)
        ensures
            entry.source == reg_exp_source,
            entry.rule_id == rule_id,
            entry.has_anchor == has_anchor(reg_exp_source@),
    {
        let has_anchor = scan_for_anchor(reg_exp_source.as_str());
        RegExpSource { source: reg_exp_source, rule_id, has_anchor }
    }

    /// The pattern text for one combination of the anchor flags.
    pub fn resolve_anchors(&self, allow_a: bool, allow_g: bool) -> (text: String)
        ensures
            text@ == self@.pattern_for(allow_a, allow_g),
    {
        if !self.has_anchor {
            return self.source.clone();
        }
        let mut text = String::new();
        let mut after_backslash = false;
        for c in it: self.source.as_str().chars()
            invariant
                it.seq() == self.source@,
                after_backslash == escaped(self.source@, it.index() as int),
                text@ == resolve_anchors(self.source@, allow_a, allow_g).take(it.index() as int),
        {
            let ghost before = text@;
            let forbidden = after_backslash && ((c == 'A' && !allow_a) || (c == 'G' && !allow_g));
            let resolved = if forbidden {
                NEVER_MATCHES
            } else {
                c
            };
            push_char(&mut text, resolved);
            after_backslash = !after_backslash && c == '\\';
            assert(text@ =~= resolve_anchors(self.source@, allow_a, allow_g).take(
                it.index() as int + 1,
            ));
        }
        assert(text@ =~= resolve_anchors(self.source@, allow_a, allow_g));
        text
    }
}

/// The compiled results of one anchor-sensitive list, one slot for each combination of
/// "the subject starts at its true beginning" and "the search step starts where the previous
/// match ended".
#[derive(Debug)]
pub struct AnchorCache {
    a0_g0: Option<CompiledRule>,
    a0_g1: Option<CompiledRule>,
    a1_g0: Option<CompiledRule>,
    a1_g1: Option<CompiledRule>,
}

/// The view of an optional compiled rule.
pub open spec fn view_of(slot: Option<CompiledRule>) -> Option<CompiledRuleView> {
    match slot {
        Some(rule) => Some(rule@),
        None => None,
    }
}

impl AnchorCache {
    /// What the slot for `(allow_a, allow_g)` holds.
    pub closed spec fn slot(&self, allow_a: bool, allow_g: bool) -> Option<CompiledRuleView> {
        if allow_a {
            if allow_g {
                view_of(self.a1_g1)
            } else {
                view_of(self.a1_g0)
            }
        } else {
            if allow_g {
                view_of(self.a0_g1)
            } else {
                view_of(self.a0_g0)
            }
        }
    }

    /// No slot is filled.
    pub open spec fn is_empty(&self) -> bool {
        forall|a: bool, g: bool| (#[trigger] self.slot(a, g)) is None
    }

    /// A copy of what the slot for `(allow_a, allow_g)` holds.
    pub fn get(&self, allow_a: bool, allow_g: bool) -> (found: Option<CompiledRule>)
        ensures
            view_of(found) == self.slot(allow_a, allow_g),
    {
        let slot = if allow_a {
            if allow_g {
                &self.a1_g1
            } else {
                &self.a1_g0
            }
        } else {
            if allow_g {
                &self.a0_g1
            } else {
                &self.a0_g0
            }
        };
        match slot {
            Some(rule) => Some(rule.clone()),
            None => None,
        }
    }

    /// Fills the slot for `(allow_a, allow_g)` and leaves the other three as they are.
    pub fn set(&mut self, allow_a: bool, allow_g: bool, rule: CompiledRule)
        ensures
            final(self).slot(allow_a, allow_g) == Some(rule@),
            forall|a: bool, g: bool|
                (a != allow_a || g != allow_g) ==> #[trigger] final(self).slot(a, g) == old(
                    self,
                ).slot(a, g),
    {
        if allow_a {
            if allow_g {
                self.a1_g1 = Some(rule);
            } else {
                self.a1_g0 = Some(rule);
            }
        } else {
            if allow_g {
                self.a0_g1 = Some(rule);
            } else {
                self.a0_g0 = Some(rule);
            }
        }
    }
}

impl Default for AnchorCache {
    fn default() -> (cache: Self)
        ensures
            cache.is_empty(),
    {
        AnchorCache { a0_g0: None, a0_g1: None, a1_g0: None, a1_g1: None }
    }
}

/// The views of a sequence of boxed entries, in order.
pub open spec fn views(items: Seq<Box<RegExpSource>>) -> Seq<RegExpSourceView> {
    Seq::new(items.len(), |i: int| items[i]@)
}

/// An ordered list of patterns that are scanned together. Earlier entries have priority when
/// two patterns match at the same offset. The list remembers its compiled form: one result
/// when no entry is position-sensitive, one per flag combination otherwise.
#[derive(Debug)]
pub struct RegExpSourceList {
    has_anchors: bool,
    cached: Option<CompiledRule>,
    anchor_cache: AnchorCache,
    items: Vec<Box<RegExpSource>>,
}

impl View for RegExpSourceList {
    type V = Seq<RegExpSourceView>;

    closed spec fn view(&self) -> Seq<RegExpSourceView> {
        views(self.items@)
    }
}

impl RegExpSourceList {
    /// The flag that the list keeps: whether any entry is position-sensitive.
    pub closed spec fn anchored(&self) -> bool {
        self.has_anchors
    }

    /// The remembered result of a list without anchors.
    pub closed spec fn cached(&self) -> Option<CompiledRuleView> {
        view_of(self.cached)
    }

    /// The remembered result of an anchor-sensitive list for one flag combination.
    pub closed spec fn anchor_cached(&self, allow_a: bool, allow_g: bool) -> Option<
        CompiledRuleView,
    > {
        self.anchor_cache.slot(allow_a, allow_g)
    }

    /// The list's invariant: the flag says whether any entry is position-sensitive, and
    /// whatever is remembered is the compiled form of the entries as they are now, kept in
    /// the place that belongs to the kind of list.
    pub closed spec fn wf(&self) -> bool {
        &&& self.has_anchors == any_anchor(self@)
        &&& self.cached() matches Some(rule) ==> !self.has_anchors && rule == compiled(
            self@,
            true,
            true,
        )
        &&& forall|a: bool, g: bool| #[trigger]
            self.anchor_cache.slot(a, g) matches Some(rule) ==> self.has_anchors && rule
                == compiled(self@, a, g)
    }

    /// An empty list, with nothing remembered.
    pub fn new() -> (list: Self)
        ensures
            list.wf(),
            list@ == Seq::<RegExpSourceView>::empty(),
            !list.anchored(),
            list.cached() is None,
            forall|a: bool, g: bool| (#[trigger] list.anchor_cached(a, g)) is None,
    {
        let list = RegExpSourceList {
            has_anchors: false,
            cached: None,
            anchor_cache: AnchorCache::default(),
            items: Vec::new(),
        };
        assert(list@ =~= Seq::<RegExpSourceView>::empty());
        list
    }

    /// The number of entries.
    pub fn len(&self) -> (n: usize)
        ensures
            n == self@.len(),
    {
        self.items.len()
    }

    /// Whether any entry is position-sensitive.
    pub fn has_anchors(&self) -> (flag: bool)
        requires
            self.wf(),
        ensures
            flag == any_anchor(self@),
            flag == self.anchored(),
    {
        self.has_anchors
    }

    /// The entries, highest priority first.
    pub fn items(&self) -> (items: &Vec<Box<RegExpSource>>)
        ensures
            views(items@) == self@,
    {
        &self.items
    }

    /// What a list without anchors remembers.
    pub fn cached_rule(&self) -> (rule: &Option<CompiledRule>)
        ensures
            view_of(*rule) == self.cached(),
    {
        &self.cached
    }

    /// What an anchor-sensitive list remembers.
    pub fn anchor_cache(&self) -> (cache: &AnchorCache)
        ensures
            forall|a: bool, g: bool| #[trigger] cache.slot(a, g) == self.anchor_cached(a, g),
    {
        &self.anchor_cache
    }

    /// Forgets every remembered result.
    fn forget(&mut self)
        ensures
            final(self).items == old(self).items,
            final(self).has_anchors == old(self).has_anchors,
            final(self).cached is None,
            final(self).anchor_cache.is_empty(),
    {
        self.cached = None;
        self.anchor_cache = AnchorCache::default();
    }

    /// Adds `item` behind all entries, with the lowest priority. Results remembered for the
    /// shorter list are forgotten.
    pub fn push(&mut self, item: Box<RegExpSource>)
        requires
            old(self).wf(),
        ensures
            final(self).wf(),
            final(self)@ == old(self)@.push(item@),
            final(self).anchored() == (old(self).anchored() || item.has_anchor),
            final(self).cached() is None,
            forall|a: bool, g: bool| (#[trigger] final(self).anchor_cached(a, g)) is None,
    {
        let ghost before = self@;
        let flag = item.has_anchor;
        self.forget();
        self.items.push(item);
        if flag {
            self.has_anchors = true;
        }
        proof {
            let after = self@;
            assert(after =~= before.push(item@));
            if any_anchor(after) {
                let i = choose|i: int| 0 <= i < after.len() && #[trigger] after[i].has_anchor;
                if i < before.len() {
                    assert(before[i].has_anchor);
                }
            }
            if any_anchor(before) {
                let i = choose|i: int| 0 <= i < before.len() && #[trigger] before[i].has_anchor;
                assert(after[i].has_anchor);
            }
            if flag {
                assert(after[before.len() as int].has_anchor);
            }
        }
    }

    /// Adds `item` in front of all entries, with the highest priority. Results remembered for
    /// the shorter list are forgotten.
    pub fn unshift(&mut self, item: Box<RegExpSource>)
        requires
            old(self).wf(),
        ensures
            final(self).wf(),
            final(self)@ == seq![item@] + old(self)@,
            final(self).anchored() == (old(self).anchored() || item.has_anchor),
            final(self).cached() is None,
            forall|a: bool, g: bool| (#[trigger] final(self).anchor_cached(a, g)) is None,
    {
        let ghost before = self@;
        let flag = item.has_anchor;
        self.forget();
        self.items.insert(0, item);
        if flag {
            self.has_anchors = true;
        }
        proof {
            let after = self@;
            assert(after =~= seq![item@] + before);
            if any_anchor(after) {
                let i = choose|i: int| 0 <= i < after.len() && #[trigger] after[i].has_anchor;
                if i > 0 {
                    assert(before[i - 1].has_anchor);
                }
            }
            if any_anchor(before) {
                let i = choose|i: int| 0 <= i < before.len() && #[trigger] before[i].has_anchor;
                assert(after[i + 1].has_anchor);
            }
            if flag {
                assert(after[0].has_anchor);
            }
        }
    }

    /// Compiles the entries as they are, without looking at what is remembered.
    fn build(&self, allow_a: bool, allow_g: bool) -> (rule: CompiledRule)
        ensures
            rule@ == compiled(self@, allow_a, allow_g),
    {
        let mut patterns: Vec<String> = Vec::new();
        let mut rule_ids: Vec<i32> = Vec::new();
        let mut i: usize = 0;
        while i < self.items.len()
            invariant
                i <= self.items.len(),
                patterns.len() == i,
                rule_ids.len() == i,
                forall|k: int|
                    0 <= k < i ==> patterns[k]@ == (#[trigger] self@[k]).pattern_for(
                        allow_a,
                        allow_g,
                    ),
                forall|k: int| 0 <= k < i ==> rule_ids[k] == (#[trigger] self@[k]).rule_id,
            decreases self.items.len() - i,
        {
            let item = &self.items[i];
            assert(self@[i as int] == item@);
            patterns.push(item.resolve_anchors(allow_a, allow_g));
            rule_ids.push(item.rule_id);
            i = i + 1;
        }
        let rule = CompiledRule::new(patterns, rule_ids);
        assert(rule@.patterns =~= compiled(self@, allow_a, allow_g).patterns);
        assert(rule@.rule_ids =~= compiled(self@, allow_a, allow_g).rule_ids);
        rule
    }

    /// The compiled form of the list under the given flags.
    ///
    /// A list without anchors is compiled once; every later call returns the remembered
    /// result, whatever the flags. An anchor-sensitive list keeps one result per flag
    /// combination, each computed on the first call with exactly those flags. The registry
    /// is taken for the sake of callers that pass it along; a list holds all that its
    /// compiled form depends on.
    pub fn compile(&mut self, grammar: &Grammar, allow_a: bool, allow_g: bool) -> (rule:
        CompiledRule)
        requires
            old(self).wf(),
        ensures
            final(self).wf(),
            final(self)@ == old(self)@,
            final(self).anchored() == old(self).anchored(),
            rule@ == compiled(old(self)@, allow_a, allow_g),
            !old(self).anchored() ==> final(self).cached() == Some(rule@),
            old(self).anchored() ==> final(self).cached() == old(self).cached(),
            old(self).anchored() ==> final(self).anchor_cached(allow_a, allow_g) == Some(rule@),
            forall|a: bool, g: bool|
                (!old(self).anchored() || a != allow_a || g != allow_g)
                    ==> #[trigger] final(self).anchor_cached(a, g) == old(self).anchor_cached(
                    a,
                    g,
                ),
    {
        self.compile_for(allow_a, allow_g)
    }

    /// The compiled form of the list under the given flags, from what is remembered where
    /// that is possible.
    pub(crate) fn compile_for(&mut self, allow_a: bool, allow_g: bool) -> (rule: CompiledRule)
        requires
            old(self).wf(),
        ensures
            final(self).wf(),
            final(self)@ == old(self)@,
            final(self).anchored() == old(self).anchored(),
            rule@ == compiled(old(self)@, allow_a, allow_g),
            !old(self).anchored() ==> final(self).cached() == Some(rule@),
            old(self).anchored() ==> final(self).cached() == old(self).cached(),
            old(self).anchored() ==> final(self).anchor_cached(allow_a, allow_g) == Some(rule@),
            forall|a: bool, g: bool|
                (!old(self).anchored() || a != allow_a || g != allow_g)
                    ==> #[trigger] final(self).anchor_cached(a, g) == old(self).anchor_cached(
                    a,
                    g,
                ),
    {
        if !self.has_anchors {
            proof {
                lemma_flags_do_not_matter_without_anchors(self@, allow_a, allow_g, true, true);
            }
            if let Some(rule) = &self.cached {
                return rule.clone();
            }
            let rule = self.build(allow_a, allow_g);
            self.cached = Some(rule.clone());
            rule
        } else {
            if let Some(rule) = self.anchor_cache.get(allow_a, allow_g) {
                return rule;
            }
            let rule = self.build(allow_a, allow_g);
            self.anchor_cache.set(allow_a, allow_g, rule.clone());
            rule
        }
    }
}

impl Clone for RegExpSourceList {
    fn clone(&self) -> (copy: Self)
        ensures
            copy@ == self@,
            copy.anchored() == self.anchored(),
            copy.cached() == self.cached(),
            forall|a: bool, g: bool|
                #[trigger] copy.anchor_cached(a, g) == self.anchor_cached(a, g),
            self.wf() ==> copy.wf(),
    {
        let mut items: Vec<Box<RegExpSource>> = Vec::new();
        let mut i: usize = 0;
        while i < self.items.len()
            invariant
                i <= self.items.len(),
                items.len() == i,
                forall|k: int| 0 <= k < i ==> items[k]@ == self.items[k]@,
            decreases self.items.len() - i,
        {
            let item: &RegExpSource = &self.items[i];
            items.push(Box::new(item.clone()));
            i = i + 1;
        }
        let cached = match &self.cached {
            Some(rule) => Some(rule.clone()),
            None => None,
        };
        let anchor_cache = AnchorCache {
            a0_g0: self.anchor_cache.get(false, false),
            a0_g1: self.anchor_cache.get(false, true),
            a1_g0: self.anchor_cache.get(true, false),
            a1_g1: self.anchor_cache.get(true, true),
        };
        assert(views(items@) =~= views(self.items@));
        RegExpSourceList { has_anchors: self.has_anchors, cached, anchor_cache, items }
    }
}

/// A pattern without anchors reads the same under every flag combination.
pub proof fn lemma_resolve_without_anchor(pattern: Seq<char>, allow_a: bool, allow_g: bool)
    requires
        !has_anchor(pattern),
    ensures
        resolve_anchors(pattern, allow_a, allow_g) == pattern,
{
    assert forall|i: int| 0 <= i < pattern.len() implies resolved_char(
        pattern,
        i,
        allow_a,
        allow_g,
    ) == pattern[i] by {
        assert(!is_anchor(pattern, i));
    }
    assert(resolve_anchors(pattern, allow_a, allow_g) =~= pattern);
}

/// With both anchors allowed every pattern is handed over as written.
pub proof fn lemma_resolve_with_both_allowed(pattern: Seq<char>)
    ensures
        resolve_anchors(pattern, true, true) == pattern,
{
    assert(resolve_anchors(pattern, true, true) =~= pattern);
}

/// A pattern with a subject-start anchor reads differently when that anchor is forbidden,
/// and one with a search-start anchor reads differently when that one is: a result computed
/// for one flag combination cannot stand in for the other.
pub proof fn lemma_forbidden_anchor_changes_text(pattern: Seq<char>, i: int, flag: bool)
    requires
        is_anchor(pattern, i),
    ensures
        is_subject_start_anchor(pattern, i) ==> resolve_anchors(pattern, true, flag)
            != resolve_anchors(pattern, false, flag),
        is_search_start_anchor(pattern, i) ==> resolve_anchors(pattern, flag, true)
            != resolve_anchors(pattern, flag, false),
{
    if is_subject_start_anchor(pattern, i) {
        assert(resolve_anchors(pattern, true, flag)[i] == 'A');
        assert(resolve_anchors(pattern, false, flag)[i] == NEVER_MATCHES);
    }
    if is_search_start_anchor(pattern, i) {
        assert(resolve_anchors(pattern, flag, true)[i] == 'G');
        assert(resolve_anchors(pattern, flag, false)[i] == NEVER_MATCHES);
    }
}

/// A list with an entry whose anchor the flags forbid compiles to other content than under
/// flags that allow it: the four flag combinations need results of their own.
pub proof fn lemma_flags_matter_with_anchor(
    items: Seq<RegExpSourceView>,
    entry: int,
    i: int,
    flag: bool,
)
    requires
        0 <= entry < items.len(),
        items[entry].has_anchor,
        is_anchor(items[entry].source, i),
    ensures
        is_subject_start_anchor(items[entry].source, i) ==> compiled(items, true, flag)
            != compiled(items, false, flag),
        is_search_start_anchor(items[entry].source, i) ==> compiled(items, flag, true)
            != compiled(items, flag, false),
{
    lemma_forbidden_anchor_changes_text(items[entry].source, i, flag);
    if is_subject_start_anchor(items[entry].source, i) {
        assert(compiled(items, true, flag).patterns[entry] != compiled(
            items,
            false,
            flag,
        ).patterns[entry]);
    }
    if is_search_start_anchor(items[entry].source, i) {
        assert(compiled(items, flag, true).patterns[entry] != compiled(
            items,
            flag,
            false,
        ).patterns[entry]);
    }
}

/// Compiling a list without anchors gives the same content under any two flag combinations:
/// the pattern texts as written and their owning rules.
pub proof fn lemma_flags_do_not_matter_without_anchors(
    items: Seq<RegExpSourceView>,
    allow_a: bool,
    allow_g: bool,
    other_a: bool,
    other_g: bool,
)
    requires
        !any_anchor(items),
    ensures
        compiled(items, allow_a, allow_g) == compiled(items, other_a, other_g),
        compiled(items, allow_a, allow_g).patterns == Seq::new(
            items.len(),
            |i: int| items[i].source,
        ),
{
    assert forall|i: int| 0 <= i < items.len() implies items[i].pattern_for(allow_a, allow_g)
        == items[i].source && items[i].pattern_for(other_a, other_g) == items[i].source by {
        assert(!items[i].has_anchor);
    }
    assert(compiled(items, allow_a, allow_g).patterns =~= compiled(
        items,
        other_a,
        other_g,
    ).patterns);
    assert(compiled(items, allow_a, allow_g).patterns =~= Seq::new(
        items.len(),
        |i: int| items[i].source,
    ));
}

/// Compilation keeps the order of the list: entry `i` is found at index `i` with its owning
/// rule, an entry added behind comes out last, and an entry added in front comes out first
/// with all others moved up by one.
pub proof fn lemma_compilation_keeps_order(
    items: Seq<RegExpSourceView>,
    item: RegExpSourceView,
    allow_a: bool,
    allow_g: bool,
)
    ensures
        compiled(items, allow_a, allow_g).patterns.len() == items.len(),
        compiled(items, allow_a, allow_g).rule_ids.len() == items.len(),
        forall|i: int|
            0 <= i < items.len() ==> #[trigger] compiled(items, allow_a, allow_g).patterns[i]
                == items[i].pattern_for(allow_a, allow_g),
        forall|i: int|
            0 <= i < items.len() ==> #[trigger] compiled(items, allow_a, allow_g).rule_ids[i]
                == items[i].rule_id,
        compiled(items.push(item), allow_a, allow_g).patterns == compiled(
            items,
            allow_a,
            allow_g,
        ).patterns.push(item.pattern_for(allow_a, allow_g)),
        compiled(items.push(item), allow_a, allow_g).rule_ids == compiled(
            items,
            allow_a,
            allow_g,
        ).rule_ids.push(item.rule_id),
        compiled(seq![item] + items, allow_a, allow_g).patterns == seq![
            item.pattern_for(allow_a, allow_g),
        ] + compiled(items, allow_a, allow_g).patterns,
        compiled(seq![item] + items, allow_a, allow_g).rule_ids == seq![item.rule_id] + compiled(
            items,
            allow_a,
            allow_g,
        ).rule_ids,
{
    assert(compiled(items.push(item), allow_a, allow_g).patterns =~= compiled(
        items,
        allow_a,
        allow_g,
    ).patterns.push(item.pattern_for(allow_a, allow_g)));
    assert(compiled(items.push(item), allow_a, allow_g).rule_ids =~= compiled(
        items,
        allow_a,
        allow_g,
    ).rule_ids.push(item.rule_id));
    assert(compiled(seq![item] + items, allow_a, allow_g).patterns =~= seq![
        item.pattern_for(allow_a, allow_g),
    ] + compiled(items, allow_a, allow_g).patterns);
    assert(compiled(seq![item] + items, allow_a, allow_g).rule_ids =~= seq![item.rule_id]
        + compiled(items, allow_a, allow_g).rule_ids);
}

} // verus!
