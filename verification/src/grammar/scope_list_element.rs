use crate::grammar::registry::Grammar;
use crate::support::text::{push_char, texts};
use std::rc::Rc;
use vstd::prelude::*;
use vstd::std_specs::cmp::PartialEqSpecImpl;

verus! {

/// The pieces into which the spaces of `scope` cut it, empty ones included. The string is
/// read from the left: a space closes the piece read so far and opens a new, empty one; every
/// other character extends the piece that is open.
pub open spec fn split_on_space(scope: Seq<char>) -> Seq<Seq<char>>
    decreases scope.len(),
{
    if scope.len() == 0 {
        seq![Seq::<char>::empty()]
    } else {
        let before = split_on_space(scope.drop_last());
        if scope.last() == ' ' {
            before.push(Seq::<char>::empty())
        } else {
            before.drop_last().push(before.last().push(scope.last()))
        }
    }
}

/// The scope names that one pushed string stands for. A string without a space is one name,
/// itself. A string with spaces lists several names: they are its pieces between the spaces,
/// without the empty ones.
pub open spec fn scope_names(scope: Seq<char>) -> Seq<Seq<char>> {
    if scope.contains(' ') {
        split_on_space(scope).filter(|piece: Seq<char>| piece.len() > 0)
    } else {
        seq![scope]
    }
}

/// One node of a scope chain: a scope name and the chain of the enclosing scopes. A node is
/// never changed once it is built; a longer chain is a new node that points at the old one,
/// which any number of chains may share.
#[derive(Debug)]
pub struct ScopeListElement {
    pub parent: Option<Rc<ScopeListElement>>,
    pub scope: String,
}

/// Shares a chain with one more holder.
///
/// Trusted: `Rc::clone` of the standard library, which is documented to make another pointer
/// to the same allocation; the value that the result points at is the one that `node`
/// points at.
#[verifier::external_body]
fn share(node: &Rc<ScopeListElement>) -> (shared: Rc<ScopeListElement>)
    ensures
        shared == *node,
{
    Rc::clone(node)
}

/// The names in `names`, last one first.
fn reversed(names: Vec<String>) -> (result: Vec<String>)
    ensures
        texts(result@) == texts(names@).reverse(),
{
    let ghost all = texts(names@);
    let mut names = names;
    let mut result: Vec<String> = Vec::new();
    while names.len() > 0
        invariant
            names.len() + result.len() == all.len(),
            texts(names@) == all.take(names.len() as int),
            texts(result@) == all.reverse().take(result.len() as int),
        decreases names.len(),
    {
        let ghost rest = names@;
        let ghost done = result@;
        let name = names.pop().unwrap();
        result.push(name);
        assert(texts(names@) =~= all.take(names.len() as int)) by {
            assert(forall|i: int| 0 <= i < names.len() ==> texts(names@)[i] == texts(rest)[i]);
        }
        assert(texts(result@) =~= all.reverse().take(result.len() as int)) by {
            assert(forall|i: int| 0 <= i < done.len() ==> texts(result@)[i] == texts(done)[i]);
            assert(name@ == texts(rest)[rest.len() - 1]);
        }
    }
    assert(texts(result@) =~= all.reverse());
    result
}

/// The pieces into which the spaces of `scope` cut it, each as a string of its own.
fn split_scope(scope: &str) -> (names: Vec<String>)
    ensures
        texts(names@) == split_on_space(scope@),
{
    let mut names: Vec<String> = Vec::new();
    let mut open = String::new();
    assert(scope@.take(0) =~= Seq::<char>::empty());
    assert(texts(names@).push(open@) =~= split_on_space(scope@.take(0)));
    for c in it: scope.chars()
        invariant
            it.seq() == scope@,
            texts(names@).push(open@) == split_on_space(scope@.take(it.index() as int)),
    {
        let ghost read = scope@.take(it.index() as int);
        let ghost next = scope@.take(it.index() as int + 1);
        let ghost closed = texts(names@);
        let ghost name = open@;
        assert(next.drop_last() =~= read);
        assert(next.last() == c);
        if c == ' ' {
            names.push(open);
            open = String::new();
            assert(texts(names@) =~= closed.push(name));
        } else {
            push_char(&mut open, c);
            assert(closed.push(name).drop_last() =~= closed);
        }
    }
    assert(scope@.take(scope@.len() as int) =~= scope@);
    let ghost closed = texts(names@);
    names.push(open);
    assert(texts(names@) =~= closed.push(open@));
    names
}

/// The strings of `pieces` that are not empty, in order.
fn without_empty(pieces: Vec<String>) -> (names: Vec<String>)
    ensures
        texts(names@) == texts(pieces@).filter(|piece: Seq<char>| piece.len() > 0),
{
    let ghost keep = |piece: Seq<char>| piece.len() > 0;
    let ghost all = texts(pieces@);
    let mut names: Vec<String> = Vec::new();
    let mut i: usize = 0;
    proof {
        reveal(Seq::filter);
        assert(all.take(0).filter(keep) =~= Seq::<Seq<char>>::empty());
        assert(texts(names@) =~= Seq::<Seq<char>>::empty());
    }
    while i < pieces.len()
        invariant
            i <= pieces.len(),
            all == texts(pieces@),
            keep == |piece: Seq<char>| piece.len() > 0,
            texts(names@) == all.take(i as int).filter(keep),
        decreases pieces.len() - i,
    {
        let ghost kept = texts(names@);
        proof {
            assert(all.take(i + 1) =~= all.take(i as int).push(pieces[i as int]@));
            all.take(i as int).lemma_filter_push(pieces[i as int]@, keep);
        }
        if !pieces[i].as_str().is_empty() {
            names.push(pieces[i].clone());
            assert(texts(names@) =~= kept.push(pieces[i as int]@));
        }
        i = i + 1;
    }
    assert(all.take(pieces.len() as int) =~= all);
    names
}

impl Clone for ScopeListElement {
    /// A second handle on the same chain: the node is copied, the enclosing chain is shared.
    fn clone(&self) -> (copy: Self)
        ensures
            copy == *self,
    {
        let parent = match &self.parent {
            Some(node) => Some(share(node)),
            None => None,
        };
        ScopeListElement { parent, scope: self.scope.clone() }
    }
}

impl PartialEq for ScopeListElement {
    /// Two chains are equal when they name the same scopes in the same order.
    fn eq(&self, other: &Self) -> (equal: bool) {
        let mut left: &ScopeListElement = self;
        let mut right: &ScopeListElement = other;
        loop
            invariant
                (self.scopes() == other.scopes()) == (left.scopes() == right.scopes()),
            decreases left.depth(),
        {
            proof {
                lemma_depth_counts_scopes(left);
                lemma_depth_counts_scopes(right);
            }
            if !(left.scope == right.scope) {
                assert(left.scopes().last() != right.scopes().last());
                return false;
            }
            match (&left.parent, &right.parent) {
                (None, None) => {
                    assert(left.scopes() =~= right.scopes());
                    return true;
                },
                (Some(above_left), Some(above_right)) => {
                    proof {
                        let l = above_left.scopes();
                        let r = above_right.scopes();
                        if l == r {
                            assert(left.scopes() =~= right.scopes());
                        }
                        if left.scopes() == right.scopes() {
                            assert(left.scopes().drop_last() =~= l);
                            assert(right.scopes().drop_last() =~= r);
                        }
                    }
                    left = &**above_left;
                    right = &**above_right;
                },
                (None, Some(above_right)) => {
                    proof {
                        lemma_depth_counts_scopes(&**above_right);
                    }
                    return false;
                },
                (Some(above_left), None) => {
                    proof {
                        lemma_depth_counts_scopes(&**above_left);
                    }
                    return false;
                },
            }
        }
    }
}

impl Eq for ScopeListElement {}

impl PartialEqSpecImpl for ScopeListElement {
    open spec fn obeys_eq_spec() -> bool {
        true
    }

    open spec fn eq_spec(&self, other: &Self) -> bool {
        self.scopes() == other.scopes()
    }
}

impl Default for ScopeListElement {
    /// The chain of one unnamed scope.
    fn default() -> (node: Self)
        ensures
            node.parent is None,
            node.scope@ == Seq::<char>::empty(),
            node.scopes() == seq![Seq::<char>::empty()],
    {
        ScopeListElement { parent: None, scope: String::new() }
    }
}

impl ScopeListElement {
    /// The number of nodes of the chain.
    pub open spec fn depth(&self) -> nat
        decreases self,
    {
        match self.parent {
            None => 1,
            Some(outer) => 1 + outer.depth(),
        }
    }

    /// The scope names of the chain, outermost first and this node's own name last.
    pub open spec fn scopes(&self) -> Seq<Seq<char>>
        decreases self,
    {
        match self.parent {
            None => seq![self.scope@],
            Some(outer) => outer.scopes().push(self.scope@),
        }
    }

    /// A node named `scope` inside the chain `parent`.
    pub fn new(parent: Option<Rc<ScopeListElement>>, scope: String) -> (node: Self)
        ensures
            node.parent == parent,
            node.scope == scope,
    {
        ScopeListElement { parent, scope }
    }

    /// The scope names of the chain as strings, outermost first.
    pub fn generate_scopes(&self) -> (names: Vec<String>)
        ensures
            texts(names@) == self.scopes(),
    {
        let mut inner_first: Vec<String> = Vec::new();
        let mut node: &ScopeListElement = self;
        loop
            invariant_except_break
                self.scopes() == node.scopes() + texts(inner_first@).reverse(),
            ensures
                self.scopes() == texts(inner_first@).reverse(),
            decreases node.depth(),
        {
            let ghost seen = texts(inner_first@);
            inner_first.push(node.scope.clone());
            assert(texts(inner_first@) =~= seen.push(node.scope@));
            assert(texts(inner_first@).reverse() =~= seq![node.scope@] + seen.reverse());
            match &node.parent {
                None => {
                    assert(self.scopes() =~= texts(inner_first@).reverse());
                    break ;
                },
                Some(outer) => {
                    assert(self.scopes() =~= outer.scopes() + texts(inner_first@).reverse());
                    node = &**outer;
                },
            }
        }
        reversed(inner_first)
    }

    /// The chain `origin_target` extended by one node for each name of `scopes`, in order.
    /// Each new node has the chain before it as its parent. The registry is taken for the
    /// sake of callers that pass it along; the chain does not depend on it.
    pub fn _push(
        origin_target: ScopeListElement,
        grammar: &Grammar,
        scopes: Vec<String>,
    ) -> (target: ScopeListElement)
        ensures
            target.scopes() == origin_target.scopes() + texts(scopes@),
            target.depth() == origin_target.depth() + scopes.len(),
            scopes.len() == 0 ==> target == origin_target,
            scopes.len() == 1 ==> target.scope == scopes[0] && target.parent == Some(
                Rc::new(origin_target),
            ),
    {
        let mut target = origin_target;
        let mut i: usize = 0;
        assert(texts(scopes@).take(0) =~= Seq::<Seq<char>>::empty());
        assert(target.scopes() =~= origin_target.scopes() + texts(scopes@).take(0));
        while i < scopes.len()
            invariant
                i <= scopes.len(),
                target.scopes() == origin_target.scopes() + texts(scopes@).take(i as int),
                target.depth() == origin_target.depth() + i,
                i == 0 ==> target == origin_target,
                i == 1 ==> target.scope == scopes[0] && target.parent == Some(
                    Rc::new(origin_target),
                ),
            decreases scopes.len() - i,
        {
            let ghost before = target.scopes();
            target = ScopeListElement::new(Some(Rc::new(target)), scopes[i].clone());
            assert(target.scopes() == before.push(scopes[i as int]@));
            i = i + 1;
            assert(texts(scopes@).take(i as int) =~= texts(scopes@).take(i - 1).push(
                scopes[i - 1]@,
            ));
            assert(target.scopes() =~= origin_target.scopes() + texts(scopes@).take(i as int));
        }
        assert(texts(scopes@).take(scopes.len() as int) =~= texts(scopes@));
        target
    }

    /// The chain that results from entering `scope`.
    ///
    /// Without a scope the chain stays as it is. A string without a space is one scope
    /// name: the result is one new node of that name whose parent is this chain. A string
    /// with spaces lists several names, and the chain is extended by one node for each of
    /// them, in order. Nothing that `self` reaches is changed: the new nodes point at it. The
    /// registry is taken for the sake of callers that pass it along; the chain does not depend
    /// on it.
    pub fn push(&self, grammar: &Grammar, scope: Option<String>) -> (target: ScopeListElement)
        ensures
            scope is None ==> target == *self,
            scope matches Some(name) ==> target.scopes() == self.scopes() + scope_names(name@),
            scope matches Some(name) ==> target.depth() == self.depth() + scope_names(
                name@,
            ).len(),
            scope matches Some(name) ==> (!name@.contains(' ') ==> {
                &&& target.scopes() == self.scopes().push(name@)
                &&& target.scope@ == name@
                &&& target.parent == Some(Rc::new(*self))
            }),
    {
        match scope {
            None => self.clone(),
            Some(name) => {
                proof {
                    lemma_pieces_count_spaces(name@);
                }
                let pieces = split_scope(name.as_str());
                assert(texts(pieces@).len() == pieces.len());
                let names = if pieces.len() == 1 {
                    assert(texts(pieces@)[0] == pieces[0]@);
                    pieces
                } else {
                    without_empty(pieces)
                };
                assert(texts(names@).len() == names.len());
                assert(self.scopes() + seq![name@] =~= self.scopes().push(name@));
                ScopeListElement::_push(self.clone(), grammar, names)
            },
        }
    }
}

/// A string without a space is one piece, itself; a string with a space is cut into two
/// pieces at least.
pub proof fn lemma_pieces_count_spaces(scope: Seq<char>)
    ensures
        split_on_space(scope).len() >= 1,
        !scope.contains(' ') ==> split_on_space(scope) == seq![scope],
        scope.contains(' ') ==> split_on_space(scope).len() >= 2,
    decreases scope.len(),
{
    if !scope.contains(' ') {
        lemma_single_piece(scope);
    } else {
        let i = choose|i: int| 0 <= i < scope.len() && scope[i] == ' ';
        let front = scope.drop_last();
        lemma_pieces_count_spaces(front);
        if scope.last() != ' ' {
            assert(front[i] == ' ');
            assert(front.contains(' '));
        }
    }
}

/// A string without a space is one piece: itself.
pub proof fn lemma_single_piece(scope: Seq<char>)
    requires
        !scope.contains(' '),
    ensures
        split_on_space(scope) == seq![scope],
    decreases scope.len(),
{
    if scope.len() == 0 {
        assert(scope =~= Seq::<char>::empty());
    } else {
        let front = scope.drop_last();
        assert forall|i: int| 0 <= i < front.len() implies front[i] != ' ' by {
            assert(front[i] == scope[i]);
            assert(scope.contains(scope[i]));
        }
        assert(scope.contains(scope.last()));
        lemma_single_piece(front);
        assert(seq![front].drop_last().push(front.push(scope.last())) =~= seq![scope]) by {
            assert(front.push(scope.last()) =~= scope);
        }
    }
}

/// Cutting leaves no space behind: no piece holds one.
pub proof fn lemma_pieces_hold_no_space(scope: Seq<char>)
    ensures
        split_on_space(scope).len() >= 1,
        forall|i: int|
            0 <= i < split_on_space(scope).len() ==> !(#[trigger] split_on_space(
                scope,
            )[i]).contains(' '),
    decreases scope.len(),
{
    let names = split_on_space(scope);
    if scope.len() == 0 {
        assert forall|i: int| 0 <= i < names.len() implies !(#[trigger] names[i]).contains(
            ' ',
        ) by {
            assert(names[i] =~= Seq::<char>::empty());
        }
    } else {
        let before = split_on_space(scope.drop_last());
        lemma_pieces_hold_no_space(scope.drop_last());
        assert forall|i: int| 0 <= i < names.len() implies !(#[trigger] names[i]).contains(
            ' ',
        ) by {
            if i < names.len() - 1 {
                assert(names[i] == before[i]);
            } else if scope.last() == ' ' {
                assert(names[i] =~= Seq::<char>::empty());
            } else {
                let grown = before.last().push(scope.last());
                assert(names[i] == grown);
                if grown.contains(' ') {
                    let k = choose|k: int| 0 <= k < grown.len() && grown[k] == ' ';
                    assert(before.last()[k] == ' ');
                    assert(before.last().contains(' '));
                }
            }
        }
    }
}

/// The scope names that a string with spaces stands for are neither empty nor do they hold
/// a space; a string without a space stands for itself, empty or not.
pub proof fn lemma_scope_names(scope: Seq<char>)
    ensures
        !scope.contains(' ') ==> scope_names(scope) == seq![scope],
        forall|i: int|
            0 <= i < scope_names(scope).len() ==> !(#[trigger] scope_names(scope)[i]).contains(
                ' ',
            ),
        scope.contains(' ') ==> forall|i: int|
            0 <= i < scope_names(scope).len() ==> (#[trigger] scope_names(scope)[i]).len() > 0,
{
    let keep = |piece: Seq<char>| piece.len() > 0;
    let pieces = split_on_space(scope);
    let names = scope_names(scope);
    if scope.contains(' ') {
        lemma_pieces_hold_no_space(scope);
        assert forall|i: int| 0 <= i < names.len() implies !(#[trigger] names[i]).contains(' ')
            && names[i].len() > 0 by {
            pieces.lemma_filter_pred(keep, i);
            pieces.lemma_filter_contains_rev(keep, names[i]);
            let k = choose|k: int| 0 <= k < pieces.len() && pieces[k] == names[i];
            assert(!pieces[k].contains(' '));
        }
    } else {
        assert(names[0] == scope);
    }
}

/// A chain has as many scope names as it has nodes.
pub proof fn lemma_depth_counts_scopes(chain: &ScopeListElement)
    ensures
        chain.scopes().len() == chain.depth(),
    decreases chain,
{
    match &chain.parent {
        None => {},
        Some(outer) => {
            lemma_depth_counts_scopes(&**outer);
        },
    }
}

} // verus!
