//! Position-based navigation of a parsed tree: the root-to-deepest ancestor
//! chain containing a cursor position, and predicate-based search over such
//! a chain for the deepest matching node.

use vstd::prelude::*;

use crate::nodes::Node;
use crate::nodes::Position;

verus! {

broadcast use vstd::seq::group_seq_axioms;

/// The number of nodes in the tree rooted at `n`.
pub open spec fn node_size(n: Node) -> nat
    decreases n,
{
    match n.spec_children() {
        Some(children) => 1 + children_size(children),
        None => 1,
    }
}

/// The total number of nodes in the trees rooted at each element of
/// `children`.
pub open spec fn children_size(children: Seq<Node>) -> nat
    decreases children,
{
    if children.len() == 0 {
        0
    } else {
        node_size(children[0]) + children_size(children.drop_first())
    }
}

/// The index of the first element of `children` whose span contains
/// `position`, or `children.len()` if no element's span does.
pub open spec fn first_containing_index(children: Seq<Node>, position: Position) -> int
    decreases children.len(),
{
    if children.len() == 0 {
        0
    } else if children[0].spec_contains(position) {
        0
    } else {
        1 + first_containing_index(children.drop_first(), position)
    }
}

/// The next hop of the descent: the first child of `n` whose span contains
/// `position`, or none when no child does (or `n` is a leaf).
pub open spec fn next_node(n: Node, position: Position) -> Option<Node> {
    match n.spec_children() {
        Some(children) => {
            let i = first_containing_index(children, position);
            if i < children.len() {
                Some(children[i])
            } else {
                None
            }
        },
        None => None,
    }
}

/// The ancestor chain of `position` in the tree rooted at `tree`: empty when
/// the root's span does not contain the position, otherwise the root followed
/// by the chain of first containing children, down to the deepest node none
/// of whose children contains the position.
pub open spec fn spec_ancestor_chain(tree: Node, position: Position) -> Seq<Node>
    decreases node_size(tree),
        via spec_ancestor_chain_decreases
{
    if !tree.spec_contains(position) {
        Seq::empty()
    } else {
        match next_node(tree, position) {
            Some(child) => seq![tree] + spec_ancestor_chain(child, position),
            None => seq![tree],
        }
    }
}

#[via_fn]
proof fn spec_ancestor_chain_decreases(tree: Node, position: Position) {
    if tree.spec_contains(position) {
        match next_node(tree, position) {
            Some(child) => {
                let children = tree.spec_children()->Some_0;
                let i = first_containing_index(children, position);
                lemma_first_containing_index(children, position);
                lemma_child_size(children, i);
                assert(node_size(child) < node_size(tree));
            },
            None => {},
        }
    }
}

/// The first containing index lies between 0 and the length, the element
/// there (if any) contains the position, and no earlier element does.
pub proof fn lemma_first_containing_index(children: Seq<Node>, position: Position)
    ensures
        0 <= first_containing_index(children, position) <= children.len(),
        first_containing_index(children, position) < children.len()
            ==> children[first_containing_index(children, position)].spec_contains(position),
        forall|j: int|
            0 <= j < first_containing_index(children, position)
                ==> !(#[trigger] children[j]).spec_contains(position),
    decreases children.len(),
{
    if children.len() != 0 && !children[0].spec_contains(position) {
        lemma_first_containing_index(children.drop_first(), position);
        assert forall|j: int|
            0 <= j < first_containing_index(children, position) implies !(
        #[trigger] children[j]).spec_contains(position) by {
            if j > 0 {
                assert(children[j] == children.drop_first()[j - 1]);
            }
        }
    }
}

/// When no element before `j` contains the position and the element at `j`
/// (if there is one) does, `j` is the first containing index.
pub proof fn lemma_first_containing_index_is(children: Seq<Node>, position: Position, j: int)
    requires
        0 <= j <= children.len(),
        forall|k: int| 0 <= k < j ==> !(#[trigger] children[k]).spec_contains(position),
        j < children.len() ==> children[j].spec_contains(position),
    ensures
        first_containing_index(children, position) == j,
    decreases children.len(),
{
    if j == 0 {
    } else {
        assert(!children[0].spec_contains(position));
        assert forall|k: int| 0 <= k < j - 1 implies !(
        #[trigger] children.drop_first()[k]).spec_contains(position) by {
            assert(children.drop_first()[k] == children[k + 1]);
        }
        assert(j - 1 < children.drop_first().len() ==> children.drop_first()[j - 1]
            == children[j]);
        lemma_first_containing_index_is(children.drop_first(), position, j - 1);
    }
}

/// The view of a vector of node references, as a sequence of node values.
pub open spec fn deref_seq(nodes: Seq<&Node>) -> Seq<Node> {
    nodes.map_values(|n: &Node| *n)
}

/// An element of `children` accounts for fewer nodes than all of `children`
/// together with their parent.
pub proof fn lemma_child_size(children: Seq<Node>, i: int)
    requires
        0 <= i < children.len(),
    ensures
        node_size(children[i]) < 1 + children_size(children),
    decreases children.len(),
{
    if i == 0 {
    } else {
        lemma_child_size(children.drop_first(), i - 1);
    }
}

/// Computes the root-to-deepest path of nodes whose spans contain
/// `position`: empty when the root does not contain it; otherwise each step
/// descends into the first child containing it, stopping at a node none of
/// whose children does.
pub fn get_ancestor_chain<'a>(ast: &'a Node, position: &Position) -> (ancestor_chain: Vec<
    &'a Node,
>)
    ensures
        deref_seq(ancestor_chain@) == spec_ancestor_chain(*ast, *position),
{
    let mut ancestor_chain: Vec<&'a Node> = Vec::new();

    if !ast.contains_position(position) {
        assert(deref_seq(ancestor_chain@) =~= spec_ancestor_chain(*ast, *position));
        return ancestor_chain;
    }

    let mut current_node: &'a Node = ast;
    ancestor_chain.push(current_node);

    loop
        invariant_except_break
            ancestor_chain@.len() >= 1,
            ancestor_chain@[ancestor_chain@.len() - 1] == current_node,
            (*current_node).spec_contains(*position),
            spec_ancestor_chain(*ast, *position) == deref_seq(ancestor_chain@).drop_last()
                + spec_ancestor_chain(*current_node, *position),
        ensures
            deref_seq(ancestor_chain@) == spec_ancestor_chain(*ast, *position),
        decreases node_size(*current_node),
    {
        let ghost prefix = deref_seq(ancestor_chain@);
        proof {
            assert(prefix[prefix.len() - 1] == *current_node);
        }
        match current_node.children() {
            Some(children) => {
                let mut j: usize = 0;
                while j < children.len() && !children[j].contains_position(position)
                    invariant
                        j <= children@.len(),
                        forall|k: int|
                            0 <= k < j ==> !(#[trigger] children@[k]).spec_contains(*position),
                    decreases children@.len() - j,
                {
                    j += 1;
                }
                proof {
                    lemma_first_containing_index_is(children@, *position, j as int);
                }
                if j < children.len() {
                    let next: &'a Node = &children[j];
                    ancestor_chain.push(next);
                    proof {
                        lemma_child_size(children@, j as int);
                        assert(deref_seq(ancestor_chain@).drop_last() =~= prefix);
                        assert(prefix.drop_last() + (seq![*current_node]
                            + spec_ancestor_chain(*next, *position)) =~= prefix
                            + spec_ancestor_chain(*next, *position));
                    }
                    current_node = next;
                } else {
                    proof {
                        assert(spec_ancestor_chain(*current_node, *position) =~= seq![
                            *current_node,
                        ]);
                        assert(prefix.drop_last() + seq![*current_node] =~= prefix);
                    }
                    break;
                }
            },
            None => {
                proof {
                    assert(spec_ancestor_chain(*current_node, *position) =~= seq![*current_node]);
                    assert(prefix.drop_last() + seq![*current_node] =~= prefix);
                }
                break;
            },
        }
    }

    ancestor_chain
}

/// Whether `n` occurs in the tree rooted at `root`.
pub open spec fn in_tree(root: Node, n: Node) -> bool
    decreases root,
{
    root == n || match root.spec_children() {
        Some(children) => exists|i: int|
            0 <= i < children.len() && in_tree(#[trigger] children[i], n),
        None => false,
    }
}

/// The containment discipline the ancestor-chain law relies on: a position
/// contained in a child is also contained in its parent, and no position is
/// contained in two distinct siblings. It is the line-and-column reading of
/// the grammar's span invariant (children within their parent, siblings
/// non-overlapping).
pub open spec fn tree_wf(n: Node) -> bool
    decreases n,
{
    match n.spec_children() {
        Some(children) => {
            &&& forall|i: int| 0 <= i < children.len() ==> tree_wf(#[trigger] children[i])
            &&& forall|i: int, p: Position|
                #![trigger children[i].spec_contains(p)]
                0 <= i < children.len() && children[i].spec_contains(p) ==> n.spec_contains(p)
            &&& forall|i: int, j: int, p: Position|
                #![trigger children[i].spec_contains(p), children[j].spec_contains(p)]
                0 <= i < j < children.len() && children[i].spec_contains(p)
                    ==> !children[j].spec_contains(p)
        },
        None => true,
    }
}

/// In a well-formed tree, a position contained in some node of the tree is
/// contained in the root.
pub proof fn lemma_contains_up(root: Node, n: Node, position: Position)
    requires
        tree_wf(root),
        in_tree(root, n),
        n.spec_contains(position),
    ensures
        root.spec_contains(position),
    decreases root,
{
    if root != n {
        let children = root.spec_children()->Some_0;
        let i = choose|i: int| 0 <= i < children.len() && in_tree(#[trigger] children[i], n);
        lemma_contains_up(children[i], n, position);
    }
}

/// Law: for a position inside node `n`'s span and outside every child of
/// `n`, the ancestor chain of a well-formed tree in which `n` occurs ends
/// at `n`.
pub proof fn lemma_ancestor_chain_ends_at(tree: Node, position: Position, n: Node)
    requires
        tree_wf(tree),
        in_tree(tree, n),
        n.spec_contains(position),
        next_node(n, position) is None,
    ensures
        spec_ancestor_chain(tree, position).len() >= 1,
        spec_ancestor_chain(tree, position).last() == n,
    decreases tree,
{
    lemma_contains_up(tree, n, position);
    if tree == n {
    } else {
        let children = tree.spec_children()->Some_0;
        let i = choose|i: int| 0 <= i < children.len() && in_tree(#[trigger] children[i], n);
        lemma_contains_up(children[i], n, position);
        lemma_first_containing_index(children, position);
        let f = first_containing_index(children, position);
        assert(f <= i);
        assert(f == i) by {
            if f < i {
                assert(children[f].spec_contains(position));
            }
        }
        lemma_ancestor_chain_ends_at(children[i], position, n);
        assert(spec_ancestor_chain(tree, position) == seq![tree] + spec_ancestor_chain(
            children[i],
            position,
        ));
    }
}

/// Law: for a position outside the root's span the ancestor chain is empty.
pub proof fn lemma_ancestor_chain_outside_root(tree: Node, position: Position)
    requires
        !tree.spec_contains(position),
    ensures
        spec_ancestor_chain(tree, position) == Seq::<Node>::empty(),
{
}

/// The deepest (last) element of `chain` satisfying `pred`, or none when no
/// element does.
pub open spec fn spec_deepest_match(chain: Seq<Node>, pred: spec_fn(Node) -> bool) -> Option<
    Node,
>
    decreases chain.len(),
{
    if chain.len() == 0 {
        None
    } else if pred(chain.last()) {
        Some(chain.last())
    } else {
        spec_deepest_match(chain.drop_last(), pred)
    }
}

/// A result is the deepest match exactly when it is a satisfying element
/// below which no element satisfies the predicate, or none while no element
/// satisfies it at all.
pub proof fn lemma_deepest_match_characterization(
    chain: Seq<Node>,
    pred: spec_fn(Node) -> bool,
    r: Option<Node>,
)
    requires
        match r {
            Some(n) => exists|i: int|
                0 <= i < chain.len() && chain[i] == n && pred(n) && (forall|j: int|
                    i < j < chain.len() ==> !pred(#[trigger] chain[j])),
            None => forall|j: int| 0 <= j < chain.len() ==> !pred(#[trigger] chain[j]),
        },
    ensures
        spec_deepest_match(chain, pred) == r,
    decreases chain.len(),
{
    match r {
        None => {
            if chain.len() > 0 {
                lemma_deepest_match_characterization(chain.drop_last(), pred, r);
            }
        },
        Some(n) => {
            let i = choose|i: int|
                0 <= i < chain.len() && chain[i] == n && pred(n) && (forall|j: int|
                    i < j < chain.len() ==> !pred(#[trigger] chain[j]));
            if i == chain.len() - 1 {
                assert(chain.last() == n);
            } else {
                assert(!pred(chain.last()));
                assert(chain.drop_last()[i] == chain[i]);
                assert(forall|j: int|
                    i < j < chain.drop_last().len() ==> !pred(#[trigger] chain.drop_last()[j]));
                lemma_deepest_match_characterization(chain.drop_last(), pred, r);
            }
        },
    }
}

/// Law: over a non-empty chain with no element satisfying the predicate,
/// the deepest-match search returns none.
pub proof fn lemma_deepest_match_none(chain: Seq<Node>, pred: spec_fn(Node) -> bool)
    requires
        chain.len() > 0,
        forall|j: int| 0 <= j < chain.len() ==> !pred(#[trigger] chain[j]),
    ensures
        spec_deepest_match(chain, pred) is None,
{
    lemma_deepest_match_characterization(chain, pred, None);
}

/// Law: when elements at two depths satisfy the predicate, the deepest-match
/// search returns the deepest (last) satisfying element, never a shallower
/// one.
pub proof fn lemma_deepest_match_returns_deepest(
    chain: Seq<Node>,
    pred: spec_fn(Node) -> bool,
    i: int,
    k: int,
)
    requires
        0 <= i < k < chain.len(),
        pred(chain[i]),
        pred(chain[k]),
        forall|j: int| k < j < chain.len() ==> !pred(#[trigger] chain[j]),
    ensures
        spec_deepest_match(chain, pred) == Some(chain[k]),
{
    assert(0 <= k < chain.len() && chain[k] == chain[k] && pred(chain[k]) && (forall|j: int|
        k < j < chain.len() ==> !pred(#[trigger] chain[j])));
    lemma_deepest_match_characterization(chain, pred, Some(chain[k]));
}

/// Scans the chain from its last (deepest) element toward the first and
/// returns the first element on which `test` returns true, or none when the
/// test fails everywhere.
pub fn find_deepest_match<'a, F: Fn(&Node) -> bool>(
    ancestor_chain: &'a Vec<&'a Node>,
    test: F,
) -> (r: Option<&'a Node>)
    requires
        forall|k: int|
            0 <= k < ancestor_chain@.len() ==> call_requires(test, (ancestor_chain@[k],)),
    ensures
        match r {
            Some(n) => exists|i: int|
                0 <= i < ancestor_chain@.len() && ancestor_chain@[i] == n && call_ensures(
                    test,
                    (n,),
                    true,
                ) && (forall|j: int|
                    i < j < ancestor_chain@.len() ==> call_ensures(
                        test,
                        (#[trigger] ancestor_chain@[j],),
                        false,
                    )),
            None => forall|j: int|
                0 <= j < ancestor_chain@.len() ==> call_ensures(
                    test,
                    (#[trigger] ancestor_chain@[j],),
                    false,
                ),
        },
{
    let mut i: usize = ancestor_chain.len();

    while i > 0
        invariant
            i <= ancestor_chain@.len(),
            forall|k: int|
                0 <= k < ancestor_chain@.len() ==> call_requires(test, (ancestor_chain@[k],)),
            forall|j: int|
                i <= j < ancestor_chain@.len() ==> call_ensures(
                    test,
                    (#[trigger] ancestor_chain@[j],),
                    false,
                ),
        decreases i,
    {
        i -= 1;
        let ancestor: &Node = ancestor_chain[i];
        if test(ancestor) {
            return Some(ancestor);
        }
    }

    None
}

/// The predicate the definition request searches with: is the node a
/// partial reference.
pub open spec fn is_partial_pred() -> spec_fn(Node) -> bool {
    |n: Node| n.spec_is_partial()
}

/// Finds the deepest node of the chain that is a partial reference, the
/// innermost enclosing construct of interest for a definition request.
pub fn find_deepest_partial<'a>(ancestor_chain: &'a Vec<&'a Node>) -> (r: Option<&'a Node>)
    ensures
        match r {
            Some(n) => spec_deepest_match(deref_seq(ancestor_chain@), is_partial_pred())
                == Some(*n),
            None => spec_deepest_match(deref_seq(ancestor_chain@), is_partial_pred()) is None,
        },
{
    let test = |node: &Node| -> (b: bool)
        ensures
            b == node.spec_is_partial(),
        { node.is_partial() };
    let r = find_deepest_match(ancestor_chain, test);
    proof {
        let chain = deref_seq(ancestor_chain@);
        let pred = is_partial_pred();
        match r {
            Some(n) => {
                let i = choose|i: int|
                    0 <= i < ancestor_chain@.len() && ancestor_chain@[i] == n && call_ensures(
                        test,
                        (n,),
                        true,
                    ) && (forall|j: int|
                        i < j < ancestor_chain@.len() ==> call_ensures(
                            test,
                            (#[trigger] ancestor_chain@[j],),
                            false,
                        ));
                assert(chain[i] == *n && pred(*n));
                assert(forall|j: int| i < j < chain.len() ==> !pred(#[trigger] chain[j]));
                lemma_deepest_match_characterization(chain, pred, Some(*n));
            },
            None => {
                assert(forall|j: int| 0 <= j < chain.len() ==> !pred(#[trigger] chain[j]));
                lemma_deepest_match_characterization(chain, pred, None);
            },
        }
    }
    r
}

} // verus!
