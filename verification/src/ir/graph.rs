//! The dependency graph of a design and its evaluation order.
//!
//! A graph is a list of nodes in the order in which they were added. Which
//! node depends on which is read off the nodes' own dependency lists, so the
//! two directions of adjacency cannot drift apart. Every graph that this
//! module hands out has distinct ids, holds every node that another depends
//! on, and has no cycle.

use vstd::prelude::*;
use vstd::string::*;
use crate::errors::{join2, join3, ErrorCode, KernelError, KernelResult};
use crate::ir::node::{id_texts, ref_id_texts, IRNode, NodeData, NodeId};
use crate::text::{
    lemma_str_le_antisymmetric, lemma_str_le_reflexive, lemma_str_le_total,
    lemma_str_le_transitive, str_le, str_le_exec,
};

verus! {

/// Some node of `nodes` has the id `id`.
pub open spec fn has_id(nodes: Seq<IRNode>, id: Seq<char>) -> bool {
    exists|i: int| 0 <= i < nodes.len() && (#[trigger] nodes[i]).id@ == id
}

/// No two nodes share an id.
pub open spec fn ids_distinct(nodes: Seq<IRNode>) -> bool {
    forall|i: int, j: int|
        0 <= i < j < nodes.len() ==> (#[trigger] nodes[i]).id@ != (#[trigger] nodes[j]).id@
}

/// The id of the `k`-th dependency of the `i`-th node.
pub open spec fn dependency(nodes: Seq<IRNode>, i: int, k: int) -> Seq<char> {
    nodes[i].dependencies@[k]@
}

/// `i` is a node and `k` one of its dependencies.
pub open spec fn is_edge(nodes: Seq<IRNode>, i: int, k: int) -> bool {
    0 <= i < nodes.len() && 0 <= k < nodes[i].dependencies@.len()
}

/// Every node that some node depends on is there.
pub open spec fn dependencies_present(nodes: Seq<IRNode>) -> bool {
    forall|i: int, k: int|
        is_edge(nodes, i, k) ==> has_id(nodes, #[trigger] dependency(nodes, i, k))
}

/// `rank` puts every node strictly above each of its dependencies.
pub open spec fn is_ranking(nodes: Seq<IRNode>, rank: spec_fn(Seq<char>) -> nat) -> bool {
    forall|i: int, k: int|
        is_edge(nodes, i, k) ==> rank(#[trigger] dependency(nodes, i, k)) < rank(nodes[i].id@)
}

/// The dependency relation has no cycle.
pub open spec fn acyclic(nodes: Seq<IRNode>) -> bool {
    exists|rank: spec_fn(Seq<char>) -> nat| is_ranking(nodes, rank)
}

/// What holds of the nodes of every graph.
pub open spec fn well_formed(nodes: Seq<IRNode>) -> bool {
    &&& ids_distinct(nodes)
    &&& dependencies_present(nodes)
    &&& acyclic(nodes)
}

/// The node `a` lists `b` among its dependencies.
pub open spec fn depends_on(nodes: Seq<IRNode>, a: Seq<char>, b: Seq<char>) -> bool {
    exists|i: int, k: int|
        is_edge(nodes, i, k) && nodes[i].id@ == a && #[trigger] dependency(nodes, i, k) == b
}

/// `to` is reached from `from` along at most `steps` dependencies.
pub open spec fn reaches(nodes: Seq<IRNode>, from: Seq<char>, to: Seq<char>, steps: nat) -> bool
    decreases steps,
{
    from == to || (steps > 0 && exists|mid: Seq<char>| #[trigger]
        depends_on(nodes, from, mid) && reaches(nodes, mid, to, (steps - 1) as nat))
}

/// `a` is `b` or depends on it, directly or through other nodes.
pub open spec fn depends_transitively(nodes: Seq<IRNode>, a: Seq<char>, b: Seq<char>) -> bool {
    exists|steps: nat| reaches(nodes, a, b, steps)
}

/// For each node, where in the list each of its dependencies stands.
pub open spec fn is_adjacency(nodes: Seq<IRNode>, adj: Seq<Vec<usize>>) -> bool {
    &&& adj.len() == nodes.len()
    &&& forall|i: int|
        0 <= i < nodes.len() ==> (#[trigger] adj[i])@.len() == nodes[i].dependencies@.len()
    &&& forall|i: int, k: int|
        is_edge(nodes, i, k) ==> adj[i]@[k] < nodes.len() && nodes[adj[i]@[k] as int].id@
            == #[trigger] dependency(nodes, i, k)
}

/// Where the node with the given id stands.
pub fn find_index(nodes: &Vec<IRNode>, id: &NodeId) -> (r: Option<usize>)
    ensures
        match r {
            Some(i) => i < nodes.len() && nodes@[i as int].id@ == id@,
            None => !has_id(nodes@, id@),
        },
{
    let n = nodes.len();
    let mut i: usize = 0;
    while i < n
        invariant
            n == nodes.len(),
            i <= n,
            forall|j: int| 0 <= j < i ==> (#[trigger] nodes@[j]).id@ != id@,
        decreases n - i,
    {
        if nodes[i].id.same_as(id) {
            return Some(i);
        }
        i += 1;
    }
    None
}

/// Looks up every dependency of one node.
fn dependency_row(nodes: &Vec<IRNode>, node: &IRNode) -> (r: Option<Vec<usize>>)
    ensures
        match r {
            Some(row) => row@.len() == node.dependencies@.len() && forall|k: int|
                0 <= k < row@.len() ==> (#[trigger] row@[k]) < nodes.len() && nodes@[row@[k] as int].id@
                    == node.dependencies@[k]@,
            None => exists|k: int|
                0 <= k < node.dependencies@.len() && !has_id(
                    nodes@,
                    #[trigger] node.dependencies@[k]@,
                ),
        },
{
    let mut row: Vec<usize> = Vec::new();
    let m = node.dependencies.len();
    let mut k: usize = 0;
    while k < m
        invariant
            m == node.dependencies@.len(),
            k <= m,
            row@.len() == k,
            forall|j: int|
                0 <= j < k ==> (#[trigger] row@[j]) < nodes.len() && nodes@[row@[j] as int].id@
                    == node.dependencies@[j]@,
        decreases m - k,
    {
        match find_index(nodes, &node.dependencies[k]) {
            Some(at) => {
                let ghost before = row@;
                row.push(at);
                assert forall|j: int| 0 <= j < k + 1 implies (#[trigger] row@[j]) < nodes.len()
                    && nodes@[row@[j] as int].id@ == node.dependencies@[j]@ by {
                    if j < k {
                        assert(before[j] < nodes.len());
                    }
                }
            },
            None => {
                assert(!has_id(nodes@, node.dependencies@[k as int]@));
                return None;
            },
        }
        k += 1;
    }
    Some(row)
}

/// Looks up every dependency of every node. `None` where one is missing.
pub fn dependency_indices(nodes: &Vec<IRNode>) -> (r: Option<Vec<Vec<usize>>>)
    ensures
        match r {
            Some(adj) => is_adjacency(nodes@, adj@) && dependencies_present(nodes@),
            None => !dependencies_present(nodes@),
        },
{
    let mut adj: Vec<Vec<usize>> = Vec::new();
    let n = nodes.len();
    let mut i: usize = 0;
    while i < n
        invariant
            n == nodes.len(),
            i <= n,
            adj@.len() == i,
            forall|a: int|
                0 <= a < i ==> (#[trigger] adj@[a])@.len() == nodes@[a].dependencies@.len(),
            forall|a: int, k: int|
                0 <= a < i && 0 <= k < nodes@[a].dependencies@.len() ==> (#[trigger] adj@[a]@[k])
                    < nodes.len() && nodes@[adj@[a]@[k] as int].id@ == dependency(nodes@, a, k),
        decreases n - i,
    {
        match dependency_row(nodes, &nodes[i]) {
            Some(row) => {
                let ghost before = adj@;
                adj.push(row);
                assert forall|a: int, k: int|
                    0 <= a < i + 1 && 0 <= k < nodes@[a].dependencies@.len() implies (
                #[trigger] adj@[a]@[k]) < nodes.len() && nodes@[adj@[a]@[k] as int].id@
                    == dependency(nodes@, a, k) by {
                    if a < i {
                        assert(adj@[a] == before[a]);
                        assert(before[a]@[k] < nodes.len());
                    } else {
                        assert(adj@[a] == row);
                        assert(row@[k] < nodes.len());
                    }
                }
            },
            None => {
                proof {
                    let k = choose|k: int|
                        0 <= k < nodes@[i as int].dependencies@.len() && !has_id(
                            nodes@,
                            #[trigger] nodes@[i as int].dependencies@[k]@,
                        );
                    assert(is_edge(nodes@, i as int, k));
                    assert(!has_id(nodes@, dependency(nodes@, i as int, k)));
                }
                return None;
            },
        }
        i += 1;
    }
    proof {
        assert forall|a: int, k: int| is_edge(nodes@, a, k) implies has_id(
            nodes@,
            #[trigger] dependency(nodes@, a, k),
        ) by {
            assert(adj@[a]@[k] < nodes.len());
            assert(nodes@[adj@[a]@[k] as int].id@ == dependency(nodes@, a, k));
        }
        assert forall|a: int, k: int| is_edge(nodes@, a, k) implies adj@[a]@[k] < nodes@.len()
            && nodes@[adj@[a]@[k] as int].id@ == #[trigger] dependency(nodes@, a, k) by {
            assert(adj@[a]@[k] < nodes.len());
        }
    }
    Some(adj)
}

/// Every entry of the adjacency lists names a node.
pub open spec fn in_bounds(adj: Seq<Vec<usize>>) -> bool {
    forall|i: int, k: int|
        0 <= i < adj.len() && 0 <= k < adj[i]@.len() ==> (#[trigger] adj[i]@[k]) < adj.len()
}

/// Node `to` is reached from node `from` along at most `steps` entries.
pub open spec fn index_reaches(adj: Seq<Vec<usize>>, from: int, to: int, steps: nat) -> bool
    decreases steps,
{
    from == to || (steps > 0 && 0 <= from < adj.len() && exists|k: int|
        0 <= k < adj[from]@.len() && index_reaches(
            adj,
            (#[trigger] adj[from]@[k]) as int,
            to,
            (steps - 1) as nat,
        ))
}

/// `marked` holds every start.
pub open spec fn holds_starts(marked: Seq<bool>, starts: Seq<usize>) -> bool {
    forall|s: int| 0 <= s < starts.len() ==> marked[(#[trigger] starts[s]) as int]
}

/// With a node, `marked` holds all that the node depends on.
pub open spec fn closed_under(adj: Seq<Vec<usize>>, marked: Seq<bool>) -> bool {
    forall|v: int, k: int|
        0 <= v < adj.len() && marked[v] && 0 <= k < adj[v]@.len() ==> marked[(
        #[trigger] adj[v]@[k]) as int]
}

/// Every marked node is reached from a start.
pub open spec fn only_reached(adj: Seq<Vec<usize>>, marked: Seq<bool>, starts: Seq<usize>) -> bool {
    forall|v: int|
        0 <= v < marked.len() && #[trigger] marked[v] ==> exists|s: int, steps: nat|
            0 <= s < starts.len() && #[trigger] index_reaches(adj, starts[s] as int, v, steps)
}

/// How many entries are still `false`.
pub open spec fn count_unmarked(marked: Seq<bool>) -> nat
    decreases marked.len(),
{
    if marked.len() == 0 {
        0
    } else {
        count_unmarked(marked.drop_last()) + if marked.last() {
            0nat
        } else {
            1nat
        }
    }
}

proof fn lemma_marking_counts(marked: Seq<bool>, i: int)
    requires
        0 <= i < marked.len(),
        !marked[i],
    ensures
        count_unmarked(marked.update(i, true)) + 1 == count_unmarked(marked),
    decreases marked.len(),
{
    let after = marked.update(i, true);
    if i == marked.len() - 1 {
        assert(after.drop_last() == marked.drop_last());
    } else {
        lemma_marking_counts(marked.drop_last(), i);
        assert(after.drop_last() == marked.drop_last().update(i, true));
    }
}

/// A path can be extended by one more dependency at its end.
proof fn lemma_index_reaches_extend(adj: Seq<Vec<usize>>, from: int, mid: int, k: int, steps: nat)
    requires
        index_reaches(adj, from, mid, steps),
        0 <= mid < adj.len(),
        0 <= k < adj[mid]@.len(),
    ensures
        index_reaches(adj, from, adj[mid]@[k] as int, steps + 1),
    decreases steps,
{
    let to = adj[mid]@[k] as int;
    if from == mid {
        assert(index_reaches(adj, to, to, steps));
    } else {
        let j = choose|j: int|
            0 <= j < adj[from]@.len() && index_reaches(
                adj,
                (#[trigger] adj[from]@[j]) as int,
                mid,
                (steps - 1) as nat,
            );
        lemma_index_reaches_extend(adj, adj[from]@[j] as int, mid, k, (steps - 1) as nat);
    }
}

/// A closed marking that holds the start of a path holds its end.
pub proof fn lemma_closed_holds_reached(
    adj: Seq<Vec<usize>>,
    marked: Seq<bool>,
    from: int,
    to: int,
    steps: nat,
)
    requires
        in_bounds(adj),
        marked.len() == adj.len(),
        closed_under(adj, marked),
        0 <= from < adj.len(),
        marked[from],
        index_reaches(adj, from, to, steps),
    ensures
        0 <= to < adj.len(),
        marked[to],
    decreases steps,
{
    if from != to {
        let k = choose|k: int|
            0 <= k < adj[from]@.len() && index_reaches(
                adj,
                (#[trigger] adj[from]@[k]) as int,
                to,
                (steps - 1) as nat,
            );
        lemma_closed_holds_reached(adj, marked, adj[from]@[k] as int, to, (steps - 1) as nat);
    }
}

/// Marks the nodes that the starts depend on, directly or through others,
/// and the starts themselves.
fn mark_dependencies(adj: &Vec<Vec<usize>>, starts: &Vec<usize>) -> (marked: Vec<bool>)
    requires
        in_bounds(adj@),
        forall|s: int| 0 <= s < starts.len() ==> (#[trigger] starts@[s]) < adj.len(),
    ensures
        marked@.len() == adj@.len(),
        holds_starts(marked@, starts@),
        closed_under(adj@, marked@),
        only_reached(adj@, marked@, starts@),
{
    let n = adj.len();
    let mut marked: Vec<bool> = Vec::new();
    let mut i: usize = 0;
    while i < n
        invariant
            i <= n,
            marked@.len() == i,
            forall|v: int| 0 <= v < i ==> !(#[trigger] marked@[v]),
        decreases n - i,
    {
        marked.push(false);
        i += 1;
    }
    let m = starts.len();
    let mut s: usize = 0;
    while s < m
        invariant
            n == adj.len(),
            m == starts.len(),
            s <= m,
            marked@.len() == n,
            forall|t: int| 0 <= t < starts.len() ==> (#[trigger] starts@[t]) < n,
            forall|t: int| 0 <= t < s ==> marked@[(#[trigger] starts@[t]) as int],
            only_reached(adj@, marked@, starts@),
        decreases m - s,
    {
        let at = starts[s];
        let ghost before = marked@;
        marked.set(at, true);
        proof {
            assert(index_reaches(adj@, starts@[s as int] as int, at as int, 0));
            assert forall|v: int| 0 <= v < marked@.len() && #[trigger] marked@[v] implies exists|
                t: int,
                steps: nat,
            |
                0 <= t < starts@.len() && #[trigger] index_reaches(
                    adj@,
                    starts@[t] as int,
                    v,
                    steps,
                ) by {
                if v != at {
                    assert(before[v]);
                }
            }
        }
        s += 1;
    }
    let mut changed = true;
    while changed
        invariant
            n == adj.len(),
            marked@.len() == n,
            in_bounds(adj@),
            forall|t: int| 0 <= t < starts.len() ==> (#[trigger] starts@[t]) < n,
            holds_starts(marked@, starts@),
            only_reached(adj@, marked@, starts@),
            !changed ==> closed_under(adj@, marked@),
        decreases count_unmarked(marked@) + if changed { 1nat } else { 0nat },
    {
        changed = false;
        let ghost at_start = marked@;
        let mut v: usize = 0;
        while v < n
            invariant
                n == adj.len(),
                marked@.len() == n,
                v <= n,
                in_bounds(adj@),
                forall|t: int| 0 <= t < starts.len() ==> (#[trigger] starts@[t]) < n,
                holds_starts(marked@, starts@),
                only_reached(adj@, marked@, starts@),
                !changed ==> marked@ == at_start,
                changed ==> count_unmarked(marked@) < count_unmarked(at_start),
                !changed ==> forall|a: int, k: int|
                    0 <= a < v && marked@[a] && 0 <= k < adj@[a]@.len() ==> marked@[(
                    #[trigger] adj@[a]@[k]) as int],
            decreases n - v,
        {
            if marked[v] {
                let row = &adj[v];
                let d = row.len();
                let mut k: usize = 0;
                while k < d
                    invariant
                        n == adj.len(),
                        marked@.len() == n,
                        v < n,
                        row == adj@[v as int],
                        d == row@.len(),
                        k <= d,
                        marked@[v as int],
                        in_bounds(adj@),
                        forall|t: int| 0 <= t < starts.len() ==> (#[trigger] starts@[t]) < n,
                        holds_starts(marked@, starts@),
                        only_reached(adj@, marked@, starts@),
                        !changed ==> marked@ == at_start,
                        changed ==> count_unmarked(marked@) < count_unmarked(at_start),
                        !changed ==> forall|a: int, j: int|
                            0 <= a < v && marked@[a] && 0 <= j < adj@[a]@.len() ==> marked@[(
                            #[trigger] adj@[a]@[j]) as int],
                        !changed ==> forall|j: int|
                            0 <= j < k ==> marked@[(#[trigger] adj@[v as int]@[j]) as int],
                    decreases d - k,
                {
                    let to = row[k];
                    assert(to == adj@[v as int]@[k as int]);
                    if !marked[to] {
                        let ghost before = marked@;
                        marked.set(to, true);
                        proof {
                            lemma_marking_counts(before, to as int);
                            let t = choose|t: int, steps: nat|
                                0 <= t < starts@.len() && #[trigger] index_reaches(
                                    adj@,
                                    starts@[t] as int,
                                    v as int,
                                    steps,
                                );
                            lemma_index_reaches_extend(
                                adj@,
                                starts@[t.0] as int,
                                v as int,
                                k as int,
                                t.1,
                            );
                            assert forall|w: int|
                                0 <= w < marked@.len() && #[trigger] marked@[w] implies exists|
                                t: int,
                                steps: nat,
                            |
                                0 <= t < starts@.len() && #[trigger] index_reaches(
                                    adj@,
                                    starts@[t] as int,
                                    w,
                                    steps,
                                ) by {
                                if w != to {
                                    assert(before[w]);
                                }
                            }
                            assert forall|t: int| 0 <= t < starts@.len() implies marked@[(
                            #[trigger] starts@[t]) as int] by {
                                assert(before[starts@[t] as int]);
                            }
                        }
                        changed = true;
                    }
                    k += 1;
                }
            }
            v += 1;
        }
    }
    marked
}

/// A path over positions is a path over ids.
pub proof fn lemma_index_path_is_path(
    nodes: Seq<IRNode>,
    adj: Seq<Vec<usize>>,
    i: int,
    j: int,
    steps: nat,
)
    requires
        is_adjacency(nodes, adj),
        0 <= i < nodes.len(),
        index_reaches(adj, i, j, steps),
    ensures
        0 <= j < nodes.len(),
        reaches(nodes, nodes[i].id@, nodes[j].id@, steps),
    decreases steps,
{
    if i != j {
        let k = choose|k: int|
            0 <= k < adj[i]@.len() && index_reaches(
                adj,
                (#[trigger] adj[i]@[k]) as int,
                j,
                (steps - 1) as nat,
            );
        assert(is_edge(nodes, i, k));
        let next = adj[i]@[k] as int;
        assert(nodes[next].id@ == dependency(nodes, i, k));
        lemma_index_path_is_path(nodes, adj, next, j, (steps - 1) as nat);
        assert(depends_on(nodes, nodes[i].id@, nodes[next].id@));
    }
}

/// A path over ids is a path over positions.
pub proof fn lemma_path_is_index_path(
    nodes: Seq<IRNode>,
    adj: Seq<Vec<usize>>,
    i: int,
    to: Seq<char>,
    steps: nat,
) -> (j: int)
    requires
        is_adjacency(nodes, adj),
        ids_distinct(nodes),
        0 <= i < nodes.len(),
        reaches(nodes, nodes[i].id@, to, steps),
    ensures
        0 <= j < nodes.len(),
        nodes[j].id@ == to,
        index_reaches(adj, i, j, steps),
    decreases steps,
{
    if nodes[i].id@ == to {
        i
    } else {
        let mid = choose|mid: Seq<char>| #[trigger]
            depends_on(nodes, nodes[i].id@, mid) && reaches(nodes, mid, to, (steps - 1) as nat);
        let (a, k) = choose|a: int, k: int|
            is_edge(nodes, a, k) && nodes[a].id@ == nodes[i].id@ && #[trigger] dependency(
                nodes,
                a,
                k,
            ) == mid;
        assert(a == i) by {
            if a < i {
                assert(nodes[a].id@ != nodes[i].id@);
            }
            if i < a {
                assert(nodes[i].id@ != nodes[a].id@);
            }
        }
        let next = adj[i]@[k] as int;
        assert(nodes[next].id@ == dependency(nodes, i, k));
        let j = lemma_path_is_index_path(nodes, adj, next, to, (steps - 1) as nat);
        assert(index_reaches(adj, adj[i]@[k] as int, j, (steps - 1) as nat));
        j
    }
}

/// The order in which nodes that are ready at once are evaluated: by the
/// priority of their type, then by id.
pub open spec fn key_le(a: IRNode, b: IRNode) -> bool {
    a.node_type.priority() < b.node_type.priority() || (a.node_type.priority()
        == b.node_type.priority() && str_le(a.id@, b.id@))
}

pub fn key_le_exec(a: &IRNode, b: &IRNode) -> (r: bool)
    ensures
        r == key_le(*a, *b),
{
    let pa = a.evaluation_priority();
    let pb = b.evaluation_priority();
    pa < pb || (pa == pb && str_le_exec(a.id.as_str(), b.id.as_str()))
}

pub proof fn lemma_key_le_order(a: IRNode, b: IRNode, c: IRNode)
    ensures
        key_le(a, a),
        key_le(a, b) || key_le(b, a),
        key_le(a, b) && key_le(b, c) ==> key_le(a, c),
        key_le(a, b) && key_le(b, a) ==> a.id@ == b.id@,
{
    lemma_str_le_reflexive(a.id@);
    lemma_str_le_total(a.id@, b.id@);
    if str_le(a.id@, b.id@) && str_le(b.id@, c.id@) {
        lemma_str_le_transitive(a.id@, b.id@, c.id@);
    }
    if str_le(a.id@, b.id@) && str_le(b.id@, a.id@) {
        lemma_str_le_antisymmetric(a.id@, b.id@);
    }
}

/// The `i`-th node has not been evaluated, and all it depends on has.
pub open spec fn is_ready(nodes: Seq<IRNode>, done: Seq<Seq<char>>, i: int) -> bool {
    &&& 0 <= i < nodes.len()
    &&& !done.contains(nodes[i].id@)
    &&& forall|k: int|
        0 <= k < nodes[i].dependencies@.len() ==> done.contains(#[trigger] dependency(nodes, i, k))
}

/// `id` is the node to evaluate after `done`: the first of the ready nodes.
pub open spec fn is_next(nodes: Seq<IRNode>, done: Seq<Seq<char>>, id: Seq<char>) -> bool {
    exists|i: int| #[trigger]
        is_ready(nodes, done, i) && nodes[i].id@ == id && forall|j: int| #[trigger]
            is_ready(nodes, done, j) ==> key_le(nodes[i], nodes[j])
}

/// `order` lists every node, each after all it depends on, and among the
/// nodes that could come next always the first by type priority and id.
pub open spec fn is_evaluation_order(nodes: Seq<IRNode>, order: Seq<Seq<char>>) -> bool {
    &&& order.len() == nodes.len()
    &&& forall|i: int| 0 <= i < nodes.len() ==> order.contains((#[trigger] nodes[i]).id@)
    &&& forall|p: int| 0 <= p < order.len() ==> is_next(nodes, #[trigger] order.take(p), order[p])
}

/// In an evaluation order every dependency stands strictly before the node
/// that depends on it.
pub proof fn lemma_dependencies_come_first(
    nodes: Seq<IRNode>,
    order: Seq<Seq<char>>,
    i: int,
    k: int,
) -> (at: (int, int))
    requires
        ids_distinct(nodes),
        is_evaluation_order(nodes, order),
        is_edge(nodes, i, k),
    ensures
        0 <= at.0 < at.1 < order.len(),
        order[at.0] == dependency(nodes, i, k),
        order[at.1] == nodes[i].id@,
{
    assert(order.contains(nodes[i].id@));
    let p = choose|p: int| 0 <= p < order.len() && order[p] == nodes[i].id@;
    let done = order.take(p);
    assert(is_next(nodes, done, order[p]));
    let a = choose|a: int| #[trigger]
        is_ready(nodes, done, a) && nodes[a].id@ == order[p] && forall|j: int| #[trigger]
            is_ready(nodes, done, j) ==> key_le(nodes[a], nodes[j]);
    assert(a == i) by {
        if a < i {
            assert(nodes[a].id@ != nodes[i].id@);
        }
        if i < a {
            assert(nodes[i].id@ != nodes[a].id@);
        }
    }
    assert(done.contains(dependency(nodes, i, k)));
    let q = choose|q: int| 0 <= q < done.len() && done[q] == dependency(nodes, i, k);
    (q, p)
}

/// An evaluation order lists no node twice.
pub proof fn lemma_order_has_no_duplicates(nodes: Seq<IRNode>, order: Seq<Seq<char>>)
    requires
        is_evaluation_order(nodes, order),
    ensures
        order.no_duplicates(),
{
    assert forall|q: int, p: int| 0 <= q < order.len() && 0 <= p < order.len() && q != p implies order[q]
        != order[p] by {
        let (lo, hi) = if q < p { (q, p) } else { (p, q) };
        let done = order.take(hi);
        assert(is_next(nodes, done, order[hi]));
        assert(done[lo] == order[lo]);
        assert(!done.contains(order[hi]));
    }
}

/// The nodes determine their evaluation order.
pub proof fn lemma_evaluation_order_unique(
    nodes: Seq<IRNode>,
    first: Seq<Seq<char>>,
    second: Seq<Seq<char>>,
)
    requires
        is_evaluation_order(nodes, first),
        is_evaluation_order(nodes, second),
    ensures
        first == second,
{
    assert forall|p: int| 0 <= p <= first.len() implies first.take(p) == second.take(p) by {
        lemma_orders_agree(nodes, first, second, p);
    }
    assert(first.take(first.len() as int) == first);
    assert(second.take(second.len() as int) == second);
}

proof fn lemma_orders_agree(
    nodes: Seq<IRNode>,
    first: Seq<Seq<char>>,
    second: Seq<Seq<char>>,
    p: int,
)
    requires
        is_evaluation_order(nodes, first),
        is_evaluation_order(nodes, second),
        0 <= p <= first.len(),
    ensures
        first.take(p) == second.take(p),
    decreases p,
{
    if p == 0 {
        assert(first.take(0) =~= second.take(0));
    } else {
        lemma_orders_agree(nodes, first, second, p - 1);
        let done = first.take(p - 1);
        assert(is_next(nodes, done, first[p - 1]));
        assert(is_next(nodes, second.take(p - 1), second[p - 1]));
        let a = choose|a: int| #[trigger]
            is_ready(nodes, done, a) && nodes[a].id@ == first[p - 1] && forall|j: int| #[trigger]
                is_ready(nodes, done, j) ==> key_le(nodes[a], nodes[j]);
        let b = choose|b: int| #[trigger]
            is_ready(nodes, done, b) && nodes[b].id@ == second[p - 1] && forall|j: int| #[trigger]
                is_ready(nodes, done, j) ==> key_le(nodes[b], nodes[j]);
        lemma_key_le_order(nodes[a], nodes[b], nodes[a]);
        assert(first.take(p) =~= first.take(p - 1).push(first[p - 1]));
        assert(second.take(p) =~= second.take(p - 1).push(second[p - 1]));
    }
}

proof fn lemma_some_unmarked(marked: Seq<bool>) -> (i: int)
    requires
        count_unmarked(marked) > 0,
    ensures
        0 <= i < marked.len(),
        !marked[i],
    decreases marked.len(),
{
    if !marked.last() {
        marked.len() - 1
    } else {
        lemma_some_unmarked(marked.drop_last())
    }
}

proof fn lemma_none_unmarked(marked: Seq<bool>, i: int)
    requires
        count_unmarked(marked) == 0,
        0 <= i < marked.len(),
    ensures
        marked[i],
    decreases marked.len(),
{
    if i < marked.len() - 1 {
        lemma_none_unmarked(marked.drop_last(), i);
    }
}

proof fn lemma_all_unmarked(marked: Seq<bool>)
    requires
        forall|i: int| 0 <= i < marked.len() ==> !(#[trigger] marked[i]),
    ensures
        count_unmarked(marked) == marked.len(),
    decreases marked.len(),
{
    if marked.len() > 0 {
        lemma_all_unmarked(marked.drop_last());
    }
}

/// Among ranked nodes, below any node that is left there is one that is
/// left and waits for nothing.
proof fn lemma_ranked_has_ready(
    nodes: Seq<IRNode>,
    adj: Seq<Vec<usize>>,
    emitted: Seq<bool>,
    rank: spec_fn(Seq<char>) -> nat,
    i: int,
) -> (a: int)
    requires
        is_adjacency(nodes, adj),
        is_ranking(nodes, rank),
        emitted.len() == nodes.len(),
        0 <= i < nodes.len(),
        !emitted[i],
    ensures
        0 <= a < nodes.len(),
        !emitted[a],
        forall|k: int| 0 <= k < adj[a]@.len() ==> emitted[(#[trigger] adj[a]@[k]) as int],
    decreases rank(nodes[i].id@),
{
    if forall|k: int| 0 <= k < adj[i]@.len() ==> emitted[(#[trigger] adj[i]@[k]) as int] {
        i
    } else {
        let k = choose|k: int| 0 <= k < adj[i]@.len() && !emitted[(#[trigger] adj[i]@[k]) as int];
        assert(is_edge(nodes, i, k));
        let next = adj[i]@[k] as int;
        assert(nodes[next].id@ == dependency(nodes, i, k));
        assert(rank(dependency(nodes, i, k)) < rank(nodes[i].id@));
        lemma_ranked_has_ready(nodes, adj, emitted, rank, next)
    }
}

/// The place of an id in an order.
pub open spec fn position_in(order: Seq<Seq<char>>, id: Seq<char>) -> nat {
    if order.contains(id) {
        order.index_of(id) as nat
    } else {
        0
    }
}

/// Nodes that have an evaluation order have no cycle.
pub proof fn lemma_ordered_is_acyclic(nodes: Seq<IRNode>, order: Seq<Seq<char>>)
    requires
        ids_distinct(nodes),
        is_evaluation_order(nodes, order),
    ensures
        acyclic(nodes),
{
    let rank = |id: Seq<char>| position_in(order, id);
    lemma_order_has_no_duplicates(nodes, order);
    assert forall|i: int, k: int| is_edge(nodes, i, k) implies rank(
        #[trigger] dependency(nodes, i, k),
    ) < rank(nodes[i].id@) by {
        let at = lemma_dependencies_come_first(nodes, order, i, k);
        let dep = dependency(nodes, i, k);
        let id = nodes[i].id@;
        assert(order.contains(dep));
        assert(order.contains(id));
        let q = order.index_of(dep);
        let p = order.index_of(id);
        assert(order[q] == order[at.0]);
        assert(order[p] == order[at.1]);
    }
    assert(is_ranking(nodes, rank));
}

/// Positions of dependencies are positions of nodes.
pub proof fn lemma_adjacency_in_bounds(nodes: Seq<IRNode>, adj: Seq<Vec<usize>>)
    requires
        is_adjacency(nodes, adj),
    ensures
        in_bounds(adj),
{
    assert forall|i: int, k: int| 0 <= i < adj.len() && 0 <= k < adj[i]@.len() implies (
    #[trigger] adj[i]@[k]) < adj.len() by {
        assert(is_edge(nodes, i, k));
        assert(nodes[adj[i]@[k] as int].id@ == dependency(nodes, i, k));
    }
}

/// Which of the nodes at `row` positions have been evaluated.
fn all_emitted(row: &Vec<usize>, emitted: &Vec<bool>) -> (r: bool)
    requires
        forall|k: int| 0 <= k < row@.len() ==> (#[trigger] row@[k]) < emitted@.len(),
    ensures
        r == forall|k: int| 0 <= k < row@.len() ==> emitted@[(#[trigger] row@[k]) as int],
{
    let d = row.len();
    let mut k: usize = 0;
    while k < d
        invariant
            d == row@.len(),
            k <= d,
            forall|j: int| 0 <= j < row@.len() ==> (#[trigger] row@[j]) < emitted@.len(),
            forall|j: int| 0 <= j < k ==> emitted@[(#[trigger] row@[j]) as int],
        decreases d - k,
    {
        if !emitted[row[k]] {
            return false;
        }
        k += 1;
    }
    true
}

/// Whether no two of the nodes share an id.
pub fn has_distinct_ids(nodes: &Vec<IRNode>) -> (r: Result<(), usize>)
    ensures
        match r {
            Ok(()) => ids_distinct(nodes@),
            Err(j) => exists|i: int| 0 <= i < j < nodes@.len() && nodes@[i].id@ == nodes@[j as int].id@,
        },
{
    let n = nodes.len();
    let mut j: usize = 0;
    while j < n
        invariant
            n == nodes@.len(),
            j <= n,
            forall|a: int, b: int|
                0 <= a < b < j ==> (#[trigger] nodes@[a]).id@ != (#[trigger] nodes@[b]).id@,
        decreases n - j,
    {
        let mut i: usize = 0;
        while i < j
            invariant
                n == nodes@.len(),
                j < n,
                i <= j,
                forall|a: int| 0 <= a < i ==> (#[trigger] nodes@[a]).id@ != nodes@[j as int].id@,
            decreases j - i,
        {
            if nodes[i].id.same_as(&nodes[j].id) {
                return Err(j);
            }
            i += 1;
        }
        j += 1;
    }
    Ok(())
}

/// The evaluation order of the nodes, where they are well formed: where
/// ids are distinct, every dependency is present and there is no cycle.
pub fn evaluation_order_of(nodes: &Vec<IRNode>) -> (r: Option<Vec<NodeId>>)
    ensures
        match r {
            Some(order) => well_formed(nodes@) && is_evaluation_order(nodes@, id_texts(order@)),
            None => !well_formed(nodes@),
        },
{
    match has_distinct_ids(nodes) {
        Ok(()) => order_of_distinct(nodes),
        Err(j) => {
            proof {
                let i = choose|i: int|
                    0 <= i < j < nodes@.len() && nodes@[i].id@ == nodes@[j as int].id@;
                assert(nodes@[i].id@ == nodes@[j as int].id@);
            }
            None
        },
    }
}

/// The evaluation order of nodes with distinct ids.
fn order_of_distinct(nodes: &Vec<IRNode>) -> (r: Option<Vec<NodeId>>)
    requires
        ids_distinct(nodes@),
    ensures
        match r {
            Some(order) => is_evaluation_order(nodes@, id_texts(order@)) && dependencies_present(
                nodes@,
            ) && acyclic(nodes@),
            None => !(dependencies_present(nodes@) && acyclic(nodes@)),
        },
{
    let adj = match dependency_indices(nodes) {
        Some(adj) => adj,
        None => {
            return None;
        },
    };
    let n = nodes.len();
    let mut emitted: Vec<bool> = Vec::new();
    let mut i: usize = 0;
    while i < n
        invariant
            i <= n,
            emitted@.len() == i,
            forall|v: int| 0 <= v < i ==> !(#[trigger] emitted@[v]),
        decreases n - i,
    {
        emitted.push(false);
        i += 1;
    }
    let mut order: Vec<NodeId> = Vec::new();
    proof {
        lemma_all_unmarked(emitted@);
    }
    while order.len() < n
        invariant
            n == nodes.len(),
            ids_distinct(nodes@),
            is_adjacency(nodes@, adj@),
            emitted@.len() == n,
            order@.len() <= n,
            count_unmarked(emitted@) + order@.len() == n,
            forall|a: int|
                0 <= a < n ==> ((#[trigger] emitted@[a]) <==> id_texts(order@).contains(
                    nodes@[a].id@,
                )),
            forall|p: int|
                0 <= p < order@.len() ==> is_next(
                    nodes@,
                    #[trigger] id_texts(order@).take(p),
                    id_texts(order@)[p],
                ),
        decreases n - order@.len(),
    {
        let ghost done = id_texts(order@);
        let mut best: Option<usize> = None;
        let mut c: usize = 0;
        while c < n
            invariant
                n == nodes.len(),
                c <= n,
                done == id_texts(order@),
                ids_distinct(nodes@),
                is_adjacency(nodes@, adj@),
                emitted@.len() == n,
                forall|a: int|
                    0 <= a < n ==> ((#[trigger] emitted@[a]) <==> done.contains(nodes@[a].id@)),
                match best {
                    Some(b) => b < c && is_ready(nodes@, done, b as int) && forall|j: int|
                        0 <= j < c && #[trigger] is_ready(nodes@, done, j) ==> key_le(
                            nodes@[b as int],
                            nodes@[j],
                        ),
                    None => forall|j: int|
                        0 <= j < c ==> !emitted@[j] ==> exists|k: int|
                            0 <= k < adj@[j]@.len() && !emitted@[(#[trigger] adj@[j]@[k]) as int],
                },
            decreases n - c,
        {
            proof {
                lemma_adjacency_in_bounds(nodes@, adj@);
            }
            let ready = !emitted[c] && all_emitted(&adj[c], &emitted);
            proof {
                // What the flags say is what readiness asks.
                if ready {
                    assert forall|k: int|
                        0 <= k < nodes@[c as int].dependencies@.len() implies done.contains(
                        #[trigger] dependency(nodes@, c as int, k),
                    ) by {
                        assert(is_edge(nodes@, c as int, k));
                        assert(emitted@[adj@[c as int]@[k] as int]);
                    }
                    assert(is_ready(nodes@, done, c as int));
                } else {
                    if is_ready(nodes@, done, c as int) {
                        assert forall|k: int| 0 <= k < adj@[c as int]@.len() implies emitted@[(
                        #[trigger] adj@[c as int]@[k]) as int] by {
                            assert(is_edge(nodes@, c as int, k));
                            assert(done.contains(dependency(nodes@, c as int, k)));
                        }
                    }
                    assert(!is_ready(nodes@, done, c as int));
                }
            }
            if ready {
                match best {
                    None => {
                        proof {
                            lemma_key_le_order(
                                nodes@[c as int],
                                nodes@[c as int],
                                nodes@[c as int],
                            );
                            assert forall|j: int|
                                0 <= j < c + 1 && #[trigger] is_ready(
                                    nodes@,
                                    done,
                                    j,
                                ) implies key_le(nodes@[c as int], nodes@[j]) by {
                                if j < c {
                                    // A ready node before `c` would have been taken.
                                    if !emitted@[j] {
                                        let k = choose|k: int|
                                            0 <= k < adj@[j]@.len() && !emitted@[(
                                            #[trigger] adj@[j]@[k]) as int];
                                        assert(is_edge(nodes@, j, k));
                                        assert(done.contains(dependency(nodes@, j, k)));
                                    }
                                }
                            }
                        }
                        best = Some(c);
                    },
                    Some(b) => {
                        if !key_le_exec(&nodes[b], &nodes[c]) {
                            proof {
                                assert forall|j: int|
                                    0 <= j < c + 1 && #[trigger] is_ready(
                                        nodes@,
                                        done,
                                        j,
                                    ) implies key_le(nodes@[c as int], nodes@[j]) by {
                                    lemma_key_le_order(
                                        nodes@[c as int],
                                        nodes@[b as int],
                                        nodes@[j],
                                    );
                                    lemma_key_le_order(
                                        nodes@[b as int],
                                        nodes@[c as int],
                                        nodes@[c as int],
                                    );
                                    lemma_key_le_order(
                                        nodes@[c as int],
                                        nodes@[c as int],
                                        nodes@[c as int],
                                    );
                                }
                            }
                            best = Some(c);
                        }
                    },
                }
            } else {
                proof {
                    if best is None && !emitted@[c as int] {
                        assert(exists|k: int|
                            0 <= k < adj@[c as int]@.len() && !emitted@[(
                            #[trigger] adj@[c as int]@[k]) as int]);
                    }
                }
            }
            c += 1;
        }
        match best {
            None => {
                proof {
                    if acyclic(nodes@) {
                        let rank = choose|rank: spec_fn(Seq<char>) -> nat|
                            is_ranking(nodes@, rank);
                        let left = lemma_some_unmarked(emitted@);
                        let a = lemma_ranked_has_ready(nodes@, adj@, emitted@, rank, left);
                        assert(exists|k: int|
                            0 <= k < adj@[a]@.len() && !emitted@[(#[trigger] adj@[a]@[k]) as int]);
                    }
                }
                return None;
            },
            Some(b) => {
                let ghost flags = emitted@;
                let id = nodes[b].id.clone();
                order.push(id);
                emitted.set(b, true);
                proof {
                    let after = id_texts(order@);
                    assert(after =~= done.push(nodes@[b as int].id@));
                    assert(!flags[b as int]);
                    lemma_marking_counts(flags, b as int);
                    assert forall|a: int| 0 <= a < n implies ((#[trigger] emitted@[a])
                        <==> after.contains(nodes@[a].id@)) by {
                        if a == b {
                            assert(after[done.len() as int] == nodes@[a].id@);
                        } else {
                            if a < b {
                                assert(nodes@[a].id@ != nodes@[b as int].id@);
                            } else {
                                assert(nodes@[b as int].id@ != nodes@[a].id@);
                            }
                            if flags[a] {
                                let q = choose|q: int|
                                    0 <= q < done.len() && done[q] == nodes@[a].id@;
                                assert(after[q] == nodes@[a].id@);
                            }
                            if after.contains(nodes@[a].id@) {
                                let q = choose|q: int|
                                    0 <= q < after.len() && after[q] == nodes@[a].id@;
                                assert(done[q] == nodes@[a].id@);
                            }
                        }
                    }
                    assert forall|p: int| 0 <= p < order@.len() implies is_next(
                        nodes@,
                        #[trigger] after.take(p),
                        after[p],
                    ) by {
                        if p < done.len() {
                            assert(after.take(p) =~= done.take(p));
                            assert(is_next(nodes@, done.take(p), done[p]));
                        } else {
                            assert(after.take(p) =~= done);
                            assert(is_ready(nodes@, done, b as int));
                        }
                    }
                }
            },
        }
    }
    proof {
        let done = id_texts(order@);
        assert forall|a: int| 0 <= a < nodes@.len() implies done.contains(
            (#[trigger] nodes@[a]).id@,
        ) by {
            lemma_none_unmarked(emitted@, a);
        }
        lemma_ordered_is_acyclic(nodes@, done);
    }
    Some(order)
}

/// A bound on the rank of every node.
pub open spec fn rank_bound(nodes: Seq<IRNode>, rank: spec_fn(Seq<char>) -> nat) -> nat
    decreases nodes.len(),
{
    if nodes.len() == 0 {
        0
    } else {
        let rest = rank_bound(nodes.drop_last(), rank);
        if rank(nodes.last().id@) > rest {
            rank(nodes.last().id@)
        } else {
            rest
        }
    }
}

proof fn lemma_rank_bound(nodes: Seq<IRNode>, rank: spec_fn(Seq<char>) -> nat, i: int)
    requires
        0 <= i < nodes.len(),
    ensures
        rank(nodes[i].id@) <= rank_bound(nodes, rank),
    decreases nodes.len(),
{
    if i < nodes.len() - 1 {
        lemma_rank_bound(nodes.drop_last(), rank, i);
    }
}

/// The id belongs to a marked node.
pub open spec fn is_marked_id(nodes: Seq<IRNode>, marked: Seq<bool>, id: Seq<char>) -> bool {
    exists|v: int| 0 <= v < nodes.len() && marked[v] && (#[trigger] nodes[v]).id@ == id
}

/// A rank for the nodes after `node` has come in: what `node` depends on
/// keeps its rank, `node` stands above that, and all else above `node`.
pub open spec fn rank_after_insert(
    nodes: Seq<IRNode>,
    marked: Seq<bool>,
    rank: spec_fn(Seq<char>) -> nat,
    id: Seq<char>,
) -> spec_fn(Seq<char>) -> nat {
    |x: Seq<char>|
        if x == id {
            rank_bound(nodes, rank) + 1
        } else if is_marked_id(nodes, marked, x) {
            rank(x)
        } else {
            rank_bound(nodes, rank) + 2 + rank(x)
        }
}

/// The nodes with `node` in the place of the node at `at`, or after them
/// all where `at` is their number.
pub open spec fn placed(nodes: Seq<IRNode>, at: int, node: IRNode) -> Seq<IRNode> {
    if at == nodes.len() {
        nodes.push(node)
    } else {
        nodes.update(at, node)
    }
}

/// Putting a node in, new or in place of the node of the same id, keeps
/// the nodes well formed where all that it depends on is there and none of
/// that depends on it.
proof fn lemma_insert_keeps_well_formed(
    nodes: Seq<IRNode>,
    adj: Seq<Vec<usize>>,
    marked: Seq<bool>,
    row: Seq<usize>,
    node: IRNode,
    at: int,
)
    requires
        well_formed(nodes),
        is_adjacency(nodes, adj),
        marked.len() == nodes.len(),
        closed_under(adj, marked),
        holds_starts(marked, row),
        row.len() == node.dependencies@.len(),
        forall|k: int|
            0 <= k < row.len() ==> (#[trigger] row[k]) < nodes.len() && nodes[row[k] as int].id@
                == node.dependencies@[k]@,
        0 <= at <= nodes.len(),
        at < nodes.len() ==> nodes[at].id@ == node.id@ && !marked[at],
        at == nodes.len() ==> !has_id(nodes, node.id@),
    ensures
        well_formed(placed(nodes, at, node)),
{
    let after = placed(nodes, at, node);
    let n = nodes.len() as int;
    let id = node.id@;
    // Ids stay distinct.
    assert forall|i: int, j: int| 0 <= i < j < after.len() implies (#[trigger] after[i]).id@ != (
    #[trigger] after[j]).id@ by {
        if at == n {
            if j == n {
                assert(nodes[i].id@ != id);
            } else {
                assert(nodes[i].id@ != nodes[j].id@);
            }
        } else {
            assert(nodes[i].id@ != nodes[j].id@);
        }
    }
    // Every id that was there is there.
    assert forall|x: Seq<char>| has_id(nodes, x) implies has_id(after, x) by {
        let i = choose|i: int| 0 <= i < nodes.len() && (#[trigger] nodes[i]).id@ == x;
        assert(after[i].id@ == x);
    }
    assert forall|i: int, k: int| is_edge(after, i, k) implies has_id(
        after,
        #[trigger] dependency(after, i, k),
    ) by {
        if i == at {
            assert(nodes[row[k] as int].id@ == node.dependencies@[k]@);
            assert(has_id(nodes, dependency(after, i, k)));
        } else {
            assert(is_edge(nodes, i, k));
            assert(has_id(nodes, dependency(nodes, i, k)));
        }
    }
    // A rank for the nodes as they are now.
    let rank = choose|rank: spec_fn(Seq<char>) -> nat| is_ranking(nodes, rank);
    let bound = rank_bound(nodes, rank);
    let new_rank = rank_after_insert(nodes, marked, rank, id);
    assert forall|v: int| 0 <= v < n && marked[v] implies (#[trigger] nodes[v]).id@ != id by {
        if at < n && v != at {
            if v < at {
                assert(nodes[v].id@ != nodes[at].id@);
            } else {
                assert(nodes[at].id@ != nodes[v].id@);
            }
        }
        if at == n {
            assert(has_id(nodes, nodes[v].id@));
        }
    }
    assert forall|i: int, k: int| is_edge(after, i, k) implies new_rank(
        #[trigger] dependency(after, i, k),
    ) < new_rank(after[i].id@) by {
        let dep = dependency(after, i, k);
        if i == at {
            let v = row[k] as int;
            assert(marked[v]);
            assert(nodes[v].id@ == dep);
            assert(is_marked_id(nodes, marked, dep));
            lemma_rank_bound(nodes, rank, v);
        } else {
            assert(is_edge(nodes, i, k));
            assert(dep == dependency(nodes, i, k));
            assert(rank(dep) < rank(nodes[i].id@));
            let d = adj[i]@[k] as int;
            assert(nodes[d].id@ == dep);
            lemma_rank_bound(nodes, rank, d);
            lemma_rank_bound(nodes, rank, i);
            assert(nodes[i].id@ != id) by {
                if at < n {
                    if i < at {
                        assert(nodes[i].id@ != nodes[at].id@);
                    } else {
                        assert(nodes[at].id@ != nodes[i].id@);
                    }
                } else {
                    assert(has_id(nodes, nodes[i].id@));
                }
            }
            if is_marked_id(nodes, marked, nodes[i].id@) {
                let v = choose|v: int|
                    0 <= v < nodes.len() && marked[v] && (#[trigger] nodes[v]).id@
                        == nodes[i].id@;
                assert(v == i) by {
                    if v < i {
                        assert(nodes[v].id@ != nodes[i].id@);
                    }
                    if i < v {
                        assert(nodes[i].id@ != nodes[v].id@);
                    }
                }
                assert(marked[adj[i]@[k] as int]);
                assert(is_marked_id(nodes, marked, dep));
            }
        }
    }
    assert(is_ranking(after, new_rank));
}

/// Taking out a node that nothing depends on keeps the nodes well formed.
proof fn lemma_remove_keeps_well_formed(nodes: Seq<IRNode>, at: int)
    requires
        well_formed(nodes),
        0 <= at < nodes.len(),
        !has_dependents(nodes, nodes[at].id@),
    ensures
        well_formed(nodes.remove(at)),
{
    let after = nodes.remove(at);
    let was = |i: int| if i < at { i } else { i + 1 };
    assert forall|i: int| 0 <= i < after.len() implies #[trigger] after[i] == nodes[was(i)] by {}
    assert forall|i: int, j: int| 0 <= i < j < after.len() implies (#[trigger] after[i]).id@ != (
    #[trigger] after[j]).id@ by {
        assert(nodes[was(i)].id@ != nodes[was(j)].id@);
    }
    assert forall|i: int, k: int| is_edge(after, i, k) implies has_id(
        after,
        #[trigger] dependency(after, i, k),
    ) by {
        let dep = dependency(after, i, k);
        assert(is_edge(nodes, was(i), k));
        assert(dep == dependency(nodes, was(i), k));
        assert(has_id(nodes, dep));
        let d = choose|d: int| 0 <= d < nodes.len() && (#[trigger] nodes[d]).id@ == dep;
        assert(d != at);
        let moved = if d < at { d } else { d - 1 };
        assert(after[moved].id@ == dep);
    }
    let rank = choose|rank: spec_fn(Seq<char>) -> nat| is_ranking(nodes, rank);
    assert forall|i: int, k: int| is_edge(after, i, k) implies rank(
        #[trigger] dependency(after, i, k),
    ) < rank(after[i].id@) by {
        assert(is_edge(nodes, was(i), k));
        assert(dependency(after, i, k) == dependency(nodes, was(i), k));
    }
    assert(is_ranking(after, rank));
}

/// One of the node's dependencies is not among the nodes.
pub open spec fn lacks_dependency(nodes: Seq<IRNode>, node: IRNode) -> bool {
    exists|k: int|
        0 <= k < node.dependencies@.len() && !has_id(nodes, #[trigger] node.dependencies@[k]@)
}

/// Where, from `k` on, the node's list of dependencies first names a node
/// that is not among the nodes; the length of the list where it never does.
pub open spec fn missing_from(nodes: Seq<IRNode>, node: IRNode, k: int) -> int
    decreases node.dependencies@.len() - k,
{
    if k < 0 || k >= node.dependencies@.len() {
        node.dependencies@.len() as int
    } else if !has_id(nodes, node.dependencies@[k]@) {
        k
    } else {
        missing_from(nodes, node, k + 1)
    }
}

/// What the error about a missing dependency says.
pub open spec fn missing_dependency_message(nodes: Seq<IRNode>, node: IRNode) -> Seq<char> {
    "Invalid graph: "@ + ("Dependency "@ + node.dependencies@[missing_from(nodes, node, 0)]@
        + " not found for node "@ + node.id@)
}

proof fn lemma_missing_from(nodes: Seq<IRNode>, node: IRNode, from: int, k: int)
    requires
        0 <= from <= k < node.dependencies@.len(),
        forall|j: int| from <= j < k ==> has_id(nodes, (#[trigger] node.dependencies@[j])@),
        !has_id(nodes, node.dependencies@[k]@),
    ensures
        missing_from(nodes, node, from) == k,
    decreases k - from,
{
    if from < k {
        assert(has_id(nodes, node.dependencies@[from]@));
        lemma_missing_from(nodes, node, from + 1, k);
    }
}

/// What the error about a node that cannot be removed says.
pub open spec fn blocked_removal_message(id: Seq<char>) -> Seq<char> {
    "Invalid graph: "@ + ("Cannot remove node "@ + id + " - other nodes depend on it"@)
}

/// How many of the first `n` nodes depend on nothing.
pub open spec fn root_total(nodes: Seq<IRNode>, n: nat) -> nat
    decreases n,
{
    if n == 0 {
        0
    } else {
        root_total(nodes, (n - 1) as nat) + if nodes[n - 1].dependencies@.len() == 0 {
            1nat
        } else {
            0nat
        }
    }
}

/// How many of the first `n` nodes nothing depends on.
pub open spec fn leaf_total(nodes: Seq<IRNode>, n: nat) -> nat
    decreases n,
{
    if n == 0 {
        0
    } else {
        leaf_total(nodes, (n - 1) as nat) + if has_dependents(nodes, nodes[n - 1].id@) {
            0nat
        } else {
            1nat
        }
    }
}

/// Something the node depends on depends on the node: adding it would
/// close a cycle.
pub open spec fn closes_cycle(nodes: Seq<IRNode>, node: IRNode) -> bool {
    exists|k: int|
        0 <= k < node.dependencies@.len() && depends_transitively(
            nodes,
            #[trigger] node.dependencies@[k]@,
            node.id@,
        )
}

/// Where the node of the given id stands, or the number of nodes where
/// there is none.
pub open spec fn place_of(nodes: Seq<IRNode>, id: Seq<char>) -> int {
    if has_id(nodes, id) {
        choose|i: int| 0 <= i < nodes.len() && (#[trigger] nodes[i]).id@ == id
    } else {
        nodes.len() as int
    }
}

/// Some node lists `id` among its dependencies.
pub open spec fn has_dependents(nodes: Seq<IRNode>, id: Seq<char>) -> bool {
    exists|i: int, k: int| is_edge(nodes, i, k) && #[trigger] dependency(nodes, i, k) == id
}

pub proof fn lemma_place_of(nodes: Seq<IRNode>, i: int)
    requires
        ids_distinct(nodes),
        0 <= i < nodes.len(),
    ensures
        place_of(nodes, nodes[i].id@) == i,
{
    let p = place_of(nodes, nodes[i].id@);
    if p < i {
        assert(nodes[p].id@ != nodes[i].id@);
    }
    if i < p {
        assert(nodes[i].id@ != nodes[p].id@);
    }
}

/// Looks up every dependency of a node that is to come in.
fn locate_dependencies(nodes: &Vec<IRNode>, node: &IRNode) -> (r: Result<Vec<usize>, usize>)
    ensures
        match r {
            Ok(row) => row@.len() == node.dependencies@.len() && forall|k: int|
                0 <= k < row@.len() ==> (#[trigger] row@[k]) < nodes.len() && nodes@[row@[k] as int].id@
                    == node.dependencies@[k]@,
            Err(k) => k < node.dependencies@.len() && !has_id(nodes@, node.dependencies@[k as int]@)
                && missing_from(nodes@, *node, 0) == k,
        },
{
    let mut row: Vec<usize> = Vec::new();
    let m = node.dependencies.len();
    let mut k: usize = 0;
    while k < m
        invariant
            m == node.dependencies@.len(),
            k <= m,
            row@.len() == k,
            forall|j: int|
                0 <= j < k ==> (#[trigger] row@[j]) < nodes.len() && nodes@[row@[j] as int].id@
                    == node.dependencies@[j]@,
        decreases m - k,
    {
        match find_index(nodes, &node.dependencies[k]) {
            Some(at) => {
                let ghost before = row@;
                row.push(at);
                assert forall|j: int| 0 <= j < k + 1 implies (#[trigger] row@[j]) < nodes.len()
                    && nodes@[row@[j] as int].id@ == node.dependencies@[j]@ by {
                    if j < k {
                        assert(before[j] < nodes.len());
                    }
                }
            },
            None => {
                proof {
                    assert forall|j: int| 0 <= j < k implies has_id(
                        nodes@,
                        (#[trigger] node.dependencies@[j])@,
                    ) by {
                        assert(nodes@[row@[j] as int].id@ == node.dependencies@[j]@);
                    }
                    lemma_missing_from(nodes@, *node, 0, k as int);
                }
                return Err(k);
            },
        }
        k += 1;
    }
    Ok(row)
}

/// The ids of the nodes whose flag is set.
fn select_ids<'a>(nodes: &'a Vec<IRNode>, flags: &Vec<bool>) -> (r: Vec<&'a NodeId>)
    requires
        ids_distinct(nodes@),
        flags@.len() == nodes@.len(),
    ensures
        ref_id_texts(r@).no_duplicates(),
        forall|x: Seq<char>|
            ref_id_texts(r@).contains(x) <==> exists|i: int|
                0 <= i < nodes@.len() && flags@[i] && (#[trigger] nodes@[i]).id@ == x,
{
    let mut picked: Vec<&NodeId> = Vec::new();
    let ghost mut from: Seq<int> = Seq::empty();
    let n = nodes.len();
    let mut i: usize = 0;
    while i < n
        invariant
            n == nodes@.len(),
            flags@.len() == n,
            i <= n,
            ids_distinct(nodes@),
            from.len() == picked@.len(),
            forall|p: int|
                0 <= p < from.len() ==> 0 <= (#[trigger] from[p]) < i && flags@[from[p]]
                    && picked@[p]@ == nodes@[from[p]].id@,
            forall|p: int, q: int| 0 <= p < q < from.len() ==> from[p] < from[q],
            forall|a: int| 0 <= a < i && flags@[a] ==> #[trigger] from.contains(a),
        decreases n - i,
    {
        if flags[i] {
            let ghost before = from;
            picked.push(&nodes[i].id);
            proof {
                from = from.push(i as int);
                assert forall|a: int| 0 <= a < i + 1 && flags@[a] implies #[trigger] from.contains(
                    a,
                ) by {
                    if a < i {
                        assert(before.contains(a));
                        let p = choose|p: int| 0 <= p < before.len() && before[p] == a;
                        assert(from[p] == a);
                    } else {
                        assert(from[before.len() as int] == a);
                    }
                }
            }
        }
        i += 1;
    }
    proof {
        let texts = ref_id_texts(picked@);
        assert forall|p: int, q: int| 0 <= p < texts.len() && 0 <= q < texts.len() && p
            != q implies texts[p] != texts[q] by {
            let (lo, hi) = if p < q { (p, q) } else { (q, p) };
            assert(from[lo] < from[hi]);
            assert(nodes@[from[lo]].id@ != nodes@[from[hi]].id@);
        }
        assert forall|x: Seq<char>| texts.contains(x) <==> exists|a: int|
            0 <= a < nodes@.len() && flags@[a] && (#[trigger] nodes@[a]).id@ == x by {
            if texts.contains(x) {
                let p = choose|p: int| 0 <= p < texts.len() && texts[p] == x;
                assert(nodes@[from[p]].id@ == x);
            }
            if exists|a: int| 0 <= a < nodes@.len() && flags@[a] && (#[trigger] nodes@[a]).id@ == x {
                let a = choose|a: int|
                    0 <= a < nodes@.len() && flags@[a] && (#[trigger] nodes@[a]).id@ == x;
                assert(from.contains(a));
                let p = choose|p: int| 0 <= p < from.len() && from[p] == a;
                assert(texts[p] == x);
            }
        }
    }
    picked
}

/// Whether the node lists `id` among its dependencies.
fn lists_dependency(node: &IRNode, id: &NodeId) -> (r: bool)
    ensures
        r == exists|k: int|
            0 <= k < node.dependencies@.len() && (#[trigger] node.dependencies@[k])@ == id@,
{
    let m = node.dependencies.len();
    let mut k: usize = 0;
    while k < m
        invariant
            m == node.dependencies@.len(),
            k <= m,
            forall|j: int| 0 <= j < k ==> (#[trigger] node.dependencies@[j])@ != id@,
        decreases m - k,
    {
        if node.dependencies[k].same_as(id) {
            return true;
        }
        k += 1;
    }
    false
}

/// A list of `n` flags, none set.
fn cleared_flags(n: usize) -> (flags: Vec<bool>)
    ensures
        flags@.len() == n,
        forall|i: int| 0 <= i < n ==> !(#[trigger] flags@[i]),
{
    let mut flags: Vec<bool> = Vec::new();
    let mut i: usize = 0;
    while i < n
        invariant
            i <= n,
            flags@.len() == i,
            forall|v: int| 0 <= v < i ==> !(#[trigger] flags@[v]),
        decreases n - i,
    {
        flags.push(false);
        i += 1;
    }
    flags
}

/// Checks a list of nodes for what a graph asks of its nodes.
pub fn validate_nodes(nodes: &Vec<IRNode>) -> (r: KernelResult<()>)
    ensures
        match r {
            Ok(()) => well_formed(nodes@),
            Err(e) => !well_formed(nodes@) && e.has_code(ErrorCode::InternalError),
        },
{
    match has_distinct_ids(nodes) {
        Ok(()) => {},
        Err(j) => {
            proof {
                let i = choose|i: int|
                    0 <= i < j < nodes@.len() && nodes@[i].id@ == nodes@[j as int].id@;
                assert(nodes@[i].id@ == nodes@[j as int].id@);
            }
            let what = join2("Duplicate node ", nodes[j].id.as_str());
            return Err(KernelError::invalid_graph(what.as_str()));
        },
    }
    match order_of_distinct(nodes) {
        Some(_) => Ok(()),
        None => Err(
            KernelError::invalid_graph("Graph contains cycles or references missing nodes"),
        ),
    }
}

/// `to` is reached from `from` only by going down in rank.
proof fn lemma_paths_go_down(
    nodes: Seq<IRNode>,
    rank: spec_fn(Seq<char>) -> nat,
    from: Seq<char>,
    to: Seq<char>,
    steps: nat,
)
    requires
        is_ranking(nodes, rank),
        reaches(nodes, from, to, steps),
    ensures
        from == to || rank(to) < rank(from),
    decreases steps,
{
    if from != to {
        let mid = choose|mid: Seq<char>| #[trigger]
            depends_on(nodes, from, mid) && reaches(nodes, mid, to, (steps - 1) as nat);
        let (i, k) = choose|i: int, k: int|
            is_edge(nodes, i, k) && nodes[i].id@ == from && #[trigger] dependency(nodes, i, k)
                == mid;
        lemma_paths_go_down(nodes, rank, mid, to, (steps - 1) as nat);
    }
}

/// Without a cycle, two nodes that depend on each other are one node: each
/// node is a strongly connected component by itself.
pub proof fn lemma_no_mutual_dependency(nodes: Seq<IRNode>, a: Seq<char>, b: Seq<char>)
    requires
        acyclic(nodes),
        depends_transitively(nodes, a, b),
        depends_transitively(nodes, b, a),
    ensures
        a == b,
{
    let rank = choose|rank: spec_fn(Seq<char>) -> nat| is_ranking(nodes, rank);
    let there = choose|steps: nat| reaches(nodes, a, b, steps);
    let back = choose|steps: nat| reaches(nodes, b, a, steps);
    lemma_paths_go_down(nodes, rank, a, b, there);
    lemma_paths_go_down(nodes, rank, b, a, back);
}

/// The two directions of adjacency are one relation read both ways.
pub proof fn lemma_adjacency_transposed(nodes: Seq<IRNode>, a: Seq<char>, b: Seq<char>)
    ensures
        is_dependent_of(nodes, a, b) <==> is_dependency_of(nodes, b, a),
{
}

/// `a` is among the nodes that depend on `b`.
pub open spec fn is_dependent_of(nodes: Seq<IRNode>, a: Seq<char>, b: Seq<char>) -> bool {
    depends_on(nodes, a, b)
}

/// `b` is among the nodes that `a` depends on.
pub open spec fn is_dependency_of(nodes: Seq<IRNode>, b: Seq<char>, a: Seq<char>) -> bool {
    depends_on(nodes, a, b)
}

/// From `from` a chain of `len` dependencies leads down.
pub open spec fn has_chain(nodes: Seq<IRNode>, from: Seq<char>, len: nat) -> bool
    decreases len,
{
    if len == 0 {
        has_id(nodes, from)
    } else {
        exists|mid: Seq<char>| #[trigger]
            depends_on(nodes, from, mid) && has_chain(nodes, mid, (len - 1) as nat)
    }
}

/// `depth` is the length of the longest chain of dependencies that leads
/// down from the node `id`.
pub open spec fn is_depth(nodes: Seq<IRNode>, id: Seq<char>, depth: nat) -> bool {
    &&& has_chain(nodes, id, depth)
    &&& forall|len: nat| #[trigger] has_chain(nodes, id, len) ==> len <= depth
}

/// `depth` is the length of the longest chain of dependencies in the
/// graph: nought where there is no node.
pub open spec fn is_max_depth(nodes: Seq<IRNode>, depth: nat) -> bool {
    &&& nodes.len() == 0 ==> depth == 0
    &&& nodes.len() > 0 ==> exists|i: int|
        0 <= i < nodes.len() && has_chain(nodes, (#[trigger] nodes[i]).id@, depth)
    &&& forall|i: int, len: nat|
        0 <= i < nodes.len() && #[trigger] has_chain(nodes, nodes[i].id@, len) ==> len <= depth
}

/// The length of the longest chain of dependencies in the graph.
pub open spec fn max_depth_of(nodes: Seq<IRNode>) -> nat {
    choose|depth: nat| is_max_depth(nodes, depth)
}

/// There is one greatest depth.
pub proof fn lemma_max_depth_unique(nodes: Seq<IRNode>, depth: nat)
    requires
        is_max_depth(nodes, depth),
    ensures
        max_depth_of(nodes) == depth,
{
    let other = max_depth_of(nodes);
    assert(is_max_depth(nodes, other));
    if nodes.len() > 0 {
        let i = choose|i: int|
            0 <= i < nodes.len() && has_chain(nodes, (#[trigger] nodes[i]).id@, depth);
        let j = choose|j: int|
            0 <= j < nodes.len() && has_chain(nodes, (#[trigger] nodes[j]).id@, other);
        assert(has_chain(nodes, nodes[i].id@, depth));
        assert(has_chain(nodes, nodes[j].id@, other));
    }
}

/// How many of the entries occur for the first time where they stand.
pub open spec fn distinct_count(ids: Seq<Seq<char>>) -> nat
    decreases ids.len(),
{
    if ids.len() == 0 {
        0
    } else {
        distinct_count(ids.drop_last()) + if ids.drop_last().contains(ids.last()) {
            0nat
        } else {
            1nat
        }
    }
}

/// The number of dependencies in the graph, each node's counted once
/// however often the node lists it.
pub open spec fn edge_total(nodes: Seq<IRNode>) -> nat
    decreases nodes.len(),
{
    if nodes.len() == 0 {
        0
    } else {
        edge_total(nodes.drop_last()) + distinct_count(nodes.last().dependency_ids())
    }
}

/// A number as a `usize`, or the greatest `usize` where it does not fit.
pub open spec fn clipped(n: nat) -> usize {
    if n <= usize::MAX {
        n as usize
    } else {
        usize::MAX
    }
}

fn add_clipped(a: usize, b: usize) -> (s: usize)
    ensures
        s == clipped((a + b) as nat),
{
    if a > usize::MAX - b {
        usize::MAX
    } else {
        a + b
    }
}

/// No chain is longer than the depths allow, where every node stands at
/// least one above each of its dependencies.
proof fn lemma_chains_are_bounded(
    nodes: Seq<IRNode>,
    adj: Seq<Vec<usize>>,
    depths: Seq<usize>,
    i: int,
    len: nat,
)
    requires
        ids_distinct(nodes),
        is_adjacency(nodes, adj),
        depths.len() == nodes.len(),
        forall|a: int, k: int|
            0 <= a < nodes.len() && 0 <= k < adj[a]@.len() ==> depths[(
            #[trigger] adj[a]@[k]) as int] + 1 <= depths[a],
        0 <= i < nodes.len(),
        has_chain(nodes, nodes[i].id@, len),
    ensures
        len <= depths[i],
    decreases len,
{
    if len > 0 {
        let mid = choose|mid: Seq<char>| #[trigger]
            depends_on(nodes, nodes[i].id@, mid) && has_chain(nodes, mid, (len - 1) as nat);
        let (a, k) = choose|a: int, k: int|
            is_edge(nodes, a, k) && nodes[a].id@ == nodes[i].id@ && #[trigger] dependency(
                nodes,
                a,
                k,
            ) == mid;
        lemma_place_of(nodes, a);
        lemma_place_of(nodes, i);
        let next = adj[i]@[k] as int;
        assert(nodes[next].id@ == dependency(nodes, i, k));
        lemma_chains_are_bounded(nodes, adj, depths, next, (len - 1) as nat);
    }
}

/// The length of the longest chain of dependencies below each node.
fn node_depths(nodes: &Vec<IRNode>) -> (depths: Vec<usize>)
    requires
        well_formed(nodes@),
    ensures
        depths@.len() == nodes@.len(),
        forall|i: int|
            0 <= i < nodes@.len() ==> is_depth(nodes@, nodes@[i].id@, (#[trigger] depths@[i]) as nat),
{
    let n = nodes.len();
    let adj = match dependency_indices(nodes) {
        Some(adj) => adj,
        None => {
            // Every dependency is among the nodes.
            return Vec::new();
        },
    };
    proof {
        lemma_adjacency_in_bounds(nodes@, adj@);
    }
    let mut done = cleared_flags(n);
    let mut depths: Vec<usize> = Vec::new();
    let mut z: usize = 0;
    while z < n
        invariant
            z <= n,
            depths@.len() == z,
        decreases n - z,
    {
        depths.push(0);
        z += 1;
    }
    let mut count: usize = 0;
    proof {
        lemma_all_unmarked(done@);
    }
    while count < n
        invariant
            n == nodes@.len(),
            well_formed(nodes@),
            is_adjacency(nodes@, adj@),
            in_bounds(adj@),
            done@.len() == n,
            depths@.len() == n,
            count <= n,
            count_unmarked(done@) + count == n,
            forall|a: int| 0 <= a < n && #[trigger] done@[a] ==> depths@[a] < count,
            forall|a: int|
                0 <= a < n && #[trigger] done@[a] ==> has_chain(
                    nodes@,
                    nodes@[a].id@,
                    depths@[a] as nat,
                ),
            forall|a: int, k: int|
                0 <= a < n && done@[a] && 0 <= k < adj@[a]@.len() ==> done@[(
                #[trigger] adj@[a]@[k]) as int] && depths@[adj@[a]@[k] as int] + 1 <= depths@[a],
        decreases n - count,
    {
        let start_count = count;
        let ghost start_done = done@;
        let mut i: usize = 0;
        while i < n
            invariant
                n == nodes@.len(),
                well_formed(nodes@),
                is_adjacency(nodes@, adj@),
                in_bounds(adj@),
                done@.len() == n,
                depths@.len() == n,
                i <= n,
                start_count <= count <= n,
                count_unmarked(done@) + count == n,
                count == start_count ==> done@ == start_done,
                count == start_count ==> forall|a: int|
                    0 <= a < i && !(#[trigger] done@[a]) ==> exists|k: int|
                        0 <= k < adj@[a]@.len() && !done@[(#[trigger] adj@[a]@[k]) as int],
                forall|a: int| 0 <= a < n && #[trigger] done@[a] ==> depths@[a] < count,
                forall|a: int|
                    0 <= a < n && #[trigger] done@[a] ==> has_chain(
                        nodes@,
                        nodes@[a].id@,
                        depths@[a] as nat,
                    ),
                forall|a: int, k: int|
                    0 <= a < n && done@[a] && 0 <= k < adj@[a]@.len() ==> done@[(
                    #[trigger] adj@[a]@[k]) as int] && depths@[adj@[a]@[k] as int] + 1
                        <= depths@[a],
            decreases n - i,
        {
            if !done[i] && all_emitted(&adj[i], &done) {
                // The depth is one more than the greatest depth below.
                let row = &adj[i];
                let m = row.len();
                let mut depth: usize = 0;
                let mut k: usize = 0;
                let ghost mut deepest: int = -1;
                while k < m
                    invariant
                        n == nodes@.len(),
                        i < n,
                        row == adj@[i as int],
                        m == row@.len(),
                        k <= m,
                        done@.len() == n,
                        depths@.len() == n,
                        count <= n,
                        forall|j: int| 0 <= j < m ==> (#[trigger] row@[j]) < n,
                        forall|j: int| 0 <= j < m ==> done@[(#[trigger] row@[j]) as int],
                        forall|a: int| 0 <= a < n && #[trigger] done@[a] ==> depths@[a] < count,
                        depth <= count,
                        forall|j: int|
                            0 <= j < k ==> depths@[(#[trigger] row@[j]) as int] + 1 <= depth,
                        k > 0 ==> 0 <= deepest < k && depth == depths@[row@[deepest] as int] + 1,
                        k == 0 ==> depth == 0,
                    decreases m - k,
                {
                    assert(row@[k as int] < n);
                    assert(done@[row@[k as int] as int]);
                    let below = depths[row[k]];
                    if below + 1 > depth {
                        depth = below + 1;
                        proof {
                            deepest = k as int;
                        }
                    } else if k == 0 {
                        proof {
                            deepest = 0;
                        }
                    }
                    k += 1;
                }
                let ghost flags = done@;
                let ghost before = depths@;
                depths.set(i, depth);
                done.set(i, true);
                proof {
                    lemma_marking_counts(flags, i as int);
                    assert(is_edge(nodes@, i as int, 0) || m == 0);
                    if m > 0 {
                        let d = row@[deepest] as int;
                        assert(is_edge(nodes@, i as int, deepest));
                        assert(nodes@[d].id@ == dependency(nodes@, i as int, deepest));
                        assert(flags[d]);
                        assert(has_chain(nodes@, nodes@[d].id@, before[d] as nat));
                        assert(depends_on(nodes@, nodes@[i as int].id@, nodes@[d].id@));
                        assert(has_chain(nodes@, nodes@[i as int].id@, depth as nat));
                    } else {
                        assert(has_id(nodes@, nodes@[i as int].id@));
                    }
                    assert forall|a: int, j: int|
                        0 <= a < n && done@[a] && 0 <= j < adj@[a]@.len() implies done@[(
                    #[trigger] adj@[a]@[j]) as int] && depths@[adj@[a]@[j] as int] + 1
                        <= depths@[a] by {
                        let to = adj@[a]@[j] as int;
                        if a == i {
                            assert(flags[row@[j] as int]);
                            assert(to != i);
                        } else {
                            assert(flags[to]);
                            assert(to != i);
                        }
                    }
                    assert forall|a: int| 0 <= a < n && #[trigger] done@[a] implies has_chain(
                        nodes@,
                        nodes@[a].id@,
                        depths@[a] as nat,
                    ) by {
                        if a != i {
                            assert(flags[a]);
                        }
                    }
                    assert forall|a: int| 0 <= a < n && #[trigger] done@[a] implies depths@[a]
                        < count + 1 by {
                        if a != i {
                            assert(flags[a]);
                        }
                    }
                }
                count += 1;
            }
            i += 1;
        }
        if count == start_count {
            proof {
                // Some node that is left waits for nothing, so the pass
                // would have taken it.
                let rank = choose|rank: spec_fn(Seq<char>) -> nat| is_ranking(nodes@, rank);
                let left = lemma_some_unmarked(done@);
                let a = lemma_ranked_has_ready(nodes@, adj@, done@, rank, left);
                assert(exists|k: int|
                    0 <= k < adj@[a]@.len() && !done@[(#[trigger] adj@[a]@[k]) as int]);
            }
            return depths;
        }
    }
    proof {
        assert forall|i: int| 0 <= i < nodes@.len() implies is_depth(
            nodes@,
            nodes@[i].id@,
            (#[trigger] depths@[i]) as nat,
        ) by {
            lemma_none_unmarked(done@, i);
            assert forall|a: int, k: int|
                0 <= a < nodes@.len() && 0 <= k < adj@[a]@.len() implies depths@[(
            #[trigger] adj@[a]@[k]) as int] + 1 <= depths@[a] by {
                lemma_none_unmarked(done@, a);
            }
            assert forall|len: nat| #[trigger]
                has_chain(nodes@, nodes@[i].id@, len) implies len <= depths@[i] by {
                lemma_chains_are_bounded(nodes@, adj@, depths@, i, len);
            }
        }
    }
    depths
}

/// Counts of a graph.
#[derive(Debug, Clone, Copy, PartialEq, Eq)]
pub struct GraphStats {
    pub node_count: usize,
    /// The number of dependencies; the greatest `usize` where there are
    /// more.
    pub edge_count: usize,
    pub root_count: usize,
    pub leaf_count: usize,
    pub max_depth: usize,
}

/// How many of a node's dependencies occur in its list for the first time
/// where they stand.
fn distinct_dependencies(node: &IRNode) -> (count: usize)
    ensures
        count == distinct_count(node.dependency_ids()),
{
    let ghost ids = node.dependency_ids();
    let m = node.dependencies.len();
    let mut count: usize = 0;
    let mut k: usize = 0;
    assert(ids.take(0) =~= Seq::<Seq<char>>::empty());
    while k < m
        invariant
            m == node.dependencies@.len(),
            ids == node.dependency_ids(),
            k <= m,
            count <= k,
            count == distinct_count(ids.take(k as int)),
        decreases m - k,
    {
        let mut seen = false;
        let mut j: usize = 0;
        while j < k
            invariant
                m == node.dependencies@.len(),
                ids == node.dependency_ids(),
                k < m,
                j <= k,
                seen <==> exists|a: int| 0 <= a < j && ids[a] == ids[k as int],
            decreases k - j,
        {
            if node.dependencies[j].same_as(&node.dependencies[k]) {
                assert(ids[j as int] == ids[k as int]);
                seen = true;
            }
            j += 1;
        }
        proof {
            assert(ids.take(k + 1).drop_last() == ids.take(k as int));
            assert(ids.take(k + 1).last() == ids[k as int]);
            if seen {
                let a = choose|a: int| 0 <= a < k && ids[a] == ids[k as int];
                assert(ids.take(k as int)[a] == ids[k as int]);
            } else {
                assert forall|a: int| 0 <= a < ids.take(k as int).len() implies ids.take(
                    k as int,
                )[a] != ids[k as int] by {
                    assert(ids[a] != ids[k as int]);
                }
            }
        }
        if !seen {
            count += 1;
        }
        k += 1;
    }
    assert(ids.take(m as int) == ids);
    count
}

/// The node `id` is one of the requested nodes or something that one of
/// them depends on.
pub open spec fn is_wanted(nodes: Seq<IRNode>, requested: Seq<Seq<char>>, id: Seq<char>) -> bool {
    exists|r: int|
        0 <= r < requested.len() && depends_transitively(nodes, #[trigger] requested[r], id)
}

/// Of the first `n` nodes, those that are wanted, in their order.
pub open spec fn wanted_nodes(nodes: Seq<IRNode>, requested: Seq<Seq<char>>, n: nat) -> Seq<
    NodeData,
>
    decreases n,
{
    if n == 0 {
        Seq::empty()
    } else {
        let rest = wanted_nodes(nodes, requested, (n - 1) as nat);
        if is_wanted(nodes, requested, nodes[n - 1].id@) {
            rest.push(nodes[n - 1]@)
        } else {
            rest
        }
    }
}

/// What a sequence of nodes holds.
pub open spec fn node_views(nodes: Seq<IRNode>) -> Seq<NodeData> {
    Seq::new(nodes.len(), |i: int| nodes[i]@)
}

/// Nodes picked from well-formed nodes are well formed where, with a
/// node, all that it depends on is picked.
proof fn lemma_picked_is_well_formed(
    nodes: Seq<IRNode>,
    adj: Seq<Vec<usize>>,
    marked: Seq<bool>,
    picked: Seq<IRNode>,
    from: Seq<int>,
)
    requires
        well_formed(nodes),
        is_adjacency(nodes, adj),
        marked.len() == nodes.len(),
        closed_under(adj, marked),
        from.len() == picked.len(),
        forall|p: int|
            0 <= p < from.len() ==> 0 <= (#[trigger] from[p]) < nodes.len() && marked[from[p]]
                && picked[p]@ == nodes[from[p]]@,
        forall|p: int, q: int| 0 <= p < q < from.len() ==> from[p] < from[q],
        forall|a: int| 0 <= a < nodes.len() && marked[a] ==> #[trigger] from.contains(a),
    ensures
        well_formed(picked),
{
    assert forall|p: int, q: int| 0 <= p < q < picked.len() implies (#[trigger] picked[p]).id@ != (
    #[trigger] picked[q]).id@ by {
        assert(from[p] < from[q]);
        assert(picked[p]@ == nodes[from[p]]@);
        assert(picked[q]@ == nodes[from[q]]@);
        assert(nodes[from[p]].id@ != nodes[from[q]].id@);
    }
    assert forall|p: int, k: int| is_edge(picked, p, k) implies has_id(
        picked,
        #[trigger] dependency(picked, p, k),
    ) by {
        let a = from[p];
        assert(picked[p]@ == nodes[a]@);
        assert(id_texts(picked[p].dependencies@).len() == id_texts(nodes[a].dependencies@).len());
        assert(id_texts(picked[p].dependencies@)[k] == id_texts(nodes[a].dependencies@)[k]);
        assert(is_edge(nodes, a, k));
        let d = adj[a]@[k] as int;
        assert(nodes[d].id@ == dependency(nodes, a, k));
        assert(marked[d]);
        assert(from.contains(d));
        let q = choose|q: int| 0 <= q < from.len() && from[q] == d;
        assert(picked[q]@ == nodes[from[q]]@);
        assert(picked[q].id@ == dependency(picked, p, k));
    }
    let rank = choose|rank: spec_fn(Seq<char>) -> nat| is_ranking(nodes, rank);
    assert forall|p: int, k: int| is_edge(picked, p, k) implies rank(
        #[trigger] dependency(picked, p, k),
    ) < rank(picked[p].id@) by {
        let a = from[p];
        assert(picked[p]@ == nodes[a]@);
        assert(id_texts(picked[p].dependencies@).len() == id_texts(nodes[a].dependencies@).len());
        assert(id_texts(picked[p].dependencies@)[k] == id_texts(nodes[a].dependencies@)[k]);
        assert(is_edge(nodes, from[p], k));
        assert(rank(dependency(nodes, from[p], k)) < rank(nodes[from[p]].id@));
    }
    assert(is_ranking(picked, rank));
}

/// The dependency graph of a design.
#[derive(Debug)]
pub struct IRGraph {
    nodes: Vec<IRNode>,
    cached_order: Option<Vec<NodeId>>,
}

impl View for IRGraph {
    type V = Seq<IRNode>;

    /// The nodes in the order in which their ids first came in.
    closed spec fn view(&self) -> Seq<IRNode> {
        self.nodes@
    }
}

impl IRGraph {
    #[verifier::type_invariant]
    pub closed spec fn is_consistent(&self) -> bool {
        &&& well_formed(self.nodes@)
        &&& self.cached_order matches Some(order) ==> is_evaluation_order(
            self.nodes@,
            id_texts(order@),
        )
    }

    /// A graph without nodes.
    pub fn new() -> (g: Self)
        ensures
            g@ == Seq::<IRNode>::empty(),
    {
        let nodes: Vec<IRNode> = Vec::new();
        proof {
            let rank = |id: Seq<char>| 0nat;
            assert(is_ranking(nodes@, rank));
        }
        IRGraph { nodes, cached_order: None }
    }

    /// The nodes. They are well formed: ids are distinct, every dependency
    /// is among them, and there is no cycle.
    pub fn nodes(&self) -> (nodes: &Vec<IRNode>)
        ensures
            nodes@ == self@,
            well_formed(self@),
    {
        proof {
            use_type_invariant(self);
        }
        &self.nodes
    }

    /// The node of the given id.
    pub fn get_node(&self, node_id: &NodeId) -> (r: Option<&IRNode>)
        ensures
            match r {
                Some(node) => has_id(self@, node_id@) && *node == self@[place_of(
                    self@,
                    node_id@,
                )] && node.id@ == node_id@,
                None => !has_id(self@, node_id@),
            },
    {
        proof {
            use_type_invariant(self);
        }
        match find_index(&self.nodes, node_id) {
            Some(i) => {
                proof {
                    lemma_place_of(self.nodes@, i as int);
                }
                Some(&self.nodes[i])
            },
            None => None,
        }
    }

    /// Adds a node, or puts it in the place of the node of the same id.
    ///
    /// The node is refused, and the graph left as it was, where one of its
    /// dependencies is not in the graph, or where one of them depends on
    /// the node, so that the node would close a cycle.
    pub fn add_node(&mut self, node: IRNode) -> (r: KernelResult<()>)
        ensures
            match r {
                Ok(()) => {
                    &&& !lacks_dependency(old(self)@, node)
                    &&& !closes_cycle(old(self)@, node)
                    &&& final(self)@ == placed(old(self)@, place_of(old(self)@, node.id@), node)
                },
                Err(e) => {
                    &&& *final(self) == *old(self)
                    &&& if lacks_dependency(old(self)@, node) {
                        e.is_plain(
                            ErrorCode::InternalError,
                            missing_dependency_message(old(self)@, node),
                        )
                    } else {
                        closes_cycle(old(self)@, node) && e.is_plain(
                            ErrorCode::CircularReference,
                            "Circular reference detected involving: "@ + node.id@,
                        )
                    }
                },
            },
    {
        proof {
            use_type_invariant(&*self);
        }
        let ghost nodes = self.nodes@;
        let row = match locate_dependencies(&self.nodes, &node) {
            Ok(row) => row,
            Err(k) => {
                let mut what = join3(
                    "Dependency ",
                    node.dependencies[k].as_str(),
                    " not found for node ",
                );
                what.append(node.id.as_str());
                return Err(KernelError::invalid_graph(what.as_str()));
            },
        };
        proof {
            assert forall|k: int| 0 <= k < node.dependencies@.len() implies has_id(
                nodes,
                #[trigger] node.dependencies@[k]@,
            ) by {
                assert(nodes[row@[k] as int].id@ == node.dependencies@[k]@);
            }
        }
        let adj = match dependency_indices(&self.nodes) {
            Some(adj) => adj,
            None => {
                return Err(KernelError::invalid_graph("Dependency not found"));
            },
        };
        proof {
            lemma_adjacency_in_bounds(nodes, adj@);
        }
        let marked = mark_dependencies(&adj, &row);
        let target = find_index(&self.nodes, &node.id);
        let cyclic = match target {
            Some(t) => marked[t],
            None => false,
        };
        if cyclic {
            proof {
                let t = target->0 as int;
                let (s, steps) = choose|s: int, steps: nat|
                    0 <= s < row@.len() && #[trigger] index_reaches(
                        adj@,
                        row@[s] as int,
                        t,
                        steps,
                    );
                assert(row@[s] < nodes.len());
                lemma_index_path_is_path(nodes, adj@, row@[s] as int, t, steps);
                assert(reaches(nodes, node.dependencies@[s]@, node.id@, steps));
                assert(depends_transitively(nodes, node.dependencies@[s]@, node.id@));
            }
            return Err(KernelError::circular_reference(node.id.as_str()));
        }
        let at = match target {
            Some(t) => t,
            None => self.nodes.len(),
        };
        proof {
            if target is Some {
                lemma_place_of(nodes, at as int);
            }
            // Nothing the node depends on depends on the node.
            if closes_cycle(nodes, node) {
                let k = choose|k: int|
                    0 <= k < node.dependencies@.len() && depends_transitively(
                        nodes,
                        #[trigger] node.dependencies@[k]@,
                        node.id@,
                    );
                let steps = choose|steps: nat|
                    reaches(nodes, node.dependencies@[k]@, node.id@, steps);
                let from = row@[k] as int;
                assert(row@[k] < nodes.len());
                let j = lemma_path_is_index_path(nodes, adj@, from, node.id@, steps);
                assert(marked@[from]);
                lemma_closed_holds_reached(adj@, marked@, from, j, steps);
                if target is Some {
                    lemma_place_of(nodes, j);
                }
            }
            lemma_insert_keeps_well_formed(nodes, adj@, marked@, row@, node, at as int);
        }
        let mut taken = IRGraph::new();
        core::mem::swap(self, &mut taken);
        let IRGraph { nodes: mut list, cached_order: _ } = taken;
        if at < list.len() {
            list.set(at, node);
        } else {
            list.push(node);
        }
        *self = IRGraph { nodes: list, cached_order: None };
        Ok(())
    }

    /// Whether some node lists `id` among its dependencies.
    fn any_depends_on(&self, id: &NodeId) -> (r: bool)
        ensures
            r == has_dependents(self@, id@),
    {
        let n = self.nodes.len();
        let mut i: usize = 0;
        while i < n
            invariant
                n == self.nodes@.len(),
                i <= n,
                forall|a: int, k: int|
                    0 <= a < i && 0 <= k < self.nodes@[a].dependencies@.len()
                        ==> #[trigger] dependency(self.nodes@, a, k) != id@,
            decreases n - i,
        {
            let node = &self.nodes[i];
            let m = node.dependencies.len();
            let mut k: usize = 0;
            while k < m
                invariant
                    i < n,
                    n == self.nodes@.len(),
                    node == self.nodes@[i as int],
                    m == node.dependencies@.len(),
                    k <= m,
                    forall|j: int| 0 <= j < k ==> #[trigger] dependency(self.nodes@, i as int, j) != id@,
                decreases m - k,
            {
                if node.dependencies[k].same_as(id) {
                    assert(is_edge(self.nodes@, i as int, k as int));
                    assert(dependency(self.nodes@, i as int, k as int) == id@);
                    return true;
                }
                k += 1;
            }
            i += 1;
        }
        false
    }

    /// Takes a node out. A node that another depends on stays, and so
    /// does the graph as it was.
    pub fn remove_node(&mut self, node_id: &NodeId) -> (r: KernelResult<()>)
        ensures
            match r {
                Ok(()) => {
                    &&& has_id(old(self)@, node_id@)
                    &&& !has_dependents(old(self)@, node_id@)
                    &&& final(self)@ == old(self)@.remove(place_of(old(self)@, node_id@))
                },
                Err(e) => {
                    &&& *final(self) == *old(self)
                    &&& if has_id(old(self)@, node_id@) {
                        has_dependents(old(self)@, node_id@) && e.is_plain(
                            ErrorCode::InternalError,
                            blocked_removal_message(node_id@),
                        )
                    } else {
                        e.is_plain(ErrorCode::InternalError, "Node not found: "@ + node_id@)
                    }
                },
            },
    {
        proof {
            use_type_invariant(&*self);
        }
        let at = match find_index(&self.nodes, node_id) {
            Some(at) => at,
            None => {
                return Err(KernelError::node_not_found(node_id.as_str()));
            },
        };
        if self.any_depends_on(node_id) {
            let what = join3(
                "Cannot remove node ",
                node_id.as_str(),
                " - other nodes depend on it",
            );
            return Err(KernelError::invalid_graph(what.as_str()));
        }
        proof {
            lemma_place_of(self.nodes@, at as int);
            lemma_remove_keeps_well_formed(self.nodes@, at as int);
        }
        let mut taken = IRGraph::new();
        core::mem::swap(self, &mut taken);
        let IRGraph { nodes: mut list, cached_order: _ } = taken;
        list.remove(at);
        *self = IRGraph { nodes: list, cached_order: None };
        Ok(())
    }

    /// The order in which to evaluate the nodes: every node after all it
    /// depends on; among nodes that could come next, first by the priority
    /// of their type, then by id. The order is kept until the graph changes.
    pub fn topological_order(&mut self) -> (r: KernelResult<Vec<NodeId>>)
        ensures
            final(self)@ == old(self)@,
            r matches Ok(order) && is_evaluation_order(old(self)@, id_texts(order@)),
    {
        proof {
            use_type_invariant(&*self);
        }
        match &self.cached_order {
            Some(order) => {
                let copy = order.clone();
                assert(id_texts(copy@) =~= id_texts(order@));
                return Ok(copy);
            },
            None => {},
        }
        let order = self.compute_topological_order()?;
        let copy = order.clone();
        assert(id_texts(copy@) =~= id_texts(order@));
        self.cached_order = Some(order);
        Ok(copy)
    }

    /// The nodes that depend on the given node, each once.
    pub fn get_dependents(&self, node_id: &NodeId) -> (r: Vec<&NodeId>)
        ensures
            ref_id_texts(r@).no_duplicates(),
            forall|x: Seq<char>|
                ref_id_texts(r@).contains(x) <==> is_dependent_of(self@, x, node_id@),
    {
        proof {
            use_type_invariant(self);
        }
        let n = self.nodes.len();
        let mut flags: Vec<bool> = Vec::new();
        let mut i: usize = 0;
        while i < n
            invariant
                n == self.nodes@.len(),
                i <= n,
                flags@.len() == i,
                forall|a: int|
                    0 <= a < i ==> (#[trigger] flags@[a] <==> exists|k: int|
                        0 <= k < self.nodes@[a].dependencies@.len() && (
                        #[trigger] self.nodes@[a].dependencies@[k])@ == node_id@),
            decreases n - i,
        {
            flags.push(lists_dependency(&self.nodes[i], node_id));
            i += 1;
        }
        let r = select_ids(&self.nodes, &flags);
        proof {
            assert forall|x: Seq<char>| ref_id_texts(r@).contains(x) <==> depends_on(
                self@,
                x,
                node_id@,
            ) by {
                if ref_id_texts(r@).contains(x) {
                    let a = choose|a: int|
                        0 <= a < self.nodes@.len() && flags@[a] && (#[trigger] self.nodes@[a]).id@
                            == x;
                    let k = choose|k: int|
                        0 <= k < self.nodes@[a].dependencies@.len() && (
                        #[trigger] self.nodes@[a].dependencies@[k])@ == node_id@;
                    assert(is_edge(self.nodes@, a, k));
                    assert(dependency(self.nodes@, a, k) == node_id@);
                }
                if depends_on(self@, x, node_id@) {
                    let (a, k) = choose|a: int, k: int|
                        is_edge(self.nodes@, a, k) && self.nodes@[a].id@ == x
                            && #[trigger] dependency(self.nodes@, a, k) == node_id@;
                    assert(self.nodes@[a].dependencies@[k]@ == node_id@);
                    assert(flags@[a]);
                }
            }
        }
        r
    }

    /// The nodes that the given node depends on, each once.
    pub fn get_dependencies(&self, node_id: &NodeId) -> (r: Vec<&NodeId>)
        ensures
            ref_id_texts(r@).no_duplicates(),
            forall|x: Seq<char>|
                ref_id_texts(r@).contains(x) <==> is_dependency_of(self@, x, node_id@),
    {
        proof {
            use_type_invariant(self);
        }
        let n = self.nodes.len();
        let mut flags = cleared_flags(n);
        match find_index(&self.nodes, node_id) {
            Some(at) => {
                let node = &self.nodes[at];
                let m = node.dependencies.len();
                let mut k: usize = 0;
                while k < m
                    invariant
                        n == self.nodes@.len(),
                        at < n,
                        node == self.nodes@[at as int],
                        m == node.dependencies@.len(),
                        k <= m,
                        flags@.len() == n,
                        dependencies_present(self.nodes@),
                        ids_distinct(self.nodes@),
                        forall|a: int|
                            0 <= a < n ==> (#[trigger] flags@[a] <==> exists|j: int|
                                0 <= j < k && (#[trigger] node.dependencies@[j])@
                                    == self.nodes@[a].id@),
                    decreases m - k,
                {
                    let ghost before = flags@;
                    assert(is_edge(self.nodes@, at as int, k as int));
                    assert(has_id(self.nodes@, dependency(self.nodes@, at as int, k as int)));
                    match find_index(&self.nodes, &node.dependencies[k]) {
                        Some(d) => {
                            flags.set(d, true);
                            proof {
                                assert forall|a: int| 0 <= a < n implies (#[trigger] flags@[a]
                                    <==> exists|j: int|
                                    0 <= j < k + 1 && (#[trigger] node.dependencies@[j])@
                                        == self.nodes@[a].id@) by {
                                    if a == d {
                                        assert(node.dependencies@[k as int]@
                                            == self.nodes@[a].id@);
                                    } else {
                                        if before[a] {
                                            let j = choose|j: int|
                                                0 <= j < k && (#[trigger] node.dependencies@[j])@
                                                    == self.nodes@[a].id@;
                                            assert(node.dependencies@[j]@ == self.nodes@[a].id@);
                                        }
                                        if exists|j: int|
                                            0 <= j < k + 1 && (#[trigger] node.dependencies@[j])@
                                                == self.nodes@[a].id@ {
                                            let j = choose|j: int|
                                                0 <= j < k + 1 && (
                                                #[trigger] node.dependencies@[j])@
                                                    == self.nodes@[a].id@;
                                            if j == k {
                                                lemma_place_of(self.nodes@, a);
                                                lemma_place_of(self.nodes@, d as int);
                                            }
                                        }
                                    }
                                }
                            }
                        },
                        None => {},
                    }
                    k += 1;
                }
                let r = select_ids(&self.nodes, &flags);
                proof {
                    lemma_place_of(self.nodes@, at as int);
                    assert forall|x: Seq<char>| ref_id_texts(r@).contains(x) <==> depends_on(
                        self@,
                        node_id@,
                        x,
                    ) by {
                        if ref_id_texts(r@).contains(x) {
                            let a = choose|a: int|
                                0 <= a < self.nodes@.len() && flags@[a] && (
                                #[trigger] self.nodes@[a]).id@ == x;
                            let j = choose|j: int|
                                0 <= j < m && (#[trigger] node.dependencies@[j])@
                                    == self.nodes@[a].id@;
                            assert(is_edge(self.nodes@, at as int, j));
                            assert(dependency(self.nodes@, at as int, j) == x);
                        }
                        if depends_on(self@, node_id@, x) {
                            let (a, j) = choose|a: int, j: int|
                                is_edge(self.nodes@, a, j) && self.nodes@[a].id@ == node_id@
                                    && #[trigger] dependency(self.nodes@, a, j) == x;
                            lemma_place_of(self.nodes@, a);
                            assert(has_id(self.nodes@, x));
                            let d = choose|d: int|
                                0 <= d < self.nodes@.len() && (#[trigger] self.nodes@[d]).id@ == x;
                            assert(node.dependencies@[j]@ == self.nodes@[d].id@);
                            assert(flags@[d]);
                        }
                    }
                }
                r
            },
            None => {
                let r = select_ids(&self.nodes, &flags);
                proof {
                    assert forall|x: Seq<char>| ref_id_texts(r@).contains(x) <==> depends_on(
                        self@,
                        node_id@,
                        x,
                    ) by {
                        if depends_on(self@, node_id@, x) {
                            let (a, j) = choose|a: int, j: int|
                                is_edge(self.nodes@, a, j) && self.nodes@[a].id@ == node_id@
                                    && #[trigger] dependency(self.nodes@, a, j) == x;
                            assert(has_id(self.nodes@, node_id@));
                        }
                    }
                }
                r
            },
        }
    }

    /// The nodes that depend on nothing.
    pub fn get_root_nodes(&self) -> (r: Vec<&NodeId>)
        ensures
            ref_id_texts(r@).no_duplicates(),
            forall|x: Seq<char>|
                ref_id_texts(r@).contains(x) <==> has_id(self@, x) && !exists|y: Seq<char>|
                    depends_on(self@, x, y),
    {
        proof {
            use_type_invariant(self);
        }
        let n = self.nodes.len();
        let mut flags: Vec<bool> = Vec::new();
        let mut i: usize = 0;
        while i < n
            invariant
                n == self.nodes@.len(),
                i <= n,
                flags@.len() == i,
                forall|a: int|
                    0 <= a < i ==> (#[trigger] flags@[a] <==> self.nodes@[a].dependencies@.len()
                        == 0),
            decreases n - i,
        {
            flags.push(self.nodes[i].dependencies.len() == 0);
            i += 1;
        }
        let r = select_ids(&self.nodes, &flags);
        proof {
            assert forall|x: Seq<char>| ref_id_texts(r@).contains(x) <==> has_id(self@, x)
                && !exists|y: Seq<char>| depends_on(self@, x, y) by {
                if ref_id_texts(r@).contains(x) {
                    let a = choose|a: int|
                        0 <= a < self.nodes@.len() && flags@[a] && (#[trigger] self.nodes@[a]).id@
                            == x;
                    if exists|y: Seq<char>| depends_on(self@, x, y) {
                        let y = choose|y: Seq<char>| depends_on(self@, x, y);
                        let (b, k) = choose|b: int, k: int|
                            is_edge(self.nodes@, b, k) && self.nodes@[b].id@ == x
                                && #[trigger] dependency(self.nodes@, b, k) == y;
                        lemma_place_of(self.nodes@, a);
                        lemma_place_of(self.nodes@, b);
                    }
                }
                if has_id(self@, x) && !exists|y: Seq<char>| depends_on(self@, x, y) {
                    let a = choose|a: int|
                        0 <= a < self.nodes@.len() && (#[trigger] self.nodes@[a]).id@ == x;
                    if self.nodes@[a].dependencies@.len() > 0 {
                        assert(is_edge(self.nodes@, a, 0));
                        assert(depends_on(self@, x, dependency(self.nodes@, a, 0)));
                    }
                    assert(flags@[a]);
                }
            }
        }
        r
    }

    /// The nodes that nothing depends on.
    pub fn get_leaf_nodes(&self) -> (r: Vec<&NodeId>)
        ensures
            ref_id_texts(r@).no_duplicates(),
            forall|x: Seq<char>|
                ref_id_texts(r@).contains(x) <==> has_id(self@, x) && !has_dependents(self@, x),
    {
        proof {
            use_type_invariant(self);
        }
        let n = self.nodes.len();
        let mut flags: Vec<bool> = Vec::new();
        let mut i: usize = 0;
        while i < n
            invariant
                n == self.nodes@.len(),
                i <= n,
                flags@.len() == i,
                forall|a: int|
                    0 <= a < i ==> (#[trigger] flags@[a] <==> !has_dependents(
                        self@,
                        self.nodes@[a].id@,
                    )),
            decreases n - i,
        {
            flags.push(!self.any_depends_on(&self.nodes[i].id));
            i += 1;
        }
        let r = select_ids(&self.nodes, &flags);
        proof {
            assert forall|x: Seq<char>| ref_id_texts(r@).contains(x) <==> has_id(self@, x)
                && !has_dependents(self@, x) by {
                if has_id(self@, x) && !has_dependents(self@, x) {
                    let a = choose|a: int|
                        0 <= a < self.nodes@.len() && (#[trigger] self.nodes@[a]).id@ == x;
                    assert(flags@[a]);
                }
            }
        }
        r
    }

    /// Checks the graph against what holds of every graph: the ids of its
    /// nodes are distinct, every dependency is among them, and there is no
    /// cycle. A graph cannot be brought into a state that fails the check.
    pub fn validate(&self) -> (r: KernelResult<()>)
        ensures
            r is Ok,
            well_formed(self@),
    {
        proof {
            use_type_invariant(self);
        }
        validate_nodes(&self.nodes)
    }

    /// The strongly connected components of the dependency relation. As a
    /// graph has no cycle, each node is a component by itself.
    pub fn strongly_connected_components(&self) -> (r: Vec<Vec<NodeId>>)
        ensures
            r@.len() == self@.len(),
            forall|i: int|
                0 <= i < r@.len() ==> (#[trigger] r@[i])@.len() == 1 && r@[i]@[0]@
                    == self@[i].id@,
    {
        let n = self.nodes.len();
        let mut components: Vec<Vec<NodeId>> = Vec::new();
        let mut i: usize = 0;
        while i < n
            invariant
                n == self.nodes@.len(),
                i <= n,
                components@.len() == i,
                forall|a: int|
                    0 <= a < i ==> (#[trigger] components@[a])@.len() == 1
                        && components@[a]@[0]@ == self.nodes@[a].id@,
            decreases n - i,
        {
            let mut component: Vec<NodeId> = Vec::new();
            component.push(self.nodes[i].id.clone());
            components.push(component);
            i += 1;
        }
        components
    }

    /// The part of the graph that the given nodes need: the nodes
    /// themselves and all that they depend on, in the order in which they
    /// stand in this graph. An id that names no node asks for nothing.
    pub fn subgraph(&self, node_ids: &[NodeId]) -> (r: KernelResult<IRGraph>)
        ensures
            r matches Ok(sub) && node_views(sub@) == wanted_nodes(
                self@,
                id_texts(node_ids@),
                self@.len(),
            ),
    {
        proof {
            use_type_invariant(self);
        }
        let ghost nodes = self.nodes@;
        let ghost requested = id_texts(node_ids@);
        let adj = match dependency_indices(&self.nodes) {
            Some(adj) => adj,
            None => {
                return Err(KernelError::invalid_graph("Dependency not found"));
            },
        };
        proof {
            lemma_adjacency_in_bounds(nodes, adj@);
        }
        // Where the requested nodes stand.
        let mut starts: Vec<usize> = Vec::new();
        let m = node_ids.len();
        let mut r: usize = 0;
        while r < m
            invariant
                m == node_ids@.len(),
                nodes == self.nodes@,
                well_formed(nodes),
                requested == id_texts(node_ids@),
                r <= m,
                forall|s: int|
                    0 <= s < starts@.len() ==> (#[trigger] starts@[s]) < nodes.len() && exists|
                        q: int,
                    |
                        0 <= q < r && #[trigger] requested[q] == nodes[starts@[s] as int].id@,
                forall|q: int, a: int|
                    0 <= q < r && 0 <= a < nodes.len() && #[trigger] requested[q] == (
                    #[trigger] nodes[a]).id@ ==> exists|s: int|
                        0 <= s < starts@.len() && #[trigger] starts@[s] == a,
            decreases m - r,
        {
            let ghost before = starts@;
            match find_index(&self.nodes, &node_ids[r]) {
                Some(at) => {
                    starts.push(at);
                    proof {
                        assert(requested[r as int] == nodes[at as int].id@);
                        assert forall|s: int| 0 <= s < starts@.len() implies (
                        #[trigger] starts@[s]) < nodes.len() && exists|q: int|
                            0 <= q < r + 1 && #[trigger] requested[q]
                                == nodes[starts@[s] as int].id@ by {
                            if s < before.len() {
                                assert(before[s] < nodes.len());
                                let q = choose|q: int|
                                    0 <= q < r && #[trigger] requested[q]
                                        == nodes[before[s] as int].id@;
                                assert(requested[q] == nodes[starts@[s] as int].id@);
                            }
                        }
                        assert forall|q: int, a: int|
                            0 <= q < r + 1 && 0 <= a < nodes.len() && #[trigger] requested[q] == (
                            #[trigger] nodes[a]).id@ implies exists|s: int|
                            0 <= s < starts@.len() && #[trigger] starts@[s] == a by {
                            if q < r {
                                let s = choose|s: int|
                                    0 <= s < before.len() && #[trigger] before[s] == a;
                                assert(starts@[s] == a);
                            } else {
                                lemma_place_of(nodes, a);
                                lemma_place_of(nodes, at as int);
                                assert(starts@[before.len() as int] == a);
                            }
                        }
                    }
                },
                None => {
                    proof {
                        assert forall|q: int, a: int|
                            0 <= q < r + 1 && 0 <= a < nodes.len() && #[trigger] requested[q] == (
                            #[trigger] nodes[a]).id@ implies exists|s: int|
                            0 <= s < starts@.len() && #[trigger] starts@[s] == a by {
                            if q < r {
                                let s = choose|s: int|
                                    0 <= s < before.len() && #[trigger] before[s] == a;
                                assert(starts@[s] == a);
                            }
                        }
                    }
                },
            }
            r += 1;
        }
        let marked = mark_dependencies(&adj, &starts);
        proof {
            // A node is marked exactly where it is wanted.
            assert forall|i: int| 0 <= i < nodes.len() implies (#[trigger] marked@[i]
                <==> is_wanted(nodes, requested, nodes[i].id@)) by {
                if marked@[i] {
                    let (s, steps) = choose|s: int, steps: nat|
                        0 <= s < starts@.len() && #[trigger] index_reaches(
                            adj@,
                            starts@[s] as int,
                            i,
                            steps,
                        );
                    assert(starts@[s] < nodes.len());
                    lemma_index_path_is_path(nodes, adj@, starts@[s] as int, i, steps);
                    let q = choose|q: int|
                        0 <= q < m && #[trigger] requested[q] == nodes[starts@[s] as int].id@;
                    assert(depends_transitively(nodes, requested[q], nodes[i].id@));
                }
                if is_wanted(nodes, requested, nodes[i].id@) {
                    let q = choose|q: int|
                        0 <= q < requested.len() && depends_transitively(
                            nodes,
                            #[trigger] requested[q],
                            nodes[i].id@,
                        );
                    let steps = choose|steps: nat|
                        reaches(nodes, requested[q], nodes[i].id@, steps);
                    if has_id(nodes, requested[q]) {
                        let a = choose|a: int|
                            0 <= a < nodes.len() && (#[trigger] nodes[a]).id@ == requested[q];
                        let s = choose|s: int| 0 <= s < starts@.len() && #[trigger] starts@[s] == a;
                        let j = lemma_path_is_index_path(nodes, adj@, a, nodes[i].id@, steps);
                        lemma_place_of(nodes, j);
                        lemma_place_of(nodes, i);
                        assert(marked@[starts@[s] as int]);
                        lemma_closed_holds_reached(adj@, marked@, a, i, steps);
                    } else {
                        // What is not in the graph depends on nothing.
                        assert(requested[q] != nodes[i].id@);
                        let mid = choose|mid: Seq<char>| #[trigger]
                            depends_on(nodes, requested[q], mid) && reaches(
                                nodes,
                                mid,
                                nodes[i].id@,
                                (steps - 1) as nat,
                            );
                        let (a, k) = choose|a: int, k: int|
                            is_edge(nodes, a, k) && nodes[a].id@ == requested[q]
                                && #[trigger] dependency(nodes, a, k) == mid;
                        assert(has_id(nodes, nodes[a].id@));
                    }
                }
            }
        }
        let mut picked: Vec<IRNode> = Vec::new();
        let ghost mut from: Seq<int> = Seq::empty();
        let n = self.nodes.len();
        let mut i: usize = 0;
        assert(node_views(picked@) =~= wanted_nodes(nodes, requested, 0));
        while i < n
            invariant
                n == nodes.len(),
                nodes == self.nodes@,
                marked@.len() == n,
                i <= n,
                forall|a: int|
                    0 <= a < nodes.len() ==> (#[trigger] marked@[a] <==> is_wanted(
                        nodes,
                        requested,
                        nodes[a].id@,
                    )),
                node_views(picked@) == wanted_nodes(nodes, requested, i as nat),
                from.len() == picked@.len(),
                forall|p: int|
                    0 <= p < from.len() ==> 0 <= (#[trigger] from[p]) < i && marked@[from[p]]
                        && picked@[p]@ == nodes[from[p]]@,
                forall|p: int, q: int| 0 <= p < q < from.len() ==> from[p] < from[q],
                forall|a: int| 0 <= a < i && marked@[a] ==> #[trigger] from.contains(a),
            decreases n - i,
        {
            if marked[i] {
                let ghost before = from;
                let ghost views = node_views(picked@);
                picked.push(self.nodes[i].clone());
                proof {
                    from = from.push(i as int);
                    assert(node_views(picked@) =~= views.push(nodes[i as int]@));
                    assert forall|a: int| 0 <= a < i + 1 && marked@[a] implies #[trigger] from.contains(
                        a,
                    ) by {
                        if a < i {
                            assert(before.contains(a));
                            let p = choose|p: int| 0 <= p < before.len() && before[p] == a;
                            assert(from[p] == a);
                        } else {
                            assert(from[before.len() as int] == a);
                        }
                    }
                }
            }
            i += 1;
        }
        proof {
            lemma_picked_is_well_formed(nodes, adj@, marked@, picked@, from);
        }
        Ok(IRGraph { nodes: picked, cached_order: None })
    }

    /// Counts of the graph.
    pub fn stats(&self) -> (stats: GraphStats)
        ensures
            stats.node_count == self@.len(),
            stats.edge_count == clipped(edge_total(self@)),
            stats.root_count == root_total(self@, self@.len()),
            stats.leaf_count == leaf_total(self@, self@.len()),
            is_max_depth(self@, stats.max_depth as nat),
            stats.max_depth == max_depth_of(self@),
    {
        proof {
            use_type_invariant(self);
        }
        let n = self.nodes.len();
        let mut edge_count: usize = 0;
        let mut root_count: usize = 0;
        let mut leaf_count: usize = 0;
        let mut i: usize = 0;
        assert(self.nodes@.take(0) =~= Seq::<IRNode>::empty());
        while i < n
            invariant
                n == self.nodes@.len(),
                i <= n,
                edge_count == clipped(edge_total(self.nodes@.take(i as int))),
                root_count == root_total(self@, i as nat),
                leaf_count == leaf_total(self@, i as nat),
                root_count <= i,
                leaf_count <= i,
            decreases n - i,
        {
            proof {
                let all = self.nodes@;
                assert(all.take(i + 1).drop_last() == all.take(i as int));
                assert(all.take(i + 1).last() == all[i as int]);
            }
            let node = &self.nodes[i];
            edge_count = add_clipped(edge_count, distinct_dependencies(node));
            if node.dependencies.len() == 0 {
                root_count += 1;
            }
            if !self.any_depends_on(&node.id) {
                leaf_count += 1;
            }
            i += 1;
        }
        assert(self.nodes@.take(n as int) == self.nodes@);
        let max_depth = self.compute_max_depth();
        proof {
            lemma_max_depth_unique(self@, max_depth as nat);
        }
        GraphStats { node_count: n, edge_count, root_count, leaf_count, max_depth }
    }

    /// The length of the longest chain of dependencies.
    fn compute_max_depth(&self) -> (depth: usize)
        ensures
            is_max_depth(self@, depth as nat),
    {
        proof {
            use_type_invariant(self);
        }
        let depths = node_depths(&self.nodes);
        let n = depths.len();
        let mut depth: usize = 0;
        let mut i: usize = 0;
        let ghost mut deepest: int = 0;
        while i < n
            invariant
                n == depths@.len(),
                n == self.nodes@.len(),
                i <= n,
                forall|a: int| 0 <= a < i ==> (#[trigger] depths@[a]) <= depth,
                i == 0 ==> depth == 0,
                i > 0 ==> 0 <= deepest < i && depth == depths@[deepest],
            decreases n - i,
        {
            if depths[i] > depth || i == 0 {
                depth = depths[i];
                proof {
                    deepest = i as int;
                }
            }
            i += 1;
        }
        proof {
            if n > 0 {
                assert(is_depth(self.nodes@, self.nodes@[deepest].id@, depths@[deepest] as nat));
            }
            assert forall|a: int, len: nat|
                0 <= a < self.nodes@.len() && #[trigger] has_chain(
                    self.nodes@,
                    self.nodes@[a].id@,
                    len,
                ) implies len <= depth by {
                assert(is_depth(self.nodes@, self.nodes@[a].id@, depths@[a] as nat));
            }
        }
        depth
    }

    /// Works the evaluation order out afresh.
    fn compute_topological_order(&self) -> (r: KernelResult<Vec<NodeId>>)
        ensures
            r matches Ok(order) && is_evaluation_order(self@, id_texts(order@)),
    {
        proof {
            use_type_invariant(self);
        }
        match order_of_distinct(&self.nodes) {
            Some(order) => Ok(order),
            None => Err(KernelError::invalid_graph("Graph contains cycles")),
        }
    }
}

} // verus!
