//! Trees in document order: the paths that lead to their nodes, and what is gathered along them.
//! What the planners collect from a tree is stated here by where it stands.

use crate::a11y::{A11yNode, chat_list, chat_list_in, children_of, first_chat_row, first_chat_row_in};
use crate::multi_frame::{
    Composer, Frame, Refusal, active_pair, composer_of, composer_position, composers, composers_in,
    enclosing_frame, frame_of, is_chat_window, is_edit_box, law_only_composer_is_used, own_composer,
    stands_in_window, top_frames, top_frames_in,
};
use crate::seqs::lemma_filter_from;
use crate::target_chat::{
    chat_rows, chat_rows_in, composed_at, descendant_names, descendant_names_in, free_edit_boxes,
    free_edit_boxes_in, is_composer_edit, labels, labels_in, leads, node_at, rows_below,
};
use crate::text::{normalized, trimmed};
use crate::titles::is_row_list_key;
use vstd::prelude::*;

verus! {

// ---------------------------------------------------------------------------
// Paths
// ---------------------------------------------------------------------------

/// Paths that begin with the child at `i`.
pub open spec fn behind(i: int, ps: Seq<Seq<int>>) -> Seq<Seq<int>> {
    ps.map_values(|p: Seq<int>| seq![i] + p)
}

/// The paths to all nodes of the tree of `node`, in document order: a node comes before what stands
/// below it, and what stands below one child before the next child.
pub open spec fn paths(node: A11yNode) -> Seq<Seq<int>>
    decreases node, 0nat,
{
    let own = seq![Seq::<int>::empty()];
    if children_of(node).len() > 0 {
        own + paths_in(children_of(node), children_of(node).len())
    } else {
        own
    }
}

/// The paths through the first `n` children.
pub open spec fn paths_in(nodes: Seq<A11yNode>, n: nat) -> Seq<Seq<int>>
    decreases nodes, n,
{
    if n == 0 || n > nodes.len() {
        Seq::empty()
    } else {
        paths_in(nodes, (n - 1) as nat) + behind(n - 1, paths(nodes[n - 1]))
    }
}

/// Whether one path comes before another in document order: it is the beginning of the other, or it
/// turns off to an earlier child.
pub open spec fn comes_before(p: Seq<int>, q: Seq<int>) -> bool
    decreases p.len(),
{
    if q.len() == 0 {
        false
    } else if p.len() == 0 {
        true
    } else {
        p[0] < q[0] || (p[0] == q[0] && comes_before(p.drop_first(), q.drop_first()))
    }
}

/// The paths of a tree are those that lead to its nodes, each once and in document order.
pub proof fn law_paths(node: A11yNode)
    ensures
        forall|p: Seq<int>| #[trigger] paths(node).contains(p) <==> leads(node, p),
        forall|i: int, j: int|
            0 <= i < j < paths(node).len() ==> comes_before(
                #[trigger] paths(node)[i],
                #[trigger] paths(node)[j],
            ),
    decreases node, 0nat,
{
    let nodes = children_of(node);
    let rest = if nodes.len() > 0 {
        paths_in(nodes, nodes.len())
    } else {
        Seq::empty()
    };
    let all = paths(node);
    assert(all =~= seq![Seq::<int>::empty()] + rest);
    if nodes.len() > 0 {
        lemma_paths_in(nodes, nodes.len());
    }
    assert forall|p: Seq<int>| #[trigger] all.contains(p) <==> leads(node, p) by {
        if all.contains(p) {
            let k = choose|k: int| 0 <= k < all.len() && all[k] == p;
            if k > 0 {
                assert(rest[k - 1] == p);
                assert(rest.contains(p));
            }
        }
        if leads(node, p) {
            if p.len() == 0 {
                assert(p =~= Seq::<int>::empty());
                assert(all[0] == p);
            } else {
                assert(rest.contains(p));
                let k = choose|k: int| 0 <= k < rest.len() && rest[k] == p;
                assert(all[k + 1] == p);
            }
        }
    }
    assert forall|i: int, j: int| 0 <= i < j < all.len() implies comes_before(
        #[trigger] all[i],
        #[trigger] all[j],
    ) by {
        assert(all[j] == rest[j - 1]);
        assert(rest.contains(rest[j - 1]));
        if i > 0 {
            assert(all[i] == rest[i - 1]);
        }
    }
}

proof fn lemma_paths_in(nodes: Seq<A11yNode>, n: nat)
    requires
        n <= nodes.len(),
    ensures
        forall|p: Seq<int>| #[trigger]
            paths_in(nodes, n).contains(p) <==> p.len() > 0 && 0 <= p[0] < n && leads(
                nodes[p[0]],
                p.drop_first(),
            ),
        forall|i: int, j: int|
            0 <= i < j < paths_in(nodes, n).len() ==> comes_before(
                #[trigger] paths_in(nodes, n)[i],
                #[trigger] paths_in(nodes, n)[j],
            ),
    decreases nodes, n,
{
    if n > 0 {
        let before = paths_in(nodes, (n - 1) as nat);
        let sub = paths(nodes[n - 1]);
        let last = behind(n - 1, sub);
        let all = paths_in(nodes, n);
        lemma_paths_in(nodes, (n - 1) as nat);
        law_paths(nodes[n - 1]);
        assert forall|k: int| 0 <= k < sub.len() implies (#[trigger] last[k])[0] == n - 1
            && last[k].drop_first() == sub[k] && last[k].len() > 0 by {
            assert(last[k].drop_first() =~= sub[k]);
        }
        assert forall|p: Seq<int>| #[trigger]
            all.contains(p) <==> p.len() > 0 && 0 <= p[0] < n && leads(
            nodes[p[0]],
            p.drop_first(),
        ) by {
            if all.contains(p) {
                let k = choose|k: int| 0 <= k < all.len() && all[k] == p;
                if k < before.len() {
                    assert(before.contains(before[k]));
                } else {
                    assert(last[k - before.len()] == p);
                    assert(sub.contains(sub[k - before.len()]));
                }
            }
            if p.len() > 0 && 0 <= p[0] < n && leads(nodes[p[0]], p.drop_first()) {
                if p[0] < n - 1 {
                    assert(before.contains(p));
                    let k = choose|k: int| 0 <= k < before.len() && before[k] == p;
                    assert(all[k] == p);
                } else {
                    assert(sub.contains(p.drop_first()));
                    let k = choose|k: int| 0 <= k < sub.len() && sub[k] == p.drop_first();
                    assert(last[k] =~= p);
                    assert(all[before.len() + k] == p);
                }
            }
        }
        assert forall|i: int, j: int| 0 <= i < j < all.len() implies comes_before(
            #[trigger] all[i],
            #[trigger] all[j],
        ) by {
            if j < before.len() {
                assert(all[i] == before[i] && all[j] == before[j]);
            } else {
                assert(all[j] == last[j - before.len()]);
                if i < before.len() {
                    assert(all[i] == before[i]);
                    assert(before.contains(before[i]));
                } else {
                    assert(all[i] == last[i - before.len()]);
                    assert(comes_before(sub[i - before.len()], sub[j - before.len()]));
                }
            }
        }
    }
}

// ---------------------------------------------------------------------------
// What is gathered
// ---------------------------------------------------------------------------

/// What a tree gives, node for node in document order. What a node gives may depend on what is known
/// of the place where it stands.
pub open spec fn gathered<C, T>(
    node: A11yNode,
    c: C,
    own: spec_fn(A11yNode, C) -> Seq<T>,
    below: spec_fn(A11yNode, C, int) -> C,
) -> Seq<T>
    decreases node, 0nat,
{
    if children_of(node).len() > 0 {
        own(node, c) + gathered_in(
            node,
            c,
            own,
            below,
            children_of(node),
            children_of(node).len(),
        )
    } else {
        own(node, c)
    }
}

/// What the trees of the first `n` children of `node` give.
pub open spec fn gathered_in<C, T>(
    node: A11yNode,
    c: C,
    own: spec_fn(A11yNode, C) -> Seq<T>,
    below: spec_fn(A11yNode, C, int) -> C,
    nodes: Seq<A11yNode>,
    n: nat,
) -> Seq<T>
    decreases nodes, n,
{
    if n == 0 || n > nodes.len() {
        Seq::empty()
    } else {
        gathered_in(node, c, own, below, nodes, (n - 1) as nat) + gathered(
            nodes[n - 1],
            below(node, c, n - 1),
            own,
            below,
        )
    }
}

/// What is known of the place that a path leads to.
pub open spec fn place_at<C>(
    node: A11yNode,
    c: C,
    below: spec_fn(A11yNode, C, int) -> C,
    p: Seq<int>,
) -> C
    decreases p.len(),
{
    if p.len() == 0 {
        c
    } else {
        place_at(children_of(node)[p[0]], below(node, c, p[0]), below, p.drop_first())
    }
}

/// What paths give, one behind the other.
spec fn flat<T>(ps: Seq<Seq<int>>, f: spec_fn(Seq<int>) -> Seq<T>) -> Seq<T>
    decreases ps.len(),
{
    if ps.len() == 0 {
        Seq::empty()
    } else {
        flat(ps.drop_last(), f) + f(ps.last())
    }
}

proof fn lemma_flat_sum<T>(a: Seq<Seq<int>>, b: Seq<Seq<int>>, f: spec_fn(Seq<int>) -> Seq<T>)
    ensures
        flat(a + b, f) == flat(a, f) + flat(b, f),
    decreases b.len(),
{
    if b.len() == 0 {
        assert(a + b =~= a);
        assert(flat(a, f) + flat(b, f) =~= flat(a, f));
    } else {
        assert((a + b).drop_last() =~= a + b.drop_last());
        lemma_flat_sum(a, b.drop_last(), f);
        assert(flat(a + b, f) =~= flat(a, f) + flat(b, f));
    }
}

proof fn lemma_flat_behind<T>(
    i: int,
    ps: Seq<Seq<int>>,
    f: spec_fn(Seq<int>) -> Seq<T>,
    g: spec_fn(Seq<int>) -> Seq<T>,
)
    requires
        forall|p: Seq<int>| #[trigger] g(p) == f(seq![i] + p),
    ensures
        flat(behind(i, ps), f) == flat(ps, g),
    decreases ps.len(),
{
    if ps.len() > 0 {
        assert(behind(i, ps).drop_last() =~= behind(i, ps.drop_last()));
        assert(behind(i, ps).last() == seq![i] + ps.last());
        assert(g(ps.last()) == f(seq![i] + ps.last()));
        lemma_flat_behind(i, ps.drop_last(), f, g);
    }
}

/// What is gathered from a tree is what its paths give, in their order.
proof fn lemma_gathered<C, T>(
    node: A11yNode,
    c: C,
    own: spec_fn(A11yNode, C) -> Seq<T>,
    below: spec_fn(A11yNode, C, int) -> C,
    f: spec_fn(Seq<int>) -> Seq<T>,
)
    requires
        forall|p: Seq<int>| #[trigger]
            f(p) == own(node_at(node, p), place_at(node, c, below, p)),
    ensures
        gathered(node, c, own, below) == flat(paths(node), f),
    decreases node, 0nat,
{
    let none = Seq::<int>::empty();
    let nodes = children_of(node);
    assert(f(none) == own(node, c));
    assert(flat(seq![none], f) =~= own(node, c)) by {
        reveal_with_fuel(flat, 2);
        assert(seq![none].drop_last() =~= Seq::empty());
    }
    if nodes.len() > 0 {
        lemma_gathered_in(node, c, own, below, f, nodes, nodes.len());
        lemma_flat_sum(seq![none], paths_in(nodes, nodes.len()), f);
    }
}

proof fn lemma_gathered_in<C, T>(
    node: A11yNode,
    c: C,
    own: spec_fn(A11yNode, C) -> Seq<T>,
    below: spec_fn(A11yNode, C, int) -> C,
    f: spec_fn(Seq<int>) -> Seq<T>,
    nodes: Seq<A11yNode>,
    n: nat,
)
    requires
        nodes == children_of(node),
        n <= nodes.len(),
        forall|p: Seq<int>| #[trigger]
            f(p) == own(node_at(node, p), place_at(node, c, below, p)),
    ensures
        gathered_in(node, c, own, below, nodes, n) == flat(paths_in(nodes, n), f),
    decreases nodes, n,
{
    if n > 0 {
        let i = n - 1;
        let child = nodes[i];
        let inner = below(node, c, i);
        let g = |p: Seq<int>| own(node_at(child, p), place_at(child, inner, below, p));
        lemma_gathered_in(node, c, own, below, f, nodes, (n - 1) as nat);
        lemma_gathered(child, inner, own, below, g);
        assert forall|p: Seq<int>| #[trigger] g(p) == f(seq![i] + p) by {
            let q = seq![i] + p;
            assert(q.drop_first() =~= p);
            assert(q[0] == i);
            assert(f(q) == own(node_at(node, q), place_at(node, c, below, q)));
        }
        lemma_flat_behind(i, paths(child), f, g);
        lemma_flat_sum(paths_in(nodes, (n - 1) as nat), behind(i, paths(child)), f);
    }
}

/// Where each path gives one thing or none, what all give is what those give that give something.
proof fn lemma_flat_is_filter<T>(
    ps: Seq<Seq<int>>,
    f: spec_fn(Seq<int>) -> Seq<T>,
    pred: spec_fn(Seq<int>) -> bool,
    value: spec_fn(Seq<int>) -> T,
)
    requires
        forall|k: int|
            0 <= k < ps.len() ==> f(#[trigger] ps[k]) == (if pred(ps[k]) {
                seq![value(ps[k])]
            } else {
                Seq::empty()
            }),
    ensures
        flat(ps, f) == ps.filter(pred).map_values(value),
    decreases ps.len(),
{
    reveal(Seq::filter);
    if ps.len() > 0 {
        let rest = ps.drop_last();
        assert forall|k: int| 0 <= k < rest.len() implies f(#[trigger] rest[k]) == (if pred(
            rest[k],
        ) {
            seq![value(rest[k])]
        } else {
            Seq::empty()
        }) by {
            assert(rest[k] == ps[k]);
        }
        lemma_flat_is_filter(rest, f, pred, value);
        assert(f(ps[ps.len() - 1]) == if pred(ps.last()) {
            seq![value(ps.last())]
        } else {
            Seq::empty()
        });
        assert(flat(ps, f) =~= ps.filter(pred).map_values(value));
    } else {
        assert(flat(ps, f) =~= ps.filter(pred).map_values(value));
    }
}

/// A path that leads somewhere leads there from the node before its last step.
proof fn lemma_last_step<C>(
    node: A11yNode,
    c: C,
    below: spec_fn(A11yNode, C, int) -> C,
    p: Seq<int>,
)
    requires
        p.len() > 0,
    ensures
        node_at(node, p) == children_of(node_at(node, p.drop_last()))[p.last()],
        place_at(node, c, below, p) == below(
            node_at(node, p.drop_last()),
            place_at(node, c, below, p.drop_last()),
            p.last(),
        ),
    decreases p.len(),
{
    let child = children_of(node)[p[0]];
    let rest = p.drop_first();
    if p.len() == 1 {
        reveal_with_fuel(place_at, 2);
        reveal_with_fuel(node_at, 2);
        assert(rest =~= Seq::<int>::empty());
        assert(p.drop_last() =~= Seq::<int>::empty());
    } else {
        lemma_last_step(child, below(node, c, p[0]), below, rest);
        assert(rest.drop_last() =~= p.drop_last().drop_first());
        assert(rest.last() == p.last());
        assert(p.drop_last()[0] == p[0]);
    }
}

// ---------------------------------------------------------------------------
// Labels and names
// ---------------------------------------------------------------------------

spec fn label_here() -> spec_fn(A11yNode, bool) -> Seq<A11yNode> {
    |n: A11yNode, c: bool|
        if n.role@ == "label"@ && n.name@.len() > 0 && n.bounds is Some {
            seq![n]
        } else {
            Seq::empty()
        }
}

spec fn anywhere() -> spec_fn(A11yNode, bool, int) -> bool {
    |n: A11yNode, c: bool, i: int| c
}

proof fn lemma_labels(node: A11yNode)
    ensures
        labels(node) == gathered(node, false, label_here(), anywhere()),
    decreases node, 0nat,
{
    if children_of(node).len() > 0 {
        lemma_labels_in(node, children_of(node), children_of(node).len());
    }
}

proof fn lemma_labels_in(node: A11yNode, nodes: Seq<A11yNode>, n: nat)
    requires
        n <= nodes.len(),
    ensures
        labels_in(nodes, n) == gathered_in(node, false, label_here(), anywhere(), nodes, n),
    decreases nodes, n,
{
    if n > 0 {
        lemma_labels_in(node, nodes, (n - 1) as nat);
        lemma_labels(nodes[n - 1]);
    }
}

/// The visible labels of a tree are its nodes with the role of a label, a name and bounds, all of
/// them, wherever they stand, and in document order.
pub proof fn law_labels_of_a_tree(node: A11yNode)
    ensures
        labels(node) == paths(node).filter(
            |p: Seq<int>|
                node_at(node, p).role@ == "label"@ && node_at(node, p).name@.len() > 0 && node_at(
                    node,
                    p,
                ).bounds is Some,
        ).map_values(|p: Seq<int>| node_at(node, p)),
{
    let f = |p: Seq<int>|
        label_here()(node_at(node, p), place_at(node, false, anywhere(), p));
    lemma_labels(node);
    lemma_gathered(node, false, label_here(), anywhere(), f);
    lemma_flat_is_filter(
        paths(node),
        f,
        |p: Seq<int>|
            node_at(node, p).role@ == "label"@ && node_at(node, p).name@.len() > 0 && node_at(
                node,
                p,
            ).bounds is Some,
        |p: Seq<int>| node_at(node, p),
    );
}

spec fn name_here() -> spec_fn(A11yNode, bool) -> Seq<Seq<char>> {
    |n: A11yNode, c: bool|
        if trimmed(n.name@).len() > 0 {
            seq![trimmed(n.name@)]
        } else {
            Seq::empty()
        }
}

proof fn lemma_names(node: A11yNode)
    ensures
        descendant_names(node) == gathered(node, false, name_here(), anywhere()),
    decreases node, 0nat,
{
    if children_of(node).len() > 0 {
        lemma_names_in(node, children_of(node), children_of(node).len());
    }
}

proof fn lemma_names_in(node: A11yNode, nodes: Seq<A11yNode>, n: nat)
    requires
        n <= nodes.len(),
    ensures
        descendant_names_in(nodes, n) == gathered_in(node, false, name_here(), anywhere(), nodes, n),
    decreases nodes, n,
{
    if n > 0 {
        lemma_names_in(node, nodes, (n - 1) as nat);
        lemma_names(nodes[n - 1]);
    }
}

/// The names of a tree are those of all its nodes, trimmed and in document order; blank ones are left
/// out.
pub proof fn law_names_of_a_tree(node: A11yNode)
    ensures
        descendant_names(node) == paths(node).filter(
            |p: Seq<int>| trimmed(node_at(node, p).name@).len() > 0,
        ).map_values(|p: Seq<int>| trimmed(node_at(node, p).name@)),
{
    let f = |p: Seq<int>|
        name_here()(node_at(node, p), place_at(node, false, anywhere(), p));
    lemma_names(node);
    lemma_gathered(node, false, name_here(), anywhere(), f);
    lemma_flat_is_filter(
        paths(node),
        f,
        |p: Seq<int>| trimmed(node_at(node, p).name@).len() > 0,
        |p: Seq<int>| trimmed(node_at(node, p).name@),
    );
}

// ---------------------------------------------------------------------------
// Frames
// ---------------------------------------------------------------------------

spec fn frame_here() -> spec_fn(A11yNode, bool) -> Seq<Frame> {
    |n: A11yNode, inside: bool|
        if !inside && n.role@ == "frame"@ {
            seq![frame_of(n)]
        } else {
            Seq::empty()
        }
}

spec fn inside_frame() -> spec_fn(A11yNode, bool, int) -> bool {
    |n: A11yNode, inside: bool, i: int| inside || n.role@ == "frame"@
}

proof fn lemma_inside_gives_nothing(node: A11yNode)
    ensures
        gathered(node, true, frame_here(), inside_frame()) == Seq::<Frame>::empty(),
    decreases node, 0nat,
{
    if children_of(node).len() > 0 {
        lemma_inside_gives_nothing_in(node, true, children_of(node), children_of(node).len());
    }
}

proof fn lemma_inside_gives_nothing_in(
    node: A11yNode,
    inside: bool,
    nodes: Seq<A11yNode>,
    n: nat,
)
    requires
        inside || node.role@ == "frame"@,
        n <= nodes.len(),
    ensures
        gathered_in(node, inside, frame_here(), inside_frame(), nodes, n) == Seq::<Frame>::empty(),
    decreases nodes, n,
{
    if n > 0 {
        lemma_inside_gives_nothing_in(node, inside, nodes, (n - 1) as nat);
        lemma_inside_gives_nothing(nodes[n - 1]);
    }
}

proof fn lemma_frames(node: A11yNode)
    ensures
        top_frames(node) == gathered(node, false, frame_here(), inside_frame()),
    decreases node, 0nat,
{
    let nodes = children_of(node);
    if nodes.len() > 0 {
        if node.role@ == "frame"@ {
            lemma_inside_gives_nothing_in(node, false, nodes, nodes.len());
        } else {
            lemma_frames_in(node, nodes, nodes.len());
        }
        assert(top_frames(node) =~= gathered(node, false, frame_here(), inside_frame()));
    }
}

proof fn lemma_frames_in(node: A11yNode, nodes: Seq<A11yNode>, n: nat)
    requires
        node.role@ != "frame"@,
        n <= nodes.len(),
    ensures
        top_frames_in(nodes, n) == gathered_in(
            node,
            false,
            frame_here(),
            inside_frame(),
            nodes,
            n,
        ),
    decreases nodes, n,
{
    if n > 0 {
        lemma_frames_in(node, nodes, (n - 1) as nat);
        lemma_frames(nodes[n - 1]);
    }
}

/// Whether a frame stands on the way to the node that a path leads to.
pub open spec fn passes_frame(node: A11yNode, p: Seq<int>) -> bool {
    exists|k: int| 0 <= k < p.len() && (#[trigger] node_at(node, p.take(k))).role@ == "frame"@
}

proof fn lemma_passes_frame(node: A11yNode, p: Seq<int>)
    ensures
        place_at(node, false, inside_frame(), p) == passes_frame(node, p),
    decreases p.len(),
{
    if p.len() > 0 {
        let front = p.drop_last();
        lemma_last_step(node, false, inside_frame(), p);
        lemma_passes_frame(node, front);
        assert(p.take(p.len() - 1) =~= front);
        assert forall|k: int| 0 <= k < front.len() implies front.take(k) == #[trigger] p.take(
            k,
        ) by {
            assert(front.take(k) =~= p.take(k));
        }
        if passes_frame(node, front) {
            let k = choose|k: int|
                0 <= k < front.len() && (#[trigger] node_at(node, front.take(k))).role@ == "frame"@;
            assert(p.take(k) == front.take(k));
            assert(node_at(node, p.take(k)).role@ == "frame"@);
        }
        if passes_frame(node, p) {
            let k = choose|k: int|
                0 <= k < p.len() && (#[trigger] node_at(node, p.take(k))).role@ == "frame"@;
            if k < front.len() {
                assert(p.take(k) == front.take(k));
                assert(node_at(node, front.take(k)).role@ == "frame"@);
            }
        }
        if node_at(node, front).role@ == "frame"@ {
            assert(node_at(node, p.take(p.len() - 1)).role@ == "frame"@);
        }
    }
}

/// The top frames of a tree are its nodes with the role of a frame that stand in no other frame, all
/// of them and in document order.
pub proof fn law_frames_of_a_tree(node: A11yNode)
    ensures
        top_frames(node) == paths(node).filter(
            |p: Seq<int>| node_at(node, p).role@ == "frame"@ && !passes_frame(node, p),
        ).map_values(|p: Seq<int>| frame_of(node_at(node, p))),
{
    let f = |p: Seq<int>|
        frame_here()(node_at(node, p), place_at(node, false, inside_frame(), p));
    lemma_frames(node);
    lemma_gathered(node, false, frame_here(), inside_frame(), f);
    assert forall|k: int| 0 <= k < paths(node).len() implies place_at(
        node,
        false,
        inside_frame(),
        #[trigger] paths(node)[k],
    ) == passes_frame(node, paths(node)[k]) by {
        lemma_passes_frame(node, paths(node)[k]);
    }
    lemma_flat_is_filter(
        paths(node),
        f,
        |p: Seq<int>| node_at(node, p).role@ == "frame"@ && !passes_frame(node, p),
        |p: Seq<int>| frame_of(node_at(node, p)),
    );
}

// ---------------------------------------------------------------------------
// Composers
// ---------------------------------------------------------------------------

spec fn composer_here() -> spec_fn(A11yNode, Option<Frame>) -> Seq<Composer> {
    |n: A11yNode, frame: Option<Frame>| own_composer(children_of(n), enclosing_frame(n, frame))
}

spec fn frame_below() -> spec_fn(A11yNode, Option<Frame>, int) -> Option<Frame> {
    |n: A11yNode, frame: Option<Frame>, i: int| enclosing_frame(n, frame)
}

proof fn lemma_composers_gathered(node: A11yNode, frame: Option<Frame>)
    ensures
        composers(node, frame) == gathered(node, frame, composer_here(), frame_below()),
    decreases node, 0nat,
{
    let nodes = children_of(node);
    if nodes.len() > 0 {
        lemma_composers_gathered_in(node, frame, nodes, nodes.len());
    }
}

proof fn lemma_composers_gathered_in(
    node: A11yNode,
    frame: Option<Frame>,
    nodes: Seq<A11yNode>,
    n: nat,
)
    requires
        n <= nodes.len(),
    ensures
        composers_in(nodes, n, enclosing_frame(node, frame)) == gathered_in(
            node,
            frame,
            composer_here(),
            frame_below(),
            nodes,
            n,
        ),
    decreases nodes, n,
{
    if n > 0 {
        lemma_composers_gathered_in(node, frame, nodes, (n - 1) as nat);
        lemma_composers_gathered(nodes[n - 1], enclosing_frame(node, frame));
    }
}

/// The innermost frame that holds what stands directly below the node that a path leads to: the node
/// itself, or the last one before it on the way.
pub open spec fn innermost_frame(node: A11yNode, p: Seq<int>) -> Option<A11yNode>
    decreases p.len(),
{
    if node_at(node, p).role@ == "frame"@ {
        Some(node_at(node, p))
    } else if p.len() == 0 {
        None
    } else {
        innermost_frame(node, p.drop_last())
    }
}

/// What is said of an optional frame.
pub open spec fn told_of(frame: Option<A11yNode>) -> Option<Frame> {
    match frame {
        Some(f) => Some(frame_of(f)),
        None => None,
    }
}

proof fn lemma_innermost_frame(node: A11yNode, p: Seq<int>)
    ensures
        enclosing_frame(
            node_at(node, p),
            place_at(node, None, frame_below(), p),
        ) == told_of(innermost_frame(node, p)),
    decreases p.len(),
{
    if p.len() > 0 {
        lemma_last_step(node, None, frame_below(), p);
        lemma_innermost_frame(node, p.drop_last());
    }
}

/// The composers of a tree stand, in document order, below the nodes among whose children there are
/// both an edit box and a send button. Each is made of the first of each kind, and belongs to the
/// innermost frame around them.
pub proof fn law_composers_of_a_tree(node: A11yNode)
    ensures
        composers(node, None) == paths(node).filter(
            |p: Seq<int>| composer_position(children_of(node_at(node, p))) is Some,
        ).map_values(
            |p: Seq<int>|
                {
                    let nodes = children_of(node_at(node, p));
                    let (edit, send) = composer_position(nodes)->Some_0;
                    composer_of(nodes[edit], nodes[send], told_of(innermost_frame(node, p)))
                },
        ),
{
    let f = |p: Seq<int>|
        composer_here()(node_at(node, p), place_at(node, None, frame_below(), p));
    lemma_composers_gathered(node, None);
    lemma_gathered(node, None, composer_here(), frame_below(), f);
    assert forall|k: int| 0 <= k < paths(node).len() implies enclosing_frame(
        node_at(node, #[trigger] paths(node)[k]),
        place_at(node, None, frame_below(), paths(node)[k]),
    ) == told_of(innermost_frame(node, paths(node)[k])) by {
        lemma_innermost_frame(node, paths(node)[k]);
    }
    lemma_flat_is_filter(
        paths(node),
        f,
        |p: Seq<int>| composer_position(children_of(node_at(node, p))) is Some,
        |p: Seq<int>|
            {
                let nodes = children_of(node_at(node, p));
                let (edit, send) = composer_position(nodes)->Some_0;
                composer_of(nodes[edit], nodes[send], told_of(innermost_frame(node, p)))
            },
    );
}

// ---------------------------------------------------------------------------
// Edit boxes
// ---------------------------------------------------------------------------

spec fn box_here() -> spec_fn(A11yNode, bool) -> Seq<A11yNode> {
    |n: A11yNode, composed: bool|
        if !composed && is_edit_box(n) && n.bounds is Some {
            seq![n]
        } else {
            Seq::empty()
        }
}

spec fn composed_below() -> spec_fn(A11yNode, bool, int) -> bool {
    |n: A11yNode, composed: bool, i: int| is_composer_edit(children_of(n), i)
}

proof fn lemma_boxes(node: A11yNode, composed: bool)
    ensures
        free_edit_boxes(node, composed) == gathered(node, composed, box_here(), composed_below()),
    decreases node, 0nat,
{
    let nodes = children_of(node);
    if nodes.len() > 0 {
        lemma_boxes_in(node, composed, nodes, nodes.len());
    }
}

proof fn lemma_boxes_in(node: A11yNode, composed: bool, nodes: Seq<A11yNode>, n: nat)
    requires
        nodes == children_of(node),
        n <= nodes.len(),
    ensures
        free_edit_boxes_in(nodes, n) == gathered_in(
            node,
            composed,
            box_here(),
            composed_below(),
            nodes,
            n,
        ),
    decreases nodes, n,
{
    if n > 0 {
        lemma_boxes_in(node, composed, nodes, (n - 1) as nat);
        lemma_boxes(nodes[n - 1], is_composer_edit(nodes, n - 1));
    }
}

proof fn lemma_composed_at(node: A11yNode, composed: bool, p: Seq<int>)
    ensures
        place_at(node, composed, composed_below(), p) == (if p.len() == 0 {
            composed
        } else {
            composed_at(node, p)
        }),
    decreases p.len(),
{
    if p.len() > 0 {
        lemma_composed_at(
            children_of(node)[p[0]],
            is_composer_edit(children_of(node), p[0]),
            p.drop_first(),
        );
    }
}

/// The edit boxes that a search may use are all that can be seen and edited and belong to no
/// composer, in document order.
pub proof fn law_edit_boxes_of_a_tree(node: A11yNode)
    ensures
        free_edit_boxes(node, false) == paths(node).filter(
            |p: Seq<int>|
                is_edit_box(node_at(node, p)) && node_at(node, p).bounds is Some
                    && !composed_at(node, p),
        ).map_values(|p: Seq<int>| node_at(node, p)),
{
    let f = |p: Seq<int>|
        box_here()(node_at(node, p), place_at(node, false, composed_below(), p));
    lemma_boxes(node, false);
    lemma_gathered(node, false, box_here(), composed_below(), f);
    assert forall|k: int| 0 <= k < paths(node).len() implies place_at(
        node,
        false,
        composed_below(),
        #[trigger] paths(node)[k],
    ) == composed_at(node, paths(node)[k]) by {
        lemma_composed_at(node, false, paths(node)[k]);
    }
    lemma_flat_is_filter(
        paths(node),
        f,
        |p: Seq<int>|
            is_edit_box(node_at(node, p)) && node_at(node, p).bounds is Some
                && !composed_at(node, p),
        |p: Seq<int>| node_at(node, p),
    );
}

// ---------------------------------------------------------------------------
// Rows
// ---------------------------------------------------------------------------

spec fn row_here() -> spec_fn(A11yNode, bool) -> Seq<A11yNode> {
    |n: A11yNode, eligible: bool|
        if n.role@ == "list-item"@ && eligible && n.bounds is Some {
            seq![n]
        } else {
            Seq::empty()
        }
}

spec fn eligible_below() -> spec_fn(A11yNode, bool, int) -> bool {
    |n: A11yNode, eligible: bool, i: int| rows_below(n, eligible)
}

proof fn lemma_rows(node: A11yNode, eligible: bool)
    ensures
        chat_rows(node, eligible) == gathered(node, eligible, row_here(), eligible_below()),
    decreases node, 0nat,
{
    let nodes = children_of(node);
    if nodes.len() > 0 {
        lemma_rows_in(node, eligible, nodes, nodes.len());
    }
}

proof fn lemma_rows_in(node: A11yNode, eligible: bool, nodes: Seq<A11yNode>, n: nat)
    requires
        n <= nodes.len(),
    ensures
        chat_rows_in(nodes, n, rows_below(node, eligible)) == gathered_in(
            node,
            eligible,
            row_here(),
            eligible_below(),
            nodes,
            n,
        ),
    decreases nodes, n,
{
    if n > 0 {
        lemma_rows_in(node, eligible, nodes, (n - 1) as nat);
        lemma_rows(nodes[n - 1], rows_below(node, eligible));
    }
}

/// The last list on the way to the node that a path leads to, which is not counted itself.
pub open spec fn list_above(node: A11yNode, p: Seq<int>) -> Option<A11yNode>
    decreases p.len(),
{
    if p.len() == 0 {
        None
    } else if node_at(node, p.drop_last()).role@ == "list"@ {
        Some(node_at(node, p.drop_last()))
    } else {
        list_above(node, p.drop_last())
    }
}

proof fn lemma_list_above(node: A11yNode, p: Seq<int>)
    ensures
        place_at(node, false, eligible_below(), p) == (list_above(node, p) is Some
            && is_row_list_key(normalized(list_above(node, p)->Some_0.name@))),
    decreases p.len(),
{
    if p.len() > 0 {
        lemma_last_step(node, false, eligible_below(), p);
        lemma_list_above(node, p.drop_last());
    }
}

/// The chat rows of a tree are its list items that can be seen and whose list, the last one on the
/// way to them, is one of chats or search results: all of them, in document order.
pub proof fn law_rows_of_a_tree(node: A11yNode)
    ensures
        chat_rows(node, false) == paths(node).filter(
            |p: Seq<int>|
                node_at(node, p).role@ == "list-item"@ && node_at(node, p).bounds is Some
                    && list_above(node, p) is Some && is_row_list_key(
                    normalized(list_above(node, p)->Some_0.name@),
                ),
        ).map_values(|p: Seq<int>| node_at(node, p)),
{
    let f = |p: Seq<int>|
        row_here()(node_at(node, p), place_at(node, false, eligible_below(), p));
    lemma_rows(node, false);
    lemma_gathered(node, false, row_here(), eligible_below(), f);
    assert forall|k: int| 0 <= k < paths(node).len() implies place_at(
        node,
        false,
        eligible_below(),
        #[trigger] paths(node)[k],
    ) == (list_above(node, paths(node)[k]) is Some && is_row_list_key(
        normalized(list_above(node, paths(node)[k])->Some_0.name@),
    )) by {
        lemma_list_above(node, paths(node)[k]);
    }
    lemma_flat_is_filter(
        paths(node),
        f,
        |p: Seq<int>|
            node_at(node, p).role@ == "list-item"@ && node_at(node, p).bounds is Some
                && list_above(node, p) is Some && is_row_list_key(
                normalized(list_above(node, p)->Some_0.name@),
            ),
        |p: Seq<int>| node_at(node, p),
    );
}

// ---------------------------------------------------------------------------
// The list of chats
// ---------------------------------------------------------------------------

/// The first of a sequence, if there is one.
pub open spec fn first_of(s: Seq<A11yNode>) -> Option<A11yNode> {
    if s.len() > 0 {
        Some(s[0])
    } else {
        None
    }
}

spec fn list_here() -> spec_fn(A11yNode, bool) -> Seq<A11yNode> {
    |n: A11yNode, c: bool|
        if n.role@ == "list"@ && n.name@ == "Chats"@ {
            seq![n]
        } else {
            Seq::empty()
        }
}

proof fn lemma_list(node: A11yNode)
    ensures
        chat_list(node) == first_of(gathered(node, false, list_here(), anywhere())),
    decreases node, 0nat,
{
    let nodes = children_of(node);
    if nodes.len() > 0 {
        lemma_list_in(node, nodes, nodes.len());
    }
}

proof fn lemma_list_in(node: A11yNode, nodes: Seq<A11yNode>, n: nat)
    requires
        n <= nodes.len(),
    ensures
        chat_list_in(nodes, n) == first_of(
            gathered_in(node, false, list_here(), anywhere(), nodes, n),
        ),
    decreases nodes, n,
{
    if n > 0 {
        lemma_list_in(node, nodes, (n - 1) as nat);
        lemma_list(nodes[n - 1]);
    }
}

/// The list of chats is the first node in document order that is a list of that name.
pub proof fn law_chat_list_of_a_tree(node: A11yNode)
    ensures
        chat_list(node) == first_of(
            paths(node).filter(
                |p: Seq<int>|
                    node_at(node, p).role@ == "list"@ && node_at(node, p).name@ == "Chats"@,
            ).map_values(|p: Seq<int>| node_at(node, p)),
        ),
{
    let f = |p: Seq<int>|
        list_here()(node_at(node, p), place_at(node, false, anywhere(), p));
    lemma_list(node);
    lemma_gathered(node, false, list_here(), anywhere(), f);
    lemma_flat_is_filter(
        paths(node),
        f,
        |p: Seq<int>| node_at(node, p).role@ == "list"@ && node_at(node, p).name@ == "Chats"@,
        |p: Seq<int>| node_at(node, p),
    );
}

spec fn item_here() -> spec_fn(A11yNode, bool) -> Seq<A11yNode> {
    |n: A11yNode, listed: bool|
        if listed && n.role@ == "list-item"@ {
            seq![n]
        } else {
            Seq::empty()
        }
}

spec fn listed_below() -> spec_fn(A11yNode, bool, int) -> bool {
    |n: A11yNode, listed: bool, i: int| n.role@ == "list"@ && n.name@ == "Chats"@
}

proof fn lemma_item(node: A11yNode)
    ensures
        first_chat_row(node) == first_of(gathered(node, false, item_here(), listed_below())),
    decreases node, 0nat,
{
    let nodes = children_of(node);
    if nodes.len() > 0 {
        lemma_item_in(node, false, nodes, nodes.len());
        assert(gathered(node, false, item_here(), listed_below()) =~= gathered_in(
            node,
            false,
            item_here(),
            listed_below(),
            nodes,
            nodes.len(),
        ));
    }
}

proof fn lemma_item_in(node: A11yNode, listed: bool, nodes: Seq<A11yNode>, n: nat)
    requires
        n <= nodes.len(),
    ensures
        first_chat_row_in(node.role@ == "list"@ && node.name@ == "Chats"@, nodes, n) == first_of(
            gathered_in(node, listed, item_here(), listed_below(), nodes, n),
        ),
    decreases nodes, n,
{
    if n > 0 {
        let child = nodes[n - 1];
        lemma_item_in(node, listed, nodes, (n - 1) as nat);
        lemma_item(child);
        lemma_item_at(child, node.role@ == "list"@ && node.name@ == "Chats"@);
    }
}

/// What a node gives where it stands in a list of chats, and where it does not.
proof fn lemma_item_at(node: A11yNode, listed: bool)
    ensures
        first_of(gathered(node, listed, item_here(), listed_below())) == (if listed && node.role@
            == "list-item"@ {
            Some(node)
        } else {
            first_of(gathered(node, false, item_here(), listed_below()))
        }),
{
    let nodes = children_of(node);
    if nodes.len() > 0 {
        lemma_listed_is_left(node, true, nodes, nodes.len());
        let (a, b) = (
            gathered_in(node, true, item_here(), listed_below(), nodes, nodes.len()),
            gathered_in(node, false, item_here(), listed_below(), nodes, nodes.len()),
        );
        assert(a == b);
        assert(Seq::<A11yNode>::empty() + a =~= a);
    }
}

/// Where a node itself stands does not matter for what stands below it.
proof fn lemma_listed_is_left(node: A11yNode, listed: bool, nodes: Seq<A11yNode>, n: nat)
    requires
        n <= nodes.len(),
    ensures
        gathered_in(node, listed, item_here(), listed_below(), nodes, n) == gathered_in(
            node,
            false,
            item_here(),
            listed_below(),
            nodes,
            n,
        ),
    decreases n,
{
    if n > 0 {
        lemma_listed_is_left(node, listed, nodes, (n - 1) as nat);
    }
}

proof fn lemma_listed_at(node: A11yNode, p: Seq<int>)
    ensures
        place_at(node, false, listed_below(), p) == (p.len() > 0 && node_at(
            node,
            p.drop_last(),
        ).role@ == "list"@ && node_at(node, p.drop_last()).name@ == "Chats"@),
{
    if p.len() > 0 {
        lemma_last_step(node, false, listed_below(), p);
    }
}

/// The first chat row is the first node in document order that is a list item directly under a list
/// of chats.
pub proof fn law_first_row_of_a_tree(node: A11yNode)
    ensures
        first_chat_row(node) == first_of(
            paths(node).filter(
                |p: Seq<int>|
                    p.len() > 0 && node_at(node, p).role@ == "list-item"@ && node_at(
                        node,
                        p.drop_last(),
                    ).role@ == "list"@ && node_at(node, p.drop_last()).name@ == "Chats"@,
            ).map_values(|p: Seq<int>| node_at(node, p)),
        ),
{
    let f = |p: Seq<int>|
        item_here()(node_at(node, p), place_at(node, false, listed_below(), p));
    lemma_item(node);
    lemma_gathered(node, false, item_here(), listed_below(), f);
    assert forall|k: int| 0 <= k < paths(node).len() implies place_at(
        node,
        false,
        listed_below(),
        #[trigger] paths(node)[k],
    ) == (paths(node)[k].len() > 0 && node_at(node, paths(node)[k].drop_last()).role@ == "list"@
        && node_at(node, paths(node)[k].drop_last()).name@ == "Chats"@) by {
        lemma_listed_at(node, paths(node)[k]);
    }
    lemma_flat_is_filter(
        paths(node),
        f,
        |p: Seq<int>|
            p.len() > 0 && node_at(node, p).role@ == "list-item"@ && node_at(
                node,
                p.drop_last(),
            ).role@ == "list"@ && node_at(node, p.drop_last()).name@ == "Chats"@,
        |p: Seq<int>| node_at(node, p),
    );
}

// ---------------------------------------------------------------------------
// The composer of a chat window
// ---------------------------------------------------------------------------

/// Whether a path leads to a node whose children make a composer that stands in an active chat
/// window.
pub open spec fn holds_composer(root: A11yNode, p: Seq<int>) -> bool {
    &&& leads(root, p)
    &&& composer_position(children_of(node_at(root, p))) is Some
    &&& innermost_frame(root, p) is Some
    &&& is_chat_window(innermost_frame(root, p)->Some_0)
}

proof fn lemma_not_before_itself(p: Seq<int>)
    ensures
        !comes_before(p, p),
    decreases p.len(),
{
    if p.len() > 0 {
        lemma_not_before_itself(p.drop_first());
    }
}

/// What a filter keeps of different elements is different.
proof fn lemma_kept_once<A>(s: Seq<A>, pred: spec_fn(A) -> bool)
    requires
        forall|i: int, j: int| 0 <= i < j < s.len() ==> s[i] != s[j],
    ensures
        forall|i: int, j: int|
            0 <= i < j < s.filter(pred).len() ==> s.filter(pred)[i] != s.filter(pred)[j],
        forall|k: int|
            0 <= k < s.len() && pred(#[trigger] s[k]) ==> s.filter(pred).contains(s[k]),
    decreases s.len(),
{
    reveal(Seq::filter);
    if s.len() > 0 {
        let rest = s.drop_last();
        let kept = rest.filter(pred);
        assert forall|i: int, j: int| 0 <= i < j < rest.len() implies rest[i] != rest[j] by {
            assert(rest[i] == s[i] && rest[j] == s[j]);
        }
        lemma_kept_once(rest, pred);
        assert forall|k: int| 0 <= k < s.len() && pred(#[trigger] s[k]) implies s.filter(
            pred,
        ).contains(s[k]) by {
            if k < rest.len() {
                assert(rest[k] == s[k]);
                assert(kept.contains(rest[k]));
                let m = choose|m: int| 0 <= m < kept.len() && kept[m] == s[k];
                assert(s.filter(pred)[m] == s[k]);
            } else {
                assert(s.filter(pred)[kept.len() as int] == s[k]);
            }
        }
        assert forall|i: int, j: int|
            0 <= i < j < s.filter(pred).len() implies s.filter(pred)[i] != s.filter(pred)[j] by {
            if j == kept.len() {
                let m = lemma_filter_from(rest, pred, i);
                assert(rest[m] == s[m]);
            }
        }
    }
}

/// Where exactly one composer of a tree stands in an active chat window, that composer is used:
/// wherever in the window it stands, whether or not its edit box has the focus, and whether or not
/// its button is disabled.
pub proof fn law_composer_of_the_chat_window(root: A11yNode, p: Seq<int>)
    requires
        holds_composer(root, p),
        forall|q: Seq<int>| #[trigger] holds_composer(root, q) ==> q == p,
    ensures
        ({
            let nodes = children_of(node_at(root, p));
            let (edit, send) = composer_position(nodes)->Some_0;
            active_pair(root) == Ok::<(A11yNode, A11yNode), Refusal>((nodes[edit], nodes[send]))
        }),
{
    let ps = paths(root);
    let pred = |p: Seq<int>| composer_position(children_of(node_at(root, p))) is Some;
    let value = |p: Seq<int>|
        {
            let nodes = children_of(node_at(root, p));
            let (edit, send) = composer_position(nodes)->Some_0;
            composer_of(nodes[edit], nodes[send], told_of(innermost_frame(root, p)))
        };
    let kept = ps.filter(pred);
    let all = composers(root, None);
    law_paths(root);
    law_composers_of_a_tree(root);
    assert(all == kept.map_values(value));
    assert forall|i: int, j: int| 0 <= i < j < ps.len() implies ps[i] != ps[j] by {
        assert(comes_before(ps[i], ps[j]));
        lemma_not_before_itself(ps[i]);
    }
    lemma_kept_once(ps, pred);
    assert(ps.contains(p));
    let at = choose|at: int| 0 <= at < ps.len() && ps[at] == p;
    assert(pred(ps[at]));
    assert(kept.contains(p));
    let k = choose|k: int| 0 <= k < kept.len() && kept[k] == p;
    assert(all[k] == value(p));
    assert(stands_in_window(root, k));
    assert forall|j: int| #[trigger] stands_in_window(root, j) implies j == k by {
        let q = kept[j];
        assert(all[j] == value(q));
        let m = lemma_filter_from(ps, pred, j);
        assert(ps.contains(ps[m]));
        assert(holds_composer(root, q));
        if j < k {
            assert(kept[j] != kept[k]);
        } else if k < j {
            assert(kept[k] != kept[j]);
        }
    }
    law_only_composer_is_used(root, k);
}

} // verus!
