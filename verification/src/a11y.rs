//! The accessibility tree: nodes, their geometry and the queries over them.

use crate::text::{
    ascii_lowered, eq_ignore_ascii_case, law_lowered_alike, same_but_case, same_text,
};
use vstd::prelude::*;

verus! {

/// Screen coordinates are held in fixed point, in units of one part in this many of a pixel.
pub const SUBPIXELS: i64 = 65536;

/// The rectangle of a node on the screen, in units of [`SUBPIXELS`] parts of a pixel.
#[derive(Debug, Clone, Copy, PartialEq, Eq, Structural)]
pub struct Bounds {
    pub x: i64,
    pub y: i64,
    pub width: i64,
    pub height: i64,
}

/// `num / den` rounded to the nearest integer, halves away from zero.
pub open spec fn rounded(num: int, den: int) -> int {
    if num >= 0 {
        (2 * num + den) / (2 * den)
    } else {
        -((2 * -num + den) / (2 * den))
    }
}

impl Bounds {
    /// A rectangle of whole pixels.
    pub fn from_pixels(x: i32, y: i32, width: i32, height: i32) -> (r: Bounds)
        ensures
            r.x == x * SUBPIXELS,
            r.y == y * SUBPIXELS,
            r.width == width * SUBPIXELS,
            r.height == height * SUBPIXELS,
    {
        Bounds {
            x: x as i64 * SUBPIXELS,
            y: y as i64 * SUBPIXELS,
            width: width as i64 * SUBPIXELS,
            height: height as i64 * SUBPIXELS,
        }
    }

    /// The right edge.
    pub open spec fn right(self) -> int {
        self.x + self.width
    }

    /// The centre, rounded to whole pixels.
    pub fn center(&self) -> (r: (i64, i64))
        ensures
            r.0 == rounded(2 * self.x + self.width, 2 * SUBPIXELS as int),
            r.1 == rounded(2 * self.y + self.height, 2 * SUBPIXELS as int),
    {
        (
            round_div(2 * self.x as i128 + self.width as i128),
            round_div(2 * self.y as i128 + self.height as i128),
        )
    }
}

fn round_div(num: i128) -> (r: i64)
    requires
        -0x1_8000_0000_0000_0000 <= num <= 0x1_8000_0000_0000_0000,
    ensures
        r == rounded(num as int, 2 * SUBPIXELS as int),
{
    if num >= 0 {
        ((2 * num + 131072) / 262144) as i64
    } else {
        let back: i64 = ((2 * -num + 131072) / 262144) as i64;
        -back
    }
}

/// A node of the accessibility tree.
#[derive(Debug, PartialEq, Eq)]
pub struct A11yNode {
    pub role: String,
    pub name: String,
    pub bounds: Option<Bounds>,
    pub children: Option<Vec<A11yNode>>,
    pub states: Option<Vec<String>>,
}

/// The children of `node`, in order.
pub open spec fn children_of(node: A11yNode) -> Seq<A11yNode> {
    match node.children {
        Some(children) => children@,
        None => Seq::empty(),
    }
}

/// Whether `node` has the role `role`.
pub open spec fn has_role(node: A11yNode, role: Seq<char>) -> bool {
    node.role@ == role
}

/// Whether one of the states of `node` is `state`, up to the case of ASCII letters.
pub open spec fn has_state(node: A11yNode, state: Seq<char>) -> bool {
    match node.states {
        Some(states) => exists|i: int|
            0 <= i < states@.len() && ascii_lowered(#[trigger] states@[i]@) == ascii_lowered(state),
        None => false,
    }
}

/// The index of the first of the first `n` nodes that satisfies `p`.
pub open spec fn first_where(nodes: Seq<A11yNode>, p: spec_fn(A11yNode) -> bool, n: nat) -> Option<
    int,
>
    decreases n,
{
    if n == 0 {
        None
    } else {
        match first_where(nodes, p, (n - 1) as nat) {
            Some(i) => Some(i),
            None => if p(nodes[n - 1]) {
                Some(n - 1)
            } else {
                None
            },
        }
    }
}

/// The first match is a match, and none stands before it.
pub proof fn lemma_first_where(nodes: Seq<A11yNode>, p: spec_fn(A11yNode) -> bool, n: nat)
    ensures
        match first_where(nodes, p, n) {
            Some(i) => 0 <= i < n && p(nodes[i]) && forall|j: int| 0 <= j < i ==> !p(nodes[j]),
            None => forall|j: int| 0 <= j < n ==> !p(nodes[j]),
        },
    decreases n,
{
    if n > 0 {
        lemma_first_where(nodes, p, (n - 1) as nat);
    }
}

/// Whether `node` is the list of chats.
pub open spec fn is_chat_list(node: A11yNode) -> bool {
    has_role(node, "list"@) && node.name@ == "Chats"@
}

/// The list of chats that stands first in document order in the tree of `node`.
pub open spec fn chat_list(node: A11yNode) -> Option<A11yNode>
    decreases node, 0nat,
{
    if is_chat_list(node) {
        Some(node)
    } else if children_of(node).len() > 0 {
        chat_list_in(children_of(node), children_of(node).len())
    } else {
        None
    }
}

/// The list of chats that stands first in the trees of the first `n` nodes.
pub open spec fn chat_list_in(nodes: Seq<A11yNode>, n: nat) -> Option<A11yNode>
    decreases nodes, n,
{
    if n == 0 || n > nodes.len() {
        None
    } else {
        match chat_list_in(nodes, (n - 1) as nat) {
            Some(found) => Some(found),
            None => chat_list(nodes[n - 1]),
        }
    }
}

/// The chat row that stands first in document order: a list item directly under a list of
/// chats.
pub open spec fn first_chat_row(node: A11yNode) -> Option<A11yNode>
    decreases node, 0nat,
{
    if children_of(node).len() > 0 {
        first_chat_row_in(is_chat_list(node), children_of(node), children_of(node).len())
    } else {
        None
    }
}

/// The first chat row among the first `n` children of one node and below them.
pub open spec fn first_chat_row_in(in_list: bool, nodes: Seq<A11yNode>, n: nat) -> Option<A11yNode>
    decreases nodes, n,
{
    if n == 0 || n > nodes.len() {
        None
    } else {
        match first_chat_row_in(in_list, nodes, (n - 1) as nat) {
            Some(found) => Some(found),
            None => if in_list && has_role(nodes[n - 1], "list-item"@) {
                Some(nodes[n - 1])
            } else {
                first_chat_row(nodes[n - 1])
            },
        }
    }
}

/// Whether `name` is the label of the send button, in the English or the Chinese client.
pub open spec fn is_send_label(name: Seq<char>) -> bool {
    ||| name == "Send"@
    ||| name == "Send(S)"@
    ||| name == "发送"@
    ||| name == "发送(S)"@
}

// ---------------------------------------------------------------------------
// Queries
// ---------------------------------------------------------------------------

/// The node behind an optional reference.
pub open spec fn found(r: Option<&A11yNode>) -> Option<A11yNode> {
    match r {
        Some(node) => Some(*node),
        None => None,
    }
}

/// Whether `node` has the role `role`.
pub fn role_is(node: &A11yNode, role: &str) -> (r: bool)
    ensures
        r == has_role(*node, role@),
{
    same_text(node.role.as_str(), role)
}

/// Whether a node has a state, such as "ACTIVE", "EDITABLE", "FOCUSED" or "DISABLED".
pub fn node_has_state(node: &A11yNode, state: &str) -> (r: bool)
    ensures
        r == has_state(*node, state@),
{
    match &node.states {
        Some(states) => {
            let mut i: usize = 0;
            while i < states.len()
                invariant
                    node.states == Some(*states),
                    i <= states.len(),
                    forall|j: int|
                        0 <= j < i ==> ascii_lowered(#[trigger] states@[j]@) != ascii_lowered(
                            state@,
                        ),
                decreases states.len() - i,
            {
                if eq_ignore_ascii_case(states[i].as_str(), state) {
                    assert(ascii_lowered(node.states->Some_0@[i as int]@) == ascii_lowered(state@));
                    return true;
                }
                i += 1;
            }
            false
        },
        None => false,
    }
}

/// Whether `name` is the label of the send button.
pub fn is_send_button_name(name: &str) -> (r: bool)
    ensures
        r == is_send_label(name@),
{
    same_text(name, "Send") || same_text(name, "Send(S)") || same_text(name, "发送") || same_text(
        name,
        "发送(S)",
    )
}

fn node_is_chat_list(node: &A11yNode) -> (r: bool)
    ensures
        r == is_chat_list(*node),
{
    role_is(node, "list") && same_text(node.name.as_str(), "Chats")
}

/// The list of chats that stands first in the tree of `node`.
pub fn query_chat_list<'a>(node: &'a A11yNode) -> (r: Option<&'a A11yNode>)
    ensures
        found(r) == chat_list(*node),
    decreases node,
{
    if node_is_chat_list(node) {
        return Some(node);
    }
    if let Some(children) = &node.children {
        let mut i: usize = 0;
        while i < children.len()
            invariant
                i <= children.len(),
                node.children == Some(*children),
                !is_chat_list(*node),
                chat_list_in(children@, i as nat) is None,
            decreases children.len() - i,
        {
            let hit = query_chat_list(&children[i]);
            if hit.is_some() {
                proof {
                    lemma_chat_list_stays(children@, (i + 1) as nat, children@.len());
                }
                return hit;
            }
            i += 1;
        }
    }
    None
}

proof fn lemma_chat_list_stays(nodes: Seq<A11yNode>, n: nat, m: nat)
    requires
        n <= m <= nodes.len(),
        chat_list_in(nodes, n) is Some,
    ensures
        chat_list_in(nodes, m) == chat_list_in(nodes, n),
    decreases m,
{
    if n < m {
        lemma_chat_list_stays(nodes, n, (m - 1) as nat);
    }
}

/// The chat row that stands first in the tree of `node`.
pub fn query_first_chat_row<'a>(node: &'a A11yNode) -> (r: Option<&'a A11yNode>)
    ensures
        found(r) == first_chat_row(*node),
    decreases node,
{
    let in_list = node_is_chat_list(node);
    if let Some(children) = &node.children {
        let mut i: usize = 0;
        while i < children.len()
            invariant
                i <= children.len(),
                node.children == Some(*children),
                in_list == is_chat_list(*node),
                first_chat_row_in(in_list, children@, i as nat) is None,
            decreases children.len() - i,
        {
            let hit = if in_list && role_is(&children[i], "list-item") {
                Some(&children[i])
            } else {
                query_first_chat_row(&children[i])
            };
            if hit.is_some() {
                proof {
                    lemma_first_chat_row_stays(
                        in_list,
                        children@,
                        (i + 1) as nat,
                        children@.len(),
                    );
                }
                return hit;
            }
            i += 1;
        }
    }
    None
}

proof fn lemma_first_chat_row_stays(in_list: bool, nodes: Seq<A11yNode>, n: nat, m: nat)
    requires
        n <= m <= nodes.len(),
        first_chat_row_in(in_list, nodes, n) is Some,
    ensures
        first_chat_row_in(in_list, nodes, m) == first_chat_row_in(in_list, nodes, n),
    decreases m,
{
    if n < m {
        lemma_first_chat_row_stays(in_list, nodes, n, (m - 1) as nat);
    }
}

// ---------------------------------------------------------------------------
// Laws
// ---------------------------------------------------------------------------

/// Rounding gives the nearest integer: no more than half a unit away, and the one farther from zero
/// where two are as near.
pub proof fn law_rounded_is_nearest(num: int, den: int)
    requires
        den > 0,
    ensures
        -den <= 2 * (den * rounded(num, den) - num) <= den,
        num >= 0 ==> 2 * (num - den * rounded(num, den)) < den,
        num < 0 ==> 2 * (den * rounded(num, den) - num) < den,
        rounded(-num, den) == -rounded(num, den),
{
    lemma_rounded_up(num, den);
    lemma_rounded_up(-num, den);
    let q = rounded(-num, den);
    if num < 0 {
        assert(den * -q == -(den * q)) by (nonlinear_arith);
    } else if num == 0 {
        assert(q == 0) by (nonlinear_arith)
            requires
                2 * (0 - den * q) < den,
                -den <= 2 * (0 - den * q),
                den > 0,
        ;
    }
}

proof fn lemma_rounded_up(num: int, den: int)
    requires
        den > 0,
    ensures
        num >= 0 ==> 2 * (num - den * rounded(num, den)) < den && -den <= 2 * (num - den * rounded(
            num,
            den,
        )),
{
    if num >= 0 {
        let a = 2 * num + den;
        let q = a / (2 * den);
        assert((2 * den) * q <= a < (2 * den) * q + 2 * den) by (nonlinear_arith)
            requires
                den > 0,
                q == a / (2 * den),
        ;
        assert((2 * den) * q == 2 * (den * q)) by (nonlinear_arith);
    }
}

/// A node has the role that it says and the children that it lists.
pub proof fn law_role_and_children(node: A11yNode)
    ensures
        node.children is None ==> children_of(node).len() == 0,
        node.children is Some ==> children_of(node) == node.children->Some_0@,
        forall|role: Seq<char>| #[trigger] has_role(node, role) <==> node.role@ == role,
{
}

/// A node has a state where one of its states is the same text, letter for letter, but for the case
/// of the letters `A` to `Z`; a node without states has none.
pub proof fn law_states_ignore_case(node: A11yNode, state: Seq<char>)
    ensures
        has_state(node, state) <==> node.states is Some && exists|i: int|
            0 <= i < node.states->Some_0@.len() && same_but_case(
                #[trigger] node.states->Some_0@[i]@,
                state,
            ),
{
    if node.states is Some {
        let states = node.states->Some_0@;
        assert forall|i: int| 0 <= i < states.len() implies (ascii_lowered(
            #[trigger] states[i]@,
        ) == ascii_lowered(state) <==> same_but_case(states[i]@, state)) by {
            law_lowered_alike(states[i]@, state);
        }
        if has_state(node, state) {
            let i = choose|i: int|
                0 <= i < states.len() && ascii_lowered(#[trigger] states[i]@) == ascii_lowered(
                    state,
                );
            assert(same_but_case(states[i]@, state));
        }
        if exists|i: int| 0 <= i < states.len() && same_but_case(#[trigger] states[i]@, state) {
            let i = choose|i: int| 0 <= i < states.len() && same_but_case(#[trigger] states[i]@, state);
            assert(ascii_lowered(states[i]@) == ascii_lowered(state));
        }
    }
}

/// The send button has one of four labels, two in each language.
pub proof fn law_send_labels(name: Seq<char>)
    ensures
        is_send_label(name) <==> name == "Send"@ || name == "Send(S)"@ || name == "发送"@ || name
            == "发送(S)"@,
{
}

/// A node that was found is the one behind the reference.
pub proof fn law_found_nodes(r: Option<&A11yNode>)
    ensures
        found(r) is Some <==> r is Some,
        r is Some ==> found(r) == Some(*r->Some_0),
{
}

/// The list of chats is told by its role and its name.
pub proof fn law_chat_lists(node: A11yNode)
    ensures
        is_chat_list(node) <==> node.role@ == "list"@ && node.name@ == "Chats"@,
{
}

} // verus!
