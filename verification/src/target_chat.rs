//! Which chat is open, and where the intended chat can be found: titles, search boxes and
//! rows of the active chat window.

use crate::a11y::{
    A11yNode, SUBPIXELS, chat_list, children_of, has_role, query_chat_list, role_is,
};
use crate::multi_frame::{
    Refusal, SendPlannerError, active_main_frame, active_main_frames, composer_position,
    find_composer, is_edit_box, is_send_button, law_siblings_make_a_composer, node_is_edit_box,
    outcome, resolve_active_main_wechat_frame,
};
use crate::seqs::{lemma_filter_from, lemma_filter_one, lemma_filter_only, lemma_filter_some};
use crate::text::{
    contains, has_part, normalize, normalized, opt_text, same_text, texts, trim, trimmed,
};
use crate::titles::{
    chat_of_title, clean_chat_title, is_denied_key, is_filehelper_key, is_denied_system_chat, is_row_list_key,
    is_same_chat, is_search_key, is_target_chat_name_match, key_is_row_list, key_is_search,
    law_search_names,
};
use vstd::prelude::*;

verus! {

// ---------------------------------------------------------------------------
// The open chat
// ---------------------------------------------------------------------------

/// Whether `node` is a label that can be seen.
pub open spec fn is_label(node: A11yNode) -> bool {
    has_role(node, "label"@) && node.name@.len() > 0 && node.bounds is Some
}

/// The visible labels of the tree of `node`, in document order.
pub open spec fn labels(node: A11yNode) -> Seq<A11yNode>
    decreases node, 0nat,
{
    let own = if is_label(node) {
        seq![node]
    } else {
        Seq::empty()
    };
    if children_of(node).len() > 0 {
        own + labels_in(children_of(node), children_of(node).len())
    } else {
        own
    }
}

/// The visible labels of the trees of the first `n` nodes.
pub open spec fn labels_in(nodes: Seq<A11yNode>, n: nat) -> Seq<A11yNode>
    decreases nodes, n,
{
    if n == 0 || n > nodes.len() {
        Seq::empty()
    } else {
        labels_in(nodes, (n - 1) as nat) + labels(nodes[n - 1])
    }
}

/// Where the chat surface of a frame begins: at the right edge of the list of chats, or at
/// 272 pixels where that is not known.
pub open spec fn surface_left(frame: A11yNode) -> int {
    match chat_list(frame) {
        Some(list) => match list.bounds {
            Some(b) => b.right(),
            None => 272 * SUBPIXELS,
        },
        None => 272 * SUBPIXELS,
    }
}

/// Whether a label stands in the header of a chat surface that begins at `left`, and may be
/// its title.
pub open spec fn is_header_label(label: A11yNode, left: int) -> bool {
    &&& label.bounds is Some
    &&& label.bounds->Some_0.x >= left
    &&& label.bounds->Some_0.y < 80 * SUBPIXELS
    &&& trimmed(label.name@).len() > 0
    &&& !has_part(label.name@, "Send"@)
    &&& !has_part(label.name@, "WeChat"@)
    &&& !has_part(label.name@, "Weixin"@)
}

/// Whether one of `labels` gives the chat title `title`.
pub open spec fn is_title(labels: Seq<A11yNode>, left: int, title: Seq<char>) -> bool {
    title.len() > 0 && exists|i: int|
        0 <= i < labels.len() && is_header_label(#[trigger] labels[i], left) && chat_of_title(
            labels[i].name@,
        ) == title
}

/// Whether `title` is the only title that `labels` give.
pub open spec fn is_only_title(labels: Seq<A11yNode>, left: int, title: Seq<char>) -> bool {
    is_title(labels, left, title) && forall|other: Seq<char>|
        is_title(labels, left, other) ==> other == title
}

/// The title of the chat that is open in a frame: the one title that its header gives.
pub open spec fn frame_title(frame: A11yNode) -> Option<Seq<char>> {
    if exists|title: Seq<char>| is_only_title(labels(frame), surface_left(frame), title) {
        Some(
            choose|title: Seq<char>| is_only_title(labels(frame), surface_left(frame), title),
        )
    } else {
        None
    }
}

/// The title of the open chat.
pub open spec fn open_title(root: A11yNode) -> Option<Seq<char>> {
    match active_main_frame(root) {
        Ok(frame) => frame_title(frame),
        Err(_) => None,
    }
}

/// The nodes behind references.
pub open spec fn nodes_of<'a>(refs: Seq<&'a A11yNode>) -> Seq<A11yNode> {
    refs.map_values(|n: &'a A11yNode| *n)
}

/// Appends the visible labels of the tree of `node`.
pub fn collect_labels_recursive<'a>(node: &'a A11yNode, out: &mut Vec<&'a A11yNode>)
    ensures
        nodes_of(final(out)@) == nodes_of(old(out)@) + labels(*node),
    decreases node,
{
    if role_is(node, "label") && !node.name.as_str().is_empty() && node.bounds.is_some() {
        out.push(node);
    }
    let ghost own = if is_label(*node) {
        seq![*node]
    } else {
        Seq::empty()
    };
    assert(nodes_of(out@) =~= nodes_of(old(out)@) + own);
    if let Some(children) = &node.children {
        let mut i: usize = 0;
        while i < children.len()
            invariant
                i <= children.len(),
                node.children is Some,
                node.children->Some_0 == *children,
                nodes_of(out@) == nodes_of(old(out)@) + own + labels_in(children@, i as nat),
            decreases children.len() - i,
        {
            collect_labels_recursive(&children[i], out);
            i += 1;
            assert(nodes_of(out@) =~= nodes_of(old(out)@) + own + labels_in(children@, i as nat));
        }
    }
    assert(nodes_of(out@) =~= nodes_of(old(out)@) + labels(*node));
}

fn find_surface_left(frame: &A11yNode) -> (r: i128)
    ensures
        r == surface_left(*frame),
{
    match query_chat_list(frame) {
        Some(list) => match &list.bounds {
            Some(b) => b.x as i128 + b.width as i128,
            None => 272 * SUBPIXELS as i128,
        },
        None => 272 * SUBPIXELS as i128,
    }
}

fn label_is_header(label: &A11yNode, left: i128) -> (r: bool)
    ensures
        r == is_header_label(*label, left as int),
{
    match &label.bounds {
        Some(b) => {
            let name = label.name.as_str();
            b.x as i128 >= left && b.y < 80 * SUBPIXELS && !trim(name).is_empty() && !contains(
                name,
                "Send",
            ) && !contains(name, "WeChat") && !contains(name, "Weixin")
        },
        None => false,
    }
}

/// The one title that `labels` give in the header of a surface that begins at `left`.
fn only_title(all: &Vec<&A11yNode>, left: i128) -> (r: Option<String>)
    ensures
        match r {
            Some(t) => is_only_title(nodes_of(all@), left as int, t@),
            None => !exists|t: Seq<char>| is_only_title(nodes_of(all@), left as int, t),
        },
{
    let ghost nodes = nodes_of(all@);
    let mut title: Option<String> = None;
    let mut i: usize = 0;
    while i < all.len()
        invariant
            i <= all.len(),
            nodes == nodes_of(all@),
            match title {
                Some(t) => is_title(nodes, left as int, t@) && forall|j: int|
                    0 <= j < i && is_header_label(#[trigger] nodes[j], left as int)
                        && chat_of_title(nodes[j].name@).len() > 0 ==> chat_of_title(nodes[j].name@)
                        == t@,
                None => forall|j: int|
                    0 <= j < i && is_header_label(#[trigger] nodes[j], left as int)
                        ==> chat_of_title(nodes[j].name@).len() == 0,
            },
        decreases all.len() - i,
    {
        let label = all[i];
        assert(nodes[i as int] == *label);
        if label_is_header(label, left) {
            let own = clean_chat_title(label.name.as_str());
            if !own.as_str().is_empty() {
                assert(is_title(nodes, left as int, own@));
                match &title {
                    Some(t) => {
                        if !same_text(t.as_str(), own.as_str()) {
                            assert forall|u: Seq<char>| !is_only_title(nodes, left as int, u) by {
                                assert(is_title(nodes, left as int, t@));
                            }
                            return None;
                        }
                    },
                    None => {
                        title = Some(own);
                    },
                }
            }
        }
        i += 1;
    }
    proof {
        if title is Some {
            assert forall|u: Seq<char>| is_title(nodes, left as int, u) implies u
                == title->Some_0@ by {}
        } else {
            assert forall|u: Seq<char>| !is_only_title(nodes, left as int, u) by {}
        }
    }
    title
}

/// Extracts the title of the open chat from the header of the active chat window.
///
/// Labels that give the same title count once; two different titles give none.
pub fn extract_open_chat_title(root: &A11yNode) -> (r: Option<String>)
    ensures
        opt_text(r) == open_title(*root),
{
    match resolve_active_main_wechat_frame(root) {
        Ok(frame) => {
            let left = find_surface_left(frame);
            let mut all: Vec<&A11yNode> = Vec::new();
            collect_labels_recursive(frame, &mut all);
            assert(nodes_of(all@) =~= labels(*frame));
            only_title(&all, left)
        },
        Err(_) => None,
    }
}

/// What the check of the open chat says: whether it is open, or who else's is.
pub open spec fn target_check(root: A11yNode, expected: Seq<char>) -> Result<bool, Refusal> {
    match open_title(root) {
        Some(actual) => if is_same_chat(expected, actual) {
            Ok(true)
        } else {
            Err(Refusal::TargetNotVerified { expected, actual: Some(actual) })
        },
        None => Ok(false),
    }
}

/// Checks whether the open chat is the intended one.
///
/// `Ok(true)`: it is. `Ok(false)`: no chat is open. Otherwise another chat is open, and the
/// check fails closed.
pub fn verify_target_chat(root: &A11yNode, expected_target: &str) -> (r: Result<
    bool,
    SendPlannerError,
>)
    ensures
        (match r {
            Ok(b) => Ok(b),
            Err(e) => Err(e@),
        }) == target_check(*root, expected_target@),
{
    match extract_open_chat_title(root) {
        Some(actual) => {
            if is_target_chat_name_match(expected_target, actual.as_str()) {
                Ok(true)
            } else {
                Err(
                    SendPlannerError::TargetNotVerified {
                        expected: expected_target.to_owned(),
                        actual: Some(actual),
                    },
                )
            }
        },
        None => Ok(false),
    }
}

// ---------------------------------------------------------------------------
// The search box
// ---------------------------------------------------------------------------

/// Whether the child at `i` is the edit box of the composer of its siblings.
pub open spec fn is_composer_edit(nodes: Seq<A11yNode>, i: int) -> bool {
    match composer_position(nodes) {
        Some((edit, _)) => edit == i,
        None => false,
    }
}

/// The visible edit boxes of the tree of `node` that belong to no composer, in document
/// order; `composed` says whether `node` itself is the edit box of a composer.
pub open spec fn free_edit_boxes(node: A11yNode, composed: bool) -> Seq<A11yNode>
    decreases node, 0nat,
{
    let own = if !composed && is_edit_box(node) && node.bounds is Some {
        seq![node]
    } else {
        Seq::empty()
    };
    if children_of(node).len() > 0 {
        own + free_edit_boxes_in(children_of(node), children_of(node).len())
    } else {
        own
    }
}

/// The free edit boxes of the trees of the first `n` of the children of one node.
pub open spec fn free_edit_boxes_in(nodes: Seq<A11yNode>, n: nat) -> Seq<A11yNode>
    decreases nodes, n,
{
    if n == 0 || n > nodes.len() {
        Seq::empty()
    } else {
        free_edit_boxes_in(nodes, (n - 1) as nat) + free_edit_boxes(
            nodes[n - 1],
            is_composer_edit(nodes, n - 1),
        )
    }
}

/// Whether the name of `node` is that of a search box.
pub open spec fn is_named_search(node: A11yNode) -> bool {
    is_search_key(normalized(node.name@))
}

/// Whether `node` stands less than a pixel below each of `nodes`, or above it.
pub open spec fn is_topmost(node: A11yNode, nodes: Seq<A11yNode>) -> bool {
    forall|i: int|
        0 <= i < nodes.len() ==> node.bounds->Some_0.y - (#[trigger] nodes[i]).bounds->Some_0.y
            < SUBPIXELS
}

/// The search box among the free edit boxes of a frame: the one that is named so, or, if none
/// is, the topmost one.
pub open spec fn search_box_among(boxes: Seq<A11yNode>) -> Result<A11yNode, Refusal> {
    let named = boxes.filter(|n: A11yNode| is_named_search(n));
    let topmost = boxes.filter(|n: A11yNode| is_topmost(n, boxes));
    if boxes.len() == 0 {
        Err(Refusal::SearchBoxNotFound)
    } else if named.len() == 1 {
        Ok(named[0])
    } else if named.len() > 1 {
        Err(Refusal::SearchBoxAmbiguous { count: named.len() })
    } else if topmost.len() == 1 {
        Ok(topmost[0])
    } else if topmost.len() == 0 {
        Err(Refusal::SearchBoxNotFound)
    } else {
        Err(Refusal::SearchBoxAmbiguous { count: topmost.len() })
    }
}

/// The search box of the active chat window, or why there is none.
pub open spec fn search_box(root: A11yNode) -> Result<A11yNode, Refusal> {
    match active_main_frame(root) {
        Ok(frame) => search_box_among(free_edit_boxes(frame, false)),
        Err(e) => Err(e),
    }
}

/// Appends the visible edit boxes of the tree of `node` that belong to no composer.
fn collect_editables<'a>(node: &'a A11yNode, composed: bool, out: &mut Vec<&'a A11yNode>)
    ensures
        nodes_of(final(out)@) == nodes_of(old(out)@) + free_edit_boxes(*node, composed),
    decreases node,
{
    if !composed && node_is_edit_box(node) && node.bounds.is_some() {
        out.push(node);
    }
    let ghost own = if !composed && is_edit_box(*node) && node.bounds is Some {
        seq![*node]
    } else {
        Seq::empty()
    };
    assert(nodes_of(out@) =~= nodes_of(old(out)@) + own);
    if let Some(children) = &node.children {
        let position = find_composer(children);
        let mut i: usize = 0;
        while i < children.len()
            invariant
                i <= children.len(),
                node.children is Some,
                node.children->Some_0 == *children,
                match position {
                    Some((e, s)) => composer_position(children@) == Some((e as int, s as int)),
                    None => composer_position(children@) is None,
                },
                nodes_of(out@) == nodes_of(old(out)@) + own + free_edit_boxes_in(
                    children@,
                    i as nat,
                ),
            decreases children.len() - i,
        {
            let child_composed = match position {
                Some((e, _)) => e == i,
                None => false,
            };
            collect_editables(&children[i], child_composed, out);
            i += 1;
            assert(nodes_of(out@) =~= nodes_of(old(out)@) + own + free_edit_boxes_in(
                children@,
                i as nat,
            ));
        }
    }
    assert(nodes_of(out@) =~= nodes_of(old(out)@) + free_edit_boxes(*node, composed));
}

/// Every free edit box can be seen.
pub proof fn lemma_free_edit_boxes_have_bounds(node: A11yNode, composed: bool)
    ensures
        forall|i: int|
            0 <= i < free_edit_boxes(node, composed).len() ==> (#[trigger] free_edit_boxes(
                node,
                composed,
            )[i]).bounds is Some,
    decreases node, 0nat,
{
    if children_of(node).len() > 0 {
        lemma_free_edit_boxes_in_have_bounds(children_of(node), children_of(node).len());
    }
}

proof fn lemma_free_edit_boxes_in_have_bounds(nodes: Seq<A11yNode>, n: nat)
    ensures
        forall|i: int|
            0 <= i < free_edit_boxes_in(nodes, n).len() ==> (#[trigger] free_edit_boxes_in(
                nodes,
                n,
            )[i]).bounds is Some,
    decreases nodes, n,
{
    if n > 0 && n <= nodes.len() {
        lemma_free_edit_boxes_in_have_bounds(nodes, (n - 1) as nat);
        lemma_free_edit_boxes_have_bounds(nodes[n - 1], is_composer_edit(nodes, n - 1));
    }
}

fn node_is_topmost(node: &A11yNode, boxes: &Vec<&A11yNode>) -> (r: bool)
    requires
        node.bounds is Some,
        forall|i: int| 0 <= i < boxes@.len() ==> (#[trigger] nodes_of(boxes@)[i]).bounds is Some,
    ensures
        r == is_topmost(*node, nodes_of(boxes@)),
{
    let y: i64 = node.bounds.unwrap().y;
    let mut i: usize = 0;
    while i < boxes.len()
        invariant
            i <= boxes.len(),
            node.bounds is Some,
            y == node.bounds->Some_0.y,
            forall|j: int|
                0 <= j < boxes@.len() ==> (#[trigger] nodes_of(boxes@)[j]).bounds is Some,
            forall|j: int|
                0 <= j < i ==> y - (#[trigger] nodes_of(boxes@)[j]).bounds->Some_0.y < SUBPIXELS,
        decreases boxes.len() - i,
    {
        assert(nodes_of(boxes@)[i as int] == *boxes@[i as int]);
        let other: i64 = boxes[i].bounds.unwrap().y;
        if y as i128 - other as i128 >= SUBPIXELS as i128 {
            return false;
        }
        i += 1;
    }
    true
}

/// The search box among edit boxes.
fn pick_search_box<'a>(boxes: &Vec<&'a A11yNode>) -> (r: Result<&'a A11yNode, SendPlannerError>)
    requires
        forall|i: int| 0 <= i < boxes@.len() ==> (#[trigger] nodes_of(boxes@)[i]).bounds is Some,
    ensures
        outcome(r) == search_box_among(nodes_of(boxes@)),
{
    let ghost nodes = nodes_of(boxes@);
    let ghost is_named = |n: A11yNode| is_named_search(n);
    let ghost is_top = |n: A11yNode| is_topmost(n, nodes);
    if boxes.len() == 0 {
        return Err(SendPlannerError::SearchBoxNotFound);
    }
    let mut named: Vec<&'a A11yNode> = Vec::new();
    let mut topmost: Vec<&'a A11yNode> = Vec::new();
    let mut i: usize = 0;
    assert(nodes.take(0).filter(is_named) =~= Seq::<A11yNode>::empty()) by {
        reveal(Seq::filter);
    }
    assert(nodes.take(0).filter(is_top) =~= Seq::<A11yNode>::empty()) by {
        reveal(Seq::filter);
    }
    while i < boxes.len()
        invariant
            i <= boxes.len(),
            nodes == nodes_of(boxes@),
            is_named == (|n: A11yNode| is_named_search(n)),
            is_top == (|n: A11yNode| is_topmost(n, nodes)),
            forall|j: int|
                0 <= j < boxes@.len() ==> (#[trigger] nodes_of(boxes@)[j]).bounds is Some,
            nodes_of(named@) == nodes.take(i as int).filter(is_named),
            nodes_of(topmost@) == nodes.take(i as int).filter(is_top),
        decreases boxes.len() - i,
    {
        let node = boxes[i];
        let ghost old_named = named@;
        let ghost old_topmost = topmost@;
        proof {
            reveal(Seq::filter);
            assert(nodes.take(i + 1).drop_last() =~= nodes.take(i as int));
            assert(nodes.take(i + 1).last() == *node);
            assert(nodes_of(boxes@)[i as int].bounds is Some);
        }
        let key = normalize(node.name.as_str());
        if key_is_search(key.as_str()) {
            named.push(node);
            assert(nodes_of(named@) =~= nodes_of(old_named).push(*node));
        }
        if node_is_topmost(node, boxes) {
            topmost.push(node);
            assert(nodes_of(topmost@) =~= nodes_of(old_topmost).push(*node));
        }
        i += 1;
    }
    assert(nodes.take(nodes.len() as int) =~= nodes);
    if named.len() == 1 {
        assert(nodes_of(named@)[0] == *named@[0]);
        Ok(named[0])
    } else if named.len() > 1 {
        Err(SendPlannerError::SearchBoxAmbiguous { count: named.len() })
    } else if topmost.len() == 1 {
        assert(nodes_of(topmost@)[0] == *topmost@[0]);
        Ok(topmost[0])
    } else if topmost.len() == 0 {
        Err(SendPlannerError::SearchBoxNotFound)
    } else {
        Err(SendPlannerError::SearchBoxAmbiguous { count: topmost.len() })
    }
}

/// Resolves the search box of the active chat window.
///
/// The edit boxes of composers are excluded. A box that is named as a search box wins;
/// otherwise the topmost box does. A tie fails closed.
pub fn resolve_search_box<'a>(root: &'a A11yNode) -> (r: Result<&'a A11yNode, SendPlannerError>)
    ensures
        outcome(r) == search_box(*root),
{
    match resolve_active_main_wechat_frame(root) {
        Ok(frame) => {
            let mut boxes: Vec<&'a A11yNode> = Vec::new();
            collect_editables(frame, false, &mut boxes);
            assert(nodes_of(boxes@) =~= free_edit_boxes(*frame, false));
            proof {
                lemma_free_edit_boxes_have_bounds(*frame, false);
            }
            pick_search_box(&boxes)
        },
        Err(e) => Err(e),
    }
}

// ---------------------------------------------------------------------------
// Rows of the active chat window
// ---------------------------------------------------------------------------

/// Whether the rows under `node` are rows of chats or search results, given whether those
/// beside it are.
pub open spec fn rows_below(node: A11yNode, eligible: bool) -> bool {
    if has_role(node, "list"@) {
        is_row_list_key(normalized(node.name@))
    } else {
        eligible
    }
}

/// The visible chat rows of the tree of `node`, in document order; `eligible` says whether
/// `node` itself stands in a list of such rows.
pub open spec fn chat_rows(node: A11yNode, eligible: bool) -> Seq<A11yNode>
    decreases node, 0nat,
{
    let own = if has_role(node, "list-item"@) && eligible && node.bounds is Some {
        seq![node]
    } else {
        Seq::empty()
    };
    if children_of(node).len() > 0 {
        own + chat_rows_in(
            children_of(node),
            children_of(node).len(),
            rows_below(node, eligible),
        )
    } else {
        own
    }
}

/// The visible chat rows of the trees of the first `n` nodes.
pub open spec fn chat_rows_in(nodes: Seq<A11yNode>, n: nat, eligible: bool) -> Seq<A11yNode>
    decreases nodes, n,
{
    if n == 0 || n > nodes.len() {
        Seq::empty()
    } else {
        chat_rows_in(nodes, (n - 1) as nat, eligible) + chat_rows(nodes[n - 1], eligible)
    }
}

/// The names of the tree of `node`, trimmed, in document order; blank names are left out.
pub open spec fn descendant_names(node: A11yNode) -> Seq<Seq<char>>
    decreases node, 0nat,
{
    let own = if trimmed(node.name@).len() > 0 {
        seq![trimmed(node.name@)]
    } else {
        Seq::empty()
    };
    if children_of(node).len() > 0 {
        own + descendant_names_in(children_of(node), children_of(node).len())
    } else {
        own
    }
}

/// The names of the trees of the first `n` nodes.
pub open spec fn descendant_names_in(nodes: Seq<A11yNode>, n: nat) -> Seq<Seq<char>>
    decreases nodes, n,
{
    if n == 0 || n > nodes.len() {
        Seq::empty()
    } else {
        descendant_names_in(nodes, (n - 1) as nat) + descendant_names(nodes[n - 1])
    }
}

/// Whether a row shows the name of `target`.
pub open spec fn shows_target(row: A11yNode, target: Seq<char>) -> bool {
    exists|i: int|
        0 <= i < descendant_names(row).len() && is_same_chat(
            target,
            #[trigger] descendant_names(row)[i],
        )
}

/// The rows of a frame that show the name of `target`.
pub open spec fn target_rows(frame: A11yNode, target: Seq<char>) -> Seq<A11yNode> {
    chat_rows(frame, false).filter(|row: A11yNode| shows_target(row, target))
}

/// The names of nodes.
pub open spec fn node_names(nodes: Seq<A11yNode>) -> Seq<Seq<char>> {
    nodes.map_values(|n: A11yNode| n.name@)
}

/// The one row of the active chat window that shows the name of `target`, or why there is
/// none.
pub open spec fn target_row(root: A11yNode, target: Seq<char>) -> Result<A11yNode, Refusal> {
    match active_main_frame(root) {
        Ok(frame) => {
            let rows = target_rows(frame, target);
            if rows.len() == 1 {
                Ok(rows[0])
            } else if rows.len() == 0 {
                Err(Refusal::SearchTargetNotFound { query: target })
            } else {
                Err(Refusal::SearchAmbiguous { query: target, candidates: node_names(rows) })
            }
        },
        Err(e) => Err(e),
    }
}

/// Appends the visible chat rows of the tree of `node`.
fn collect_rows<'a>(node: &'a A11yNode, eligible: bool, out: &mut Vec<&'a A11yNode>)
    ensures
        nodes_of(final(out)@) == nodes_of(old(out)@) + chat_rows(*node, eligible),
    decreases node,
{
    let below = if role_is(node, "list") {
        let key = normalize(node.name.as_str());
        key_is_row_list(key.as_str())
    } else {
        eligible
    };
    if role_is(node, "list-item") && eligible && node.bounds.is_some() {
        out.push(node);
    }
    let ghost own = if has_role(*node, "list-item"@) && eligible && node.bounds is Some {
        seq![*node]
    } else {
        Seq::empty()
    };
    assert(nodes_of(out@) =~= nodes_of(old(out)@) + own);
    if let Some(children) = &node.children {
        let mut i: usize = 0;
        while i < children.len()
            invariant
                i <= children.len(),
                node.children is Some,
                node.children->Some_0 == *children,
                nodes_of(out@) == nodes_of(old(out)@) + own + chat_rows_in(
                    children@,
                    i as nat,
                    below,
                ),
            decreases children.len() - i,
        {
            collect_rows(&children[i], below, out);
            i += 1;
            assert(nodes_of(out@) =~= nodes_of(old(out)@) + own + chat_rows_in(
                children@,
                i as nat,
                below,
            ));
        }
    }
    assert(nodes_of(out@) =~= nodes_of(old(out)@) + chat_rows(*node, eligible));
}

/// Appends the names of the tree of `node`.
pub fn collect_descendant_names(node: &A11yNode, out: &mut Vec<String>)
    ensures
        texts(final(out)@) == texts(old(out)@) + descendant_names(*node),
    decreases node,
{
    let name = trim(node.name.as_str());
    if !name.is_empty() {
        out.push(name.to_owned());
    }
    let ghost own = if trimmed(node.name@).len() > 0 {
        seq![trimmed(node.name@)]
    } else {
        Seq::empty()
    };
    assert(texts(out@) =~= texts(old(out)@) + own);
    if let Some(children) = &node.children {
        let mut i: usize = 0;
        while i < children.len()
            invariant
                i <= children.len(),
                node.children is Some,
                node.children->Some_0 == *children,
                texts(out@) == texts(old(out)@) + own + descendant_names_in(children@, i as nat),
            decreases children.len() - i,
        {
            collect_descendant_names(&children[i], out);
            i += 1;
            assert(texts(out@) =~= texts(old(out)@) + own + descendant_names_in(
                children@,
                i as nat,
            ));
        }
    }
    assert(texts(out@) =~= texts(old(out)@) + descendant_names(*node));
}

fn row_shows_target(row: &A11yNode, target: &str) -> (r: bool)
    ensures
        r == shows_target(*row, target@),
{
    let mut names: Vec<String> = Vec::new();
    collect_descendant_names(row, &mut names);
    assert(texts(names@) =~= descendant_names(*row));
    let mut i: usize = 0;
    while i < names.len()
        invariant
            i <= names.len(),
            texts(names@) == descendant_names(*row),
            forall|j: int|
                0 <= j < i ==> !is_same_chat(target@, #[trigger] descendant_names(*row)[j]),
        decreases names.len() - i,
    {
        assert(descendant_names(*row)[i as int] == names@[i as int]@);
        if is_target_chat_name_match(target, names[i].as_str()) {
            return true;
        }
        i += 1;
    }
    false
}

/// Resolves the one visible row of the active chat window that shows the name of the
/// intended chat. No such row, or several, fails closed.
pub fn resolve_exact_target_row<'a>(root: &'a A11yNode, target: &str) -> (r: Result<
    &'a A11yNode,
    SendPlannerError,
>)
    ensures
        outcome(r) == target_row(*root, target@),
{
    let frame = match resolve_active_main_wechat_frame(root) {
        Ok(frame) => frame,
        Err(e) => {
            return Err(e);
        },
    };
    let mut rows: Vec<&'a A11yNode> = Vec::new();
    collect_rows(frame, false, &mut rows);
    let ghost all = chat_rows(*frame, false);
    let ghost shows = |row: A11yNode| shows_target(row, target@);
    assert(nodes_of(rows@) =~= all);
    let mut exact: Vec<&'a A11yNode> = Vec::new();
    let mut names: Vec<String> = Vec::new();
    let mut i: usize = 0;
    assert(all.take(0).filter(shows) =~= Seq::<A11yNode>::empty()) by {
        reveal(Seq::filter);
    }
    while i < rows.len()
        invariant
            i <= rows.len(),
            nodes_of(rows@) == all,
            shows == (|row: A11yNode| shows_target(row, target@)),
            nodes_of(exact@) == all.take(i as int).filter(shows),
            texts(names@) == node_names(all.take(i as int).filter(shows)),
        decreases rows.len() - i,
    {
        let row = rows[i];
        let ghost old_exact = exact@;
        let ghost old_names = names@;
        proof {
            reveal(Seq::filter);
            assert(all[i as int] == *row);
            assert(all.take(i + 1).drop_last() =~= all.take(i as int));
        }
        if row_shows_target(row, target) {
            exact.push(row);
            names.push(row.name.clone());
            assert(nodes_of(exact@) =~= nodes_of(old_exact).push(*row));
            assert(texts(names@) =~= texts(old_names).push(row.name@));
            assert(node_names(nodes_of(exact@)) =~= node_names(nodes_of(old_exact)).push(
                row.name@,
            ));
        }
        i += 1;
    }
    assert(all.take(all.len() as int) =~= all);
    if exact.len() == 1 {
        assert(nodes_of(exact@)[0] == *exact@[0]);
        Ok(exact[0])
    } else if exact.len() == 0 {
        Err(SendPlannerError::SearchTargetNotFound { query: target.to_owned() })
    } else {
        Err(SendPlannerError::SearchAmbiguous { query: target.to_owned(), candidates: names })
    }
}

// ---------------------------------------------------------------------------
// Search results
// ---------------------------------------------------------------------------

/// The texts of string slices.
pub open spec fn row_texts<'a>(rows: Seq<&'a str>) -> Seq<Seq<char>> {
    rows.map_values(|s: &'a str| s@)
}

/// Whether a search result may be chosen for `target`: it is no denied system account, and
/// the file helper only where it is asked for.
pub open spec fn is_choosable(row: Seq<char>, target: Seq<char>) -> bool {
    !is_denied_key(normalized(row)) && (is_same_chat(target, "filehelper"@) || !is_same_chat(
        row,
        "filehelper"@,
    ))
}

/// The search results that may be chosen for `target` and are its name.
pub open spec fn exact_rows(rows: Seq<Seq<char>>, target: Seq<char>) -> Seq<Seq<char>> {
    rows.filter(|row: Seq<char>| is_choosable(row, target) && is_same_chat(target, row))
}

/// The search results that may be chosen for `target` and hold its name.
pub open spec fn partial_rows(rows: Seq<Seq<char>>, target: Seq<char>) -> Seq<Seq<char>> {
    rows.filter(
        |row: Seq<char>|
            is_choosable(row, target) && has_part(normalized(row), normalized(target)),
    )
}

/// The search result to choose for `target`, or why there is none.
pub open spec fn search_row(rows: Seq<Seq<char>>, target: Seq<char>) -> Result<
    Seq<char>,
    Refusal,
> {
    let exact = exact_rows(rows, target);
    let partial = partial_rows(rows, target);
    if trimmed(target).len() == 0 {
        Err(Refusal::SearchTargetNotFound { query: target })
    } else if exact.len() == 1 {
        Ok(exact[0])
    } else if exact.len() > 1 {
        Err(Refusal::SearchAmbiguous { query: target, candidates: exact })
    } else if partial.len() > 1 {
        Err(Refusal::SearchAmbiguous { query: target, candidates: partial })
    } else {
        Err(Refusal::SearchTargetNotFound { query: target })
    }
}

/// Chooses the search result that is the name of the intended chat, and no other. Several
/// such results, or none, fail closed.
pub fn match_search_row<'a>(candidate_rows: &[&'a str], target: &str) -> (r: Result<
    &'a str,
    SendPlannerError,
>)
    ensures
        (match r {
            Ok(row) => Ok(row@),
            Err(e) => Err(e@),
        }) == search_row(row_texts(candidate_rows@), target@),
{
    let key = normalize(target);
    if key.as_str().is_empty() {
        return Err(SendPlannerError::SearchTargetNotFound { query: target.to_owned() });
    }
    let target_is_filehelper = is_target_chat_name_match(target, "filehelper");
    let ghost rows = row_texts(candidate_rows@);
    let ghost is_exact = |row: Seq<char>| is_choosable(row, target@) && is_same_chat(target@, row);
    let ghost is_partial = |row: Seq<char>|
        is_choosable(row, target@) && has_part(normalized(row), normalized(target@));
    let mut exact: Vec<&'a str> = Vec::new();
    let mut exact_names: Vec<String> = Vec::new();
    let mut partial_names: Vec<String> = Vec::new();
    let mut i: usize = 0;
    assert(rows.take(0).filter(is_exact) =~= Seq::<Seq<char>>::empty()) by {
        reveal(Seq::filter);
    }
    assert(rows.take(0).filter(is_partial) =~= Seq::<Seq<char>>::empty()) by {
        reveal(Seq::filter);
    }
    while i < candidate_rows.len()
        invariant
            i <= candidate_rows@.len(),
            rows == row_texts(candidate_rows@),
            key@ == normalized(target@),
            target_is_filehelper == is_same_chat(target@, "filehelper"@),
            is_exact == (|row: Seq<char>|
                is_choosable(row, target@) && is_same_chat(target@, row)),
            is_partial == (|row: Seq<char>|
                is_choosable(row, target@) && has_part(normalized(row), normalized(target@))),
            row_texts(exact@) == rows.take(i as int).filter(is_exact),
            texts(exact_names@) == rows.take(i as int).filter(is_exact),
            texts(partial_names@) == rows.take(i as int).filter(is_partial),
        decreases candidate_rows@.len() - i,
    {
        let row = candidate_rows[i];
        let ghost old_exact = exact@;
        let ghost old_exact_names = exact_names@;
        let ghost old_partial_names = partial_names@;
        proof {
            reveal(Seq::filter);
            assert(rows[i as int] == row@);
            assert(rows.take(i + 1).drop_last() =~= rows.take(i as int));
        }
        if !is_denied_system_chat(row) && (target_is_filehelper || !is_target_chat_name_match(
            row,
            "filehelper",
        )) {
            if is_target_chat_name_match(target, row) {
                exact.push(row);
                exact_names.push(row.to_owned());
                assert(row_texts(exact@) =~= row_texts(old_exact).push(row@));
                assert(texts(exact_names@) =~= texts(old_exact_names).push(row@));
            }
            let row_key = normalize(row);
            if contains(row_key.as_str(), key.as_str()) {
                partial_names.push(row.to_owned());
                assert(texts(partial_names@) =~= texts(old_partial_names).push(row@));
            }
        }
        i += 1;
    }
    assert(rows.take(rows.len() as int) =~= rows);
    assert(row_texts(exact@).len() == exact@.len());
    assert(texts(partial_names@).len() == partial_names@.len());
    if exact.len() == 1 {
        assert(row_texts(exact@)[0] == exact@[0]@);
        return Ok(exact[0]);
    }
    if exact.len() > 1 {
        return Err(
            SendPlannerError::SearchAmbiguous {
                query: target.to_owned(),
                candidates: exact_names,
            },
        );
    }
    if partial_names.len() > 1 {
        return Err(
            SendPlannerError::SearchAmbiguous {
                query: target.to_owned(),
                candidates: partial_names,
            },
        );
    }
    Err(SendPlannerError::SearchTargetNotFound { query: target.to_owned() })
}

// ---------------------------------------------------------------------------
// Laws
// ---------------------------------------------------------------------------

/// Only the active chat window counts: trees with the same active chat windows have the same open
/// chat, the same search box and the same rows, whatever other windows show.
pub proof fn law_other_windows_do_not_matter(a: A11yNode, b: A11yNode, target: Seq<char>)
    requires
        active_main_frames(a) == active_main_frames(b),
    ensures
        open_title(a) == open_title(b),
        target_check(a, target) == target_check(b, target),
        search_box(a) == search_box(b),
        target_row(a, target) == target_row(b, target),
{
}

/// Two different titles in one header are one too many: no chat counts as open.
pub proof fn law_conflicting_titles_are_no_title(frame: A11yNode, a: Seq<char>, b: Seq<char>)
    requires
        is_title(labels(frame), surface_left(frame), a),
        is_title(labels(frame), surface_left(frame), b),
        a != b,
    ensures
        frame_title(frame) is None,
{
}

/// A title that the header gives, once or several times, and no other beside it, is the title.
pub proof fn law_agreeing_titles_are_the_title(frame: A11yNode, title: Seq<char>)
    requires
        is_title(labels(frame), surface_left(frame), title),
        forall|other: Seq<char>|
            is_title(labels(frame), surface_left(frame), other) ==> other == title,
    ensures
        frame_title(frame) == Some(title),
{
    assert(is_only_title(labels(frame), surface_left(frame), title));
}

/// A chat that is verified is open in the one active chat window, under one of its names.
pub proof fn law_verified_chat_is_open(root: A11yNode, expected: Seq<char>)
    requires
        target_check(root, expected) == Ok::<bool, Refusal>(true),
    ensures
        active_main_frame(root) is Ok,
        open_title(root) is Some,
        is_same_chat(expected, open_title(root)->Some_0),
        is_title(
            labels(active_main_frame(root)->Ok_0),
            surface_left(active_main_frame(root)->Ok_0),
            open_title(root)->Some_0,
        ),
{
}

/// A chat is verified as the one that is open under all of its names or under none.
pub proof fn law_names_of_a_chat_verify_alike(root: A11yNode, a: Seq<char>, b: Seq<char>)
    requires
        is_same_chat(a, b),
    ensures
        target_check(root, a) == Ok::<bool, Refusal>(true) <==> target_check(root, b) == Ok::<
            bool,
            Refusal,
        >(true),
        target_check(root, a) is Err <==> target_check(root, b) is Err,
{
}

/// Whether `path` leads from `node` to one of its descendants, or is empty.
pub open spec fn leads(node: A11yNode, path: Seq<int>) -> bool
    decreases path.len(),
{
    path.len() == 0 || (0 <= path[0] < children_of(node).len() && leads(
        children_of(node)[path[0]],
        path.drop_first(),
    ))
}

/// The node that `path` leads to from `node`.
pub open spec fn node_at(node: A11yNode, path: Seq<int>) -> A11yNode
    decreases path.len(),
{
    if path.len() == 0 {
        node
    } else {
        node_at(children_of(node)[path[0]], path.drop_first())
    }
}

/// Whether the node that `path` leads to is the edit box of a composer.
pub open spec fn composed_at(node: A11yNode, path: Seq<int>) -> bool
    decreases path.len(),
{
    if path.len() == 0 {
        false
    } else if path.len() == 1 {
        is_composer_edit(children_of(node), path[0])
    } else {
        composed_at(children_of(node)[path[0]], path.drop_first())
    }
}

proof fn lemma_free_edit_box_path(node: A11yNode, composed: bool, k: int) -> (path: Seq<int>)
    requires
        0 <= k < free_edit_boxes(node, composed).len(),
    ensures
        leads(node, path),
        node_at(node, path) == free_edit_boxes(node, composed)[k],
        !composed_at(node, path),
        path.len() == 0 ==> !composed,
        is_edit_box(free_edit_boxes(node, composed)[k]),
        free_edit_boxes(node, composed)[k].bounds is Some,
    decreases node, 0nat,
{
    let own = if !composed && is_edit_box(node) && node.bounds is Some {
        seq![node]
    } else {
        Seq::empty()
    };
    if k < own.len() {
        Seq::empty()
    } else {
        lemma_free_edit_box_path_in(node, children_of(node), children_of(node).len(), k - own.len())
    }
}

proof fn lemma_free_edit_box_path_in(
    node: A11yNode,
    nodes: Seq<A11yNode>,
    n: nat,
    k: int,
) -> (path: Seq<int>)
    requires
        nodes == children_of(node),
        n <= nodes.len(),
        0 <= k < free_edit_boxes_in(nodes, n).len(),
    ensures
        path.len() > 0,
        leads(node, path),
        node_at(node, path) == free_edit_boxes_in(nodes, n)[k],
        !composed_at(node, path),
        is_edit_box(free_edit_boxes_in(nodes, n)[k]),
        free_edit_boxes_in(nodes, n)[k].bounds is Some,
    decreases nodes, n,
{
    let before = free_edit_boxes_in(nodes, (n - 1) as nat);
    if k < before.len() {
        lemma_free_edit_box_path_in(node, nodes, (n - 1) as nat, k)
    } else {
        let sub = lemma_free_edit_box_path(
            nodes[n - 1],
            is_composer_edit(nodes, n - 1),
            k - before.len(),
        );
        let path = seq![n - 1] + sub;
        assert(path.drop_first() =~= sub);
        path
    }
}

/// The search box is never the edit box of a composer: from the active chat window a path leads to
/// a visible edit box, which is the search box and belongs to no composer.
pub proof fn law_search_box_is_no_composer(root: A11yNode) -> (path: Seq<int>)
    requires
        search_box(root) is Ok,
    ensures
        active_main_frame(root) is Ok,
        leads(active_main_frame(root)->Ok_0, path),
        node_at(active_main_frame(root)->Ok_0, path) == search_box(root)->Ok_0,
        !composed_at(active_main_frame(root)->Ok_0, path),
        is_edit_box(search_box(root)->Ok_0),
        search_box(root)->Ok_0.bounds is Some,
{
    let frame = active_main_frame(root)->Ok_0;
    let boxes = free_edit_boxes(frame, false);
    let named = boxes.filter(|n: A11yNode| is_named_search(n));
    let k = if named.len() == 1 {
        lemma_filter_from(boxes, |n: A11yNode| is_named_search(n), 0)
    } else {
        lemma_filter_from(boxes, |n: A11yNode| is_topmost(n, boxes), 0)
    };
    lemma_free_edit_box_path(frame, false, k)
}

/// Whether the tree of `node` holds a list whose rows are chats or search results.
pub open spec fn has_row_list(node: A11yNode) -> bool
    decreases node, 0nat,
{
    ||| has_role(node, "list"@) && is_row_list_key(normalized(node.name@))
    ||| children_of(node).len() > 0 && has_row_list_in(children_of(node), children_of(node).len())
}

/// Whether one of the trees of the first `n` nodes holds such a list.
pub open spec fn has_row_list_in(nodes: Seq<A11yNode>, n: nat) -> bool
    decreases nodes, n,
{
    if n == 0 || n > nodes.len() {
        false
    } else {
        has_row_list_in(nodes, (n - 1) as nat) || has_row_list(nodes[n - 1])
    }
}

/// Rows outside the lists of chats and search results, such as those of the list of messages, are
/// no chat rows: a tree without such a list has none.
pub proof fn law_rows_come_from_row_lists(node: A11yNode)
    requires
        !has_row_list(node),
    ensures
        chat_rows(node, false).len() == 0,
    decreases node, 0nat,
{
    if children_of(node).len() > 0 {
        lemma_no_rows_in(children_of(node), children_of(node).len());
    }
}

proof fn lemma_no_rows_in(nodes: Seq<A11yNode>, n: nat)
    requires
        n <= nodes.len(),
        !has_row_list_in(nodes, n),
    ensures
        chat_rows_in(nodes, n, false).len() == 0,
    decreases nodes, n,
{
    if n > 0 {
        lemma_no_rows_in(nodes, (n - 1) as nat);
        law_rows_come_from_row_lists(nodes[n - 1]);
    }
}

proof fn lemma_chat_row(node: A11yNode, eligible: bool, k: int)
    requires
        0 <= k < chat_rows(node, eligible).len(),
    ensures
        has_role(chat_rows(node, eligible)[k], "list-item"@),
        chat_rows(node, eligible)[k].bounds is Some,
    decreases node, 0nat,
{
    let own = if has_role(node, "list-item"@) && eligible && node.bounds is Some {
        seq![node]
    } else {
        Seq::empty()
    };
    if k >= own.len() {
        lemma_chat_row_in(
            children_of(node),
            children_of(node).len(),
            rows_below(node, eligible),
            k - own.len(),
        );
    }
}

proof fn lemma_chat_row_in(nodes: Seq<A11yNode>, n: nat, eligible: bool, k: int)
    requires
        n <= nodes.len(),
        0 <= k < chat_rows_in(nodes, n, eligible).len(),
    ensures
        has_role(chat_rows_in(nodes, n, eligible)[k], "list-item"@),
        chat_rows_in(nodes, n, eligible)[k].bounds is Some,
    decreases nodes, n,
{
    let before = chat_rows_in(nodes, (n - 1) as nat, eligible);
    if k < before.len() {
        lemma_chat_row_in(nodes, (n - 1) as nat, eligible, k);
    } else {
        lemma_chat_row(nodes[n - 1], eligible, k - before.len());
    }
}

/// The row that a resolution gives is a visible row of a list of chats or search results in the
/// active chat window, shows the name of the target, and is the only one that does.
pub proof fn law_target_row(root: A11yNode, target: Seq<char>)
    requires
        target_row(root, target) is Ok,
    ensures
        ({
            let rows = chat_rows(active_main_frame(root)->Ok_0, false);
            let row = target_row(root, target)->Ok_0;
            &&& active_main_frame(root) is Ok
            &&& rows.contains(row)
            &&& has_role(row, "list-item"@)
            &&& row.bounds is Some
            &&& shows_target(row, target)
            &&& forall|i: int, j: int|
                0 <= i < rows.len() && 0 <= j < rows.len() && shows_target(
                    #[trigger] rows[i],
                    target,
                ) && shows_target(#[trigger] rows[j], target) ==> i == j
        }),
{
    let frame = active_main_frame(root)->Ok_0;
    let rows = chat_rows(frame, false);
    let keep = |row: A11yNode| shows_target(row, target);
    let k = lemma_filter_from(rows, keep, 0);
    assert(rows[k] == target_row(root, target)->Ok_0);
    lemma_chat_row(frame, false, k);
    assert forall|i: int, j: int|
        0 <= i < rows.len() && 0 <= j < rows.len() && shows_target(#[trigger] rows[i], target)
            && shows_target(#[trigger] rows[j], target) implies i == j by {
        lemma_filter_one(rows, keep, i, j);
    }
}

/// The search result that is chosen is one of the results, a name of the target, no denied system
/// account, and the file helper only where that is the target. It is the only result of that kind:
/// nothing is chosen for being the first, or for holding the name as a part.
pub proof fn law_chosen_result_is_the_target(rows: Seq<Seq<char>>, target: Seq<char>)
    requires
        search_row(rows, target) is Ok,
    ensures
        ({
            let row = search_row(rows, target)->Ok_0;
            &&& rows.contains(row)
            &&& is_same_chat(target, row)
            &&& !is_denied_key(normalized(row))
            &&& is_same_chat(row, "filehelper"@) ==> is_same_chat(target, "filehelper"@)
        }),
        forall|i: int, j: int|
            0 <= i < rows.len() && 0 <= j < rows.len() && is_choosable(
                #[trigger] rows[i],
                target,
            ) && is_same_chat(target, rows[i]) && is_choosable(#[trigger] rows[j], target)
                && is_same_chat(target, rows[j]) ==> i == j,
{
    let keep = |row: Seq<char>| is_choosable(row, target) && is_same_chat(target, row);
    let k = lemma_filter_from(rows, keep, 0);
    assert(rows[k] == search_row(rows, target)->Ok_0);
    assert forall|i: int, j: int|
        0 <= i < rows.len() && 0 <= j < rows.len() && is_choosable(#[trigger] rows[i], target)
            && is_same_chat(target, rows[i]) && is_choosable(#[trigger] rows[j], target)
            && is_same_chat(target, rows[j]) implies i == j by {
        lemma_filter_one(rows, keep, i, j);
    }
}

/// A denied system account is never found, whatever the results are.
pub proof fn law_denied_target_is_not_found(rows: Seq<Seq<char>>, target: Seq<char>)
    requires
        is_denied_key(normalized(target)),
    ensures
        search_row(rows, target) is Err,
{
    if search_row(rows, target) is Ok {
        law_chosen_result_is_the_target(rows, target);
        reveal_strlit("微信团队");
        reveal_strlit("wechat team");
        reveal_strlit("weixin team");
        reveal_strlit("filehelper");
        reveal_strlit("file transfer");
        reveal_strlit("文件传输助手");
        let key = normalized(target);
        assert(!is_filehelper_key(key)) by {
            assert("微信团队"@.len() == 4);
            assert("wechat team"@.len() == 11);
            assert("weixin team"@.len() == 11);
            assert("filehelper"@.len() == 10);
            assert("file transfer"@.len() == 13);
            assert("文件传输助手"@.len() == 6);
        }
    }
}

/// Whether the search result at `i` may be chosen for `target` and is its name.
pub open spec fn matches_target(rows: Seq<Seq<char>>, target: Seq<char>, i: int) -> bool {
    0 <= i < rows.len() && is_choosable(rows[i], target) && is_same_chat(target, rows[i])
}

/// Whether the search result at `i` is the only one that may be chosen and is the name of `target`.
pub open spec fn is_only_match(rows: Seq<Seq<char>>, target: Seq<char>, i: int) -> bool {
    matches_target(rows, target, i) && forall|j: int|
        #[trigger] matches_target(rows, target, j) ==> j == i
}

/// A search result is chosen exactly where the target is not blank and one place among the results
/// is its name. It is handed out as it stands there.
pub proof fn law_only_match_is_chosen(rows: Seq<Seq<char>>, target: Seq<char>)
    ensures
        search_row(rows, target) is Ok <==> trimmed(target).len() > 0 && exists|i: int|
            is_only_match(rows, target, i),
        forall|i: int|
            trimmed(target).len() > 0 && #[trigger] is_only_match(rows, target, i) ==> search_row(
                rows,
                target,
            ) == Ok::<Seq<char>, Refusal>(rows[i]),
{
    let keep = |row: Seq<char>| is_choosable(row, target) && is_same_chat(target, row);
    assert forall|i: int|
        trimmed(target).len() > 0 && #[trigger] is_only_match(rows, target, i) implies search_row(
        rows,
        target,
    ) == Ok::<Seq<char>, Refusal>(rows[i]) by {
        assert forall|j: int| 0 <= j < rows.len() && #[trigger] keep(rows[j]) implies j == i by {
            assert(matches_target(rows, target, j));
        }
        lemma_filter_only(rows, keep, i);
    }
    if search_row(rows, target) is Ok {
        let k = lemma_filter_from(rows, keep, 0);
        assert forall|j: int| #[trigger] matches_target(rows, target, j) implies j == k by {
            lemma_filter_one(rows, keep, j, k);
        }
        assert(is_only_match(rows, target, k));
    }
}

/// Why no search result is chosen: a blank target is not found; several names of the target are
/// ambiguous, and so are several results that hold its name where none is it; else the target is
/// not found, even where a single result holds its name. The results are listed in their order,
/// repeats and all, and the target is given back as it was asked for.
pub proof fn law_search_refusals(rows: Seq<Seq<char>>, target: Seq<char>)
    requires
        search_row(rows, target) is Err,
    ensures
        search_row(rows, target)->Err_0 == (if trimmed(target).len() > 0 && exact_rows(
            rows,
            target,
        ).len() > 1 {
            Refusal::SearchAmbiguous { query: target, candidates: exact_rows(rows, target) }
        } else if trimmed(target).len() > 0 && exact_rows(rows, target).len() == 0 && partial_rows(
            rows,
            target,
        ).len() > 1 {
            Refusal::SearchAmbiguous { query: target, candidates: partial_rows(rows, target) }
        } else {
            Refusal::SearchTargetNotFound { query: target }
        }),
        exact_rows(rows, target).len() > 1 <==> exists|i: int, j: int|
            i < j && #[trigger] matches_target(rows, target, i) && #[trigger] matches_target(
                rows,
                target,
                j,
            ),
{
    let keep = |row: Seq<char>| is_choosable(row, target) && is_same_chat(target, row);
    if exact_rows(rows, target).len() > 1 {
        let i = lemma_filter_from(rows, keep, 0);
        assert(matches_target(rows, target, i));
        if forall|j: int| #[trigger] matches_target(rows, target, j) ==> j == i {
            assert forall|j: int| 0 <= j < rows.len() && #[trigger] keep(rows[j]) implies j
                == i by {
                assert(matches_target(rows, target, j));
            }
            lemma_filter_only(rows, keep, i);
        }
        let j = choose|j: int| #[trigger] matches_target(rows, target, j) && j != i;
        if i < j {
            assert(matches_target(rows, target, i) && matches_target(rows, target, j));
        } else {
            assert(matches_target(rows, target, j) && matches_target(rows, target, i));
        }
    } else {
        assert forall|i: int, j: int|
            #[trigger] matches_target(rows, target, i) && #[trigger] matches_target(
                rows,
                target,
                j,
            ) implies i == j by {
            lemma_filter_one(rows, keep, i, j);
        }
    }
}

/// The place of a box that stands no lower than any of the first `n`.
proof fn lemma_highest(boxes: Seq<A11yNode>, n: nat) -> (k: int)
    requires
        0 < n <= boxes.len(),
    ensures
        0 <= k < n,
        forall|j: int|
            0 <= j < n ==> boxes[k].bounds->Some_0.y <= (#[trigger] boxes[j]).bounds->Some_0.y,
    decreases n,
{
    if n == 1 {
        0
    } else {
        let k = lemma_highest(boxes, (n - 1) as nat);
        if boxes[n - 1].bounds->Some_0.y < boxes[k].bounds->Some_0.y {
            n - 1
        } else {
            k
        }
    }
}

/// Whether the box at `i` is the only one that is named as a search box.
pub open spec fn is_only_named(boxes: Seq<A11yNode>, i: int) -> bool {
    &&& 0 <= i < boxes.len()
    &&& is_named_search(boxes[i])
    &&& forall|j: int| 0 <= j < boxes.len() && is_named_search(#[trigger] boxes[j]) ==> j == i
}

/// Whether no box is named as a search box and every other box stands at least a pixel below the
/// one at `i`.
pub open spec fn is_clearly_topmost(boxes: Seq<A11yNode>, i: int) -> bool {
    &&& 0 <= i < boxes.len()
    &&& forall|j: int| 0 <= j < boxes.len() ==> !is_named_search(#[trigger] boxes[j])
    &&& forall|j: int|
        0 <= j < boxes.len() && j != i ==> (#[trigger] boxes[j]).bounds->Some_0.y
            - boxes[i].bounds->Some_0.y >= SUBPIXELS
}

/// Whether the box at `i` is the one to choose.
pub open spec fn is_box_to_choose(boxes: Seq<A11yNode>, i: int) -> bool {
    is_only_named(boxes, i) || is_clearly_topmost(boxes, i)
}

proof fn lemma_topmost_is_clear(boxes: Seq<A11yNode>, i: int)
    requires
        0 <= i < boxes.len(),
        boxes.filter(|n: A11yNode| is_topmost(n, boxes)).len() == 1,
        is_topmost(boxes[i], boxes),
    ensures
        forall|j: int|
            0 <= j < boxes.len() && j != i ==> (#[trigger] boxes[j]).bounds->Some_0.y
                - boxes[i].bounds->Some_0.y >= SUBPIXELS,
{
    let top = |n: A11yNode| is_topmost(n, boxes);
    let k = lemma_highest(boxes, boxes.len());
    assert(is_topmost(boxes[k], boxes));
    lemma_filter_one(boxes, top, i, k);
    assert forall|j: int| 0 <= j < boxes.len() && j != i implies (
    #[trigger] boxes[j]).bounds->Some_0.y - boxes[i].bounds->Some_0.y >= SUBPIXELS by {
        if boxes[j].bounds->Some_0.y - boxes[i].bounds->Some_0.y < SUBPIXELS {
            assert(is_topmost(boxes[j], boxes));
            lemma_filter_one(boxes, top, i, j);
        }
    }
}

proof fn lemma_chosen_box(boxes: Seq<A11yNode>)
    ensures
        search_box_among(boxes) is Ok <==> exists|i: int| is_box_to_choose(boxes, i),
        forall|i: int| #[trigger]
            is_box_to_choose(boxes, i) ==> search_box_among(boxes) == Ok::<A11yNode, Refusal>(
                boxes[i],
            ),
{
    let name = |n: A11yNode| is_named_search(n);
    let top = |n: A11yNode| is_topmost(n, boxes);
    let named = boxes.filter(name);
    let topmost = boxes.filter(top);
    assert forall|i: int| #[trigger] is_box_to_choose(boxes, i) implies search_box_among(boxes)
        == Ok::<A11yNode, Refusal>(boxes[i]) by {
        if is_only_named(boxes, i) {
            assert forall|j: int| 0 <= j < boxes.len() && #[trigger] name(boxes[j]) implies j
                == i by {}
            lemma_filter_only(boxes, name, i);
        } else {
            if named.len() > 0 {
                let j = lemma_filter_from(boxes, name, 0);
            }
            assert forall|j: int| 0 <= j < boxes.len() && #[trigger] top(boxes[j]) implies j
                == i by {
                assert(boxes[j].bounds->Some_0.y - boxes[i].bounds->Some_0.y < SUBPIXELS);
            }
            assert(is_topmost(boxes[i], boxes));
            assert(top(boxes[i]));
            lemma_filter_only(boxes, top, i);
        }
    }
    if search_box_among(boxes) is Ok {
        if named.len() == 1 {
            let i = lemma_filter_from(boxes, name, 0);
            assert forall|j: int|
                0 <= j < boxes.len() && is_named_search(#[trigger] boxes[j]) implies j == i by {
                lemma_filter_one(boxes, name, i, j);
            }
            assert(is_box_to_choose(boxes, i));
        } else {
            let i = lemma_filter_from(boxes, top, 0);
            lemma_topmost_is_clear(boxes, i);
            assert forall|j: int| 0 <= j < boxes.len() implies !is_named_search(
                #[trigger] boxes[j],
            ) by {
                if is_named_search(boxes[j]) {
                    lemma_filter_some(boxes, name, j);
                }
            }
            assert(is_box_to_choose(boxes, i));
        }
    }
}

/// Of the free edit boxes of the active chat window, all of which have bounds, one is chosen exactly
/// where it is the only one that is named as a search box, or where none is named so and every other
/// box stands at least a pixel below it.
pub proof fn law_search_box_stands_out(root: A11yNode)
    requires
        active_main_frame(root) is Ok,
    ensures
        ({
            let boxes = free_edit_boxes(active_main_frame(root)->Ok_0, false);
            &&& forall|i: int| 0 <= i < boxes.len() ==> (#[trigger] boxes[i]).bounds is Some
            &&& search_box(root) is Ok <==> exists|i: int| is_box_to_choose(boxes, i)
            &&& forall|i: int| #[trigger]
                is_box_to_choose(boxes, i) ==> search_box(root) == Ok::<A11yNode, Refusal>(boxes[i])
        }),
{
    let frame = active_main_frame(root)->Ok_0;
    lemma_free_edit_boxes_have_bounds(frame, false);
    lemma_chosen_box(free_edit_boxes(frame, false));
}

/// Why no search box is chosen: without an active chat window its refusal is passed on; without a
/// free edit box there is none; else several are named so, or none is and several stand level at the
/// top, and the refusal says how many.
pub proof fn law_search_box_refusals(root: A11yNode)
    requires
        search_box(root) is Err,
    ensures
        ({
            let frame = active_main_frame(root);
            let boxes = free_edit_boxes(frame->Ok_0, false);
            let named = boxes.filter(|n: A11yNode| is_named_search(n));
            let topmost = boxes.filter(|n: A11yNode| is_topmost(n, boxes));
            &&& search_box(root)->Err_0 == (if frame is Err {
                frame->Err_0
            } else if boxes.len() == 0 {
                Refusal::SearchBoxNotFound
            } else if named.len() > 0 {
                Refusal::SearchBoxAmbiguous { count: named.len() }
            } else {
                Refusal::SearchBoxAmbiguous { count: topmost.len() }
            })
            &&& frame is Ok && boxes.len() > 0 ==> named.len() >= 2 || (named.len() == 0
                && topmost.len() >= 2)
        }),
{
    if active_main_frame(root) is Ok {
        let boxes = free_edit_boxes(active_main_frame(root)->Ok_0, false);
        let top = |n: A11yNode| is_topmost(n, boxes);
        if boxes.len() > 0 {
            let k = lemma_highest(boxes, boxes.len());
            assert(is_topmost(boxes[k], boxes));
            assert(top(boxes[k]));
            lemma_filter_some(boxes, top, k);
        }
    }
}

// ---------------------------------------------------------------------------
// Laws: which chat is open, and which row is the target
// ---------------------------------------------------------------------------

/// The chat surface begins where the list of chats ends, or at 272 pixels where there is no list
/// that can be seen.
pub proof fn law_surface_begins_at_the_list(frame: A11yNode)
    ensures
        chat_list(frame) is Some && chat_list(frame)->Some_0.bounds is Some ==> surface_left(frame)
            == chat_list(frame)->Some_0.bounds->Some_0.x + chat_list(
            frame,
        )->Some_0.bounds->Some_0.width,
        chat_list(frame) is None || chat_list(frame)->Some_0.bounds is None ==> surface_left(frame)
            == 272 * 65536,
{
}

/// A label gives the title of a chat where it stands on the chat surface, less than 80 pixels from
/// the top, is not blank, and speaks neither of sending nor of the client. The title is the chat
/// that it names.
pub proof fn law_titles_come_from_the_header(all: Seq<A11yNode>, left: int, title: Seq<char>)
    ensures
        is_title(all, left, title) <==> title.len() > 0 && exists|i: int| {
            &&& 0 <= i < all.len()
            &&& (#[trigger] all[i]).bounds is Some
            &&& all[i].bounds->Some_0.x >= left
            &&& all[i].bounds->Some_0.y < 80 * 65536
            &&& trimmed(all[i].name@).len() > 0
            &&& !has_part(all[i].name@, "Send"@)
            &&& !has_part(all[i].name@, "WeChat"@)
            &&& !has_part(all[i].name@, "Weixin"@)
            &&& chat_of_title(all[i].name@) == title
        },
{
    if is_title(all, left, title) {
        let i = choose|i: int|
            0 <= i < all.len() && is_header_label(#[trigger] all[i], left) && chat_of_title(
                all[i].name@,
            ) == title;
        assert(all[i].bounds is Some);
    }
}

/// The open chat is the one whose title the header of the active chat window gives: the title where
/// all that give one agree, and none where none does, where two differ, or where no single chat
/// window is active.
pub proof fn law_open_chat_has_the_one_title(root: A11yNode, title: Seq<char>)
    ensures
        open_title(root) == Some(title) <==> active_main_frame(root) is Ok && ({
            let frame = active_main_frame(root)->Ok_0;
            &&& is_title(labels(frame), surface_left(frame), title)
            &&& forall|other: Seq<char>|
                is_title(labels(frame), surface_left(frame), other) ==> other == title
        }),
{
    if active_main_frame(root) is Ok {
        let frame = active_main_frame(root)->Ok_0;
        if exists|t: Seq<char>| is_only_title(labels(frame), surface_left(frame), t) {
            let t = choose|t: Seq<char>| is_only_title(labels(frame), surface_left(frame), t);
            assert(is_only_title(labels(frame), surface_left(frame), t));
        }
        if is_title(labels(frame), surface_left(frame), title) && forall|other: Seq<char>|
            is_title(labels(frame), surface_left(frame), other) ==> other == title {
            assert(is_only_title(labels(frame), surface_left(frame), title));
        }
    }
}

/// A chat is verified where it is the one that is open. Where another is open the refusal names
/// both. Where none is open, that is all that is said.
pub proof fn law_open_chat_is_verified(root: A11yNode, expected: Seq<char>)
    ensures
        open_title(root) is None ==> target_check(root, expected) == Ok::<bool, Refusal>(false),
        open_title(root) is Some && is_same_chat(expected, open_title(root)->Some_0)
            ==> target_check(root, expected) == Ok::<bool, Refusal>(true),
        open_title(root) is Some && !is_same_chat(expected, open_title(root)->Some_0)
            ==> target_check(root, expected) == Err::<bool, Refusal>(
            Refusal::TargetNotVerified { expected, actual: Some(open_title(root)->Some_0) },
        ),
{
}

/// A row shows a chat where a name in its tree, trimmed and not blank, is one of the names of the
/// chat.
pub proof fn law_rows_show_names(row: A11yNode, target: Seq<char>)
    ensures
        shows_target(row, target) <==> exists|name: Seq<char>|
            descendant_names(row).contains(name) && #[trigger] is_same_chat(target, name),
{
    let names = descendant_names(row);
    if shows_target(row, target) {
        let i = choose|i: int| 0 <= i < names.len() && is_same_chat(target, #[trigger] names[i]);
        assert(names.contains(names[i]));
    }
    if exists|name: Seq<char>| names.contains(name) && #[trigger] is_same_chat(target, name) {
        let name = choose|name: Seq<char>|
            names.contains(name) && #[trigger] is_same_chat(target, name);
        let i = choose|i: int| 0 <= i < names.len() && names[i] == name;
        assert(is_same_chat(target, names[i]));
    }
}

/// Whether the chat row at `k` of the active chat window shows the target.
pub open spec fn row_shows(root: A11yNode, target: Seq<char>, k: int) -> bool {
    &&& active_main_frame(root) is Ok
    &&& 0 <= k < chat_rows(active_main_frame(root)->Ok_0, false).len()
    &&& shows_target(chat_rows(active_main_frame(root)->Ok_0, false)[k], target)
}

/// The only row that shows the target is found. Where no row does, the target is not found; where
/// several do, all of them are named, in their order; without a single active chat window its
/// refusal is passed on.
pub proof fn law_only_row_is_found(root: A11yNode, target: Seq<char>, k: int)
    ensures
        active_main_frame(root) is Err ==> target_row(root, target) == active_main_frame(root),
        row_shows(root, target, k) && (forall|j: int| #[trigger]
            row_shows(root, target, j) ==> j == k) ==> target_row(root, target) == Ok::<
            A11yNode,
            Refusal,
        >(chat_rows(active_main_frame(root)->Ok_0, false)[k]),
        active_main_frame(root) is Ok && (forall|j: int| !#[trigger] row_shows(root, target, j))
            ==> target_row(root, target) == Err::<A11yNode, Refusal>(
            Refusal::SearchTargetNotFound { query: target },
        ),
        forall|j: int|
            j != k && row_shows(root, target, k) && #[trigger] row_shows(root, target, j)
                ==> target_row(root, target) == Err::<A11yNode, Refusal>(
                Refusal::SearchAmbiguous {
                    query: target,
                    candidates: chat_rows(active_main_frame(root)->Ok_0, false).filter(
                        |row: A11yNode| shows_target(row, target),
                    ).map_values(|row: A11yNode| row.name@),
                },
            ),
{
    if active_main_frame(root) is Ok {
        let rows = chat_rows(active_main_frame(root)->Ok_0, false);
        let keep = |row: A11yNode| shows_target(row, target);
        if row_shows(root, target, k) && forall|j: int| #[trigger]
            row_shows(root, target, j) ==> j == k {
            assert forall|j: int| 0 <= j < rows.len() && #[trigger] keep(rows[j]) implies j == k by {
                assert(row_shows(root, target, j));
            }
            assert(keep(rows[k]));
            lemma_filter_only(rows, keep, k);
        }
        if (forall|j: int| !#[trigger] row_shows(root, target, j)) && rows.filter(keep).len() > 0 {
            let j = lemma_filter_from(rows, keep, 0);
            assert(row_shows(root, target, j));
        }
        assert forall|j: int|
            j != k && row_shows(root, target, k) && #[trigger] row_shows(root, target, j) implies rows.filter(
            keep).len() > 1 by {
            assert(keep(rows[k]) && keep(rows[j]));
            if rows.filter(keep).len() <= 1 {
                lemma_filter_one(rows, keep, j, k);
            }
        }
    }
}

/// A search result may be chosen unless it is the team of the client, or the file helper where
/// another chat is the target.
pub proof fn law_choosable_results(row: Seq<char>, target: Seq<char>)
    ensures
        is_choosable(row, target) <==> !is_denied_key(normalized(row)) && (is_same_chat(
            row,
            "filehelper"@,
        ) ==> is_same_chat(target, "filehelper"@)),
{
}

/// The results that are listed in a refusal are those that may be chosen and are names of the
/// target, or hold its name, in their order.
pub proof fn law_listed_results(rows: Seq<Seq<char>>, target: Seq<char>)
    ensures
        exact_rows(rows, target) == rows.filter(
            |row: Seq<char>| is_choosable(row, target) && is_same_chat(target, row),
        ),
        partial_rows(rows, target) == rows.filter(
            |row: Seq<char>|
                is_choosable(row, target) && has_part(normalized(row), normalized(target)),
        ),
{
}

/// A box is named as a search box by its name, whatever its case and the white space around it.
pub proof fn law_search_boxes_are_named(node: A11yNode)
    ensures
        is_named_search(node) <==> normalized(node.name@) == "搜索"@ || has_part(
            normalized(node.name@),
            "search"@,
        ),
{
    law_search_names(normalized(node.name@));
}

/// The edit box of a composer is the first edit box among siblings of which one is a send button.
pub proof fn law_edit_box_of_a_composer(nodes: Seq<A11yNode>, i: int)
    ensures
        is_composer_edit(nodes, i) <==> {
            &&& 0 <= i < nodes.len()
            &&& is_edit_box(nodes[i])
            &&& forall|j: int| 0 <= j < i ==> !is_edit_box(#[trigger] nodes[j])
            &&& exists|j: int| 0 <= j < nodes.len() && is_send_button(#[trigger] nodes[j])
        },
{
    if composer_position(nodes) is Some {
        let (edit, send) = composer_position(nodes)->Some_0;
        law_siblings_make_a_composer(nodes, edit, send);
        assert(is_send_button(nodes[send]));
        if 0 <= i < nodes.len() && is_edit_box(nodes[i]) && forall|j: int|
            0 <= j < i ==> !is_edit_box(#[trigger] nodes[j]) {
            assert(is_edit_box(nodes[edit]));
            assert(i == edit);
        }
    } else {
        law_siblings_make_a_composer(nodes, i, 0);
    }
}

/// Nodes and texts behind references are theirs, one for one.
pub proof fn law_references_say_all<'a>(
    refs: Seq<&'a A11yNode>,
    rows: Seq<&'a str>,
    nodes: Seq<A11yNode>,
    i: int,
)
    ensures
        nodes_of(refs).len() == refs.len(),
        0 <= i < refs.len() ==> nodes_of(refs)[i] == *refs[i],
        row_texts(rows).len() == rows.len(),
        0 <= i < rows.len() ==> row_texts(rows)[i] == rows[i]@,
        node_names(nodes).len() == nodes.len(),
        0 <= i < nodes.len() ==> node_names(nodes)[i] == nodes[i].name@,
{
}

/// A box is among the topmost where no box stands a pixel or more above it.
pub proof fn law_topmost_boxes(node: A11yNode, nodes: Seq<A11yNode>)
    ensures
        is_topmost(node, nodes) <==> !exists|i: int|
            0 <= i < nodes.len() && (#[trigger] nodes[i]).bounds->Some_0.y + 65536
                <= node.bounds->Some_0.y,
{
}

} // verus!
