//! Send-safe resolution over trees with several frames: which frame, composer, title, search
//! box and row a send may rely on. Every ambiguity fails closed.

use crate::a11y::{
    A11yNode, Bounds, children_of, first_where, has_role, has_state, is_send_button_name,
    is_send_label, lemma_first_where, node_has_state, role_is,
};
use crate::seqs::{
    lemma_filter_from, lemma_filter_one, lemma_filter_only, lemma_filter_same, lemma_filter_some,
    lemma_filter_twice,
};
use crate::text::{decimal, decimal_text, normalized, opt_text, texts};
use crate::titles::{
    is_auxiliary_key, is_auxiliary_or_stale_frame, is_main_frame_key, is_main_wechat_frame_name,
};
use vstd::prelude::*;

verus! {

// ---------------------------------------------------------------------------
// Diagnostics
// ---------------------------------------------------------------------------

/// Why the send planner refused to act.
#[derive(Debug, Clone, PartialEq, Eq)]
pub enum SendPlannerError {
    /// No pair of an edit box and a send button exists in the active chat window.
    ComposerNotFound,
    /// Several composers are eligible and none stands out.
    ComposerAmbiguous { count: usize },
    /// No main frame is active.
    ActiveMainFrameNotFound,
    /// Several main frames are active.
    ActiveMainFrameAmbiguous { count: usize },
    /// The active main frame has no safe search box.
    SearchBoxNotFound,
    /// Several search boxes are equally eligible.
    SearchBoxAmbiguous { count: usize },
    /// The open chat is not that of the intended recipient.
    TargetNotVerified { expected: String, actual: Option<String> },
    /// Several rows match the searched name.
    SearchAmbiguous { query: String, candidates: Vec<String> },
    /// No row matches the searched name.
    SearchTargetNotFound { query: String },
}

/// What a [`SendPlannerError`] says.
pub enum Refusal {
    ComposerNotFound,
    ComposerAmbiguous { count: nat },
    ActiveMainFrameNotFound,
    ActiveMainFrameAmbiguous { count: nat },
    SearchBoxNotFound,
    SearchBoxAmbiguous { count: nat },
    TargetNotVerified { expected: Seq<char>, actual: Option<Seq<char>> },
    SearchAmbiguous { query: Seq<char>, candidates: Seq<Seq<char>> },
    SearchTargetNotFound { query: Seq<char> },
}

impl View for SendPlannerError {
    type V = Refusal;

    open spec fn view(&self) -> Refusal {
        match *self {
            SendPlannerError::ComposerNotFound => Refusal::ComposerNotFound,
            SendPlannerError::ComposerAmbiguous { count } => Refusal::ComposerAmbiguous {
                count: count as nat,
            },
            SendPlannerError::ActiveMainFrameNotFound => Refusal::ActiveMainFrameNotFound,
            SendPlannerError::ActiveMainFrameAmbiguous { count } =>
                Refusal::ActiveMainFrameAmbiguous { count: count as nat },
            SendPlannerError::SearchBoxNotFound => Refusal::SearchBoxNotFound,
            SendPlannerError::SearchBoxAmbiguous { count } => Refusal::SearchBoxAmbiguous {
                count: count as nat,
            },
            SendPlannerError::TargetNotVerified { expected, actual } =>
                Refusal::TargetNotVerified { expected: expected@, actual: opt_text(actual) },
            SendPlannerError::SearchAmbiguous { query, candidates } => Refusal::SearchAmbiguous {
                query: query@,
                candidates: texts(candidates@),
            },
            SendPlannerError::SearchTargetNotFound { query } => Refusal::SearchTargetNotFound {
                query: query@,
            },
        }
    }
}

/// The diagnostic code of a refusal.
pub open spec fn refusal_code(refusal: Refusal) -> Seq<char> {
    match refusal {
        Refusal::ComposerNotFound => "composer_not_found"@,
        Refusal::ComposerAmbiguous { count } => "composer_ambiguous:found_"@ + decimal_text(count)
            + "_candidates"@,
        Refusal::ActiveMainFrameNotFound => "active_main_frame_not_found"@,
        Refusal::ActiveMainFrameAmbiguous { count } => "active_main_frame_ambiguous:found_"@
            + decimal_text(count) + "_frames"@,
        Refusal::SearchBoxNotFound => "search_box_not_found"@,
        Refusal::SearchBoxAmbiguous { count } => "search_box_ambiguous:found_"@ + decimal_text(
            count,
        ) + "_candidates"@,
        Refusal::TargetNotVerified { expected, actual } => "target_not_verified"@,
        Refusal::SearchAmbiguous { query, candidates } => "search_ambiguous:found_"@
            + decimal_text(candidates.len()) + "_candidates"@,
        Refusal::SearchTargetNotFound { query } => "search_target_not_found"@,
    }
}

fn counted(head: &str, count: usize, tail: &str) -> (r: String)
    ensures
        r@ == head@ + decimal_text(count as nat) + tail@,
{
    let mut out = head.to_owned();
    let digits = decimal(count as u128);
    out.append(digits.as_str());
    out.append(tail);
    out
}

impl SendPlannerError {
    /// The diagnostic code.
    pub fn code(&self) -> (r: String)
        ensures
            r@ == refusal_code(self@),
    {
        match self {
            SendPlannerError::ComposerNotFound => "composer_not_found".to_owned(),
            SendPlannerError::ComposerAmbiguous { count } => counted(
                "composer_ambiguous:found_",
                *count,
                "_candidates",
            ),
            SendPlannerError::ActiveMainFrameNotFound => "active_main_frame_not_found".to_owned(),
            SendPlannerError::ActiveMainFrameAmbiguous { count } => counted(
                "active_main_frame_ambiguous:found_",
                *count,
                "_frames",
            ),
            SendPlannerError::SearchBoxNotFound => "search_box_not_found".to_owned(),
            SendPlannerError::SearchBoxAmbiguous { count } => counted(
                "search_box_ambiguous:found_",
                *count,
                "_candidates",
            ),
            SendPlannerError::TargetNotVerified { .. } => "target_not_verified".to_owned(),
            SendPlannerError::SearchAmbiguous { candidates, .. } => counted(
                "search_ambiguous:found_",
                candidates.len(),
                "_candidates",
            ),
            SendPlannerError::SearchTargetNotFound { .. } => "search_target_not_found".to_owned(),
        }
    }
}

// ---------------------------------------------------------------------------
// Frames
// ---------------------------------------------------------------------------

/// A top-level frame.
#[derive(Debug, Clone)]
pub struct FrameInfo<'a> {
    pub node: &'a A11yNode,
    pub name: String,
    pub is_active: bool,
    pub is_main_wechat: bool,
    pub bounds: Option<Bounds>,
}

/// What a [`FrameInfo`] holds.
pub struct Frame {
    pub node: A11yNode,
    pub name: Seq<char>,
    pub is_active: bool,
    pub is_main_wechat: bool,
    pub bounds: Option<Bounds>,
}

impl<'a> View for FrameInfo<'a> {
    type V = Frame;

    open spec fn view(&self) -> Frame {
        Frame {
            node: *self.node,
            name: self.name@,
            is_active: self.is_active,
            is_main_wechat: self.is_main_wechat,
            bounds: self.bounds,
        }
    }
}

/// The frames that `infos` hold.
pub open spec fn frame_views<'a>(infos: Seq<FrameInfo<'a>>) -> Seq<Frame> {
    infos.map_values(|f: FrameInfo<'a>| f@)
}

/// The frame that a frame node is.
pub open spec fn frame_of(node: A11yNode) -> Frame {
    Frame {
        node,
        name: node.name@,
        is_active: has_state(node, "ACTIVE"@),
        is_main_wechat: is_main_frame_key(normalized(node.name@)),
        bounds: node.bounds,
    }
}

/// The frames of the tree of `node` that stand in no other frame, in document order.
pub open spec fn top_frames(node: A11yNode) -> Seq<Frame>
    decreases node, 0nat,
{
    if has_role(node, "frame"@) {
        seq![frame_of(node)]
    } else if children_of(node).len() > 0 {
        top_frames_in(children_of(node), children_of(node).len())
    } else {
        Seq::empty()
    }
}

/// The top frames of the trees of the first `n` nodes.
pub open spec fn top_frames_in(nodes: Seq<A11yNode>, n: nat) -> Seq<Frame>
    decreases nodes, n,
{
    if n == 0 || n > nodes.len() {
        Seq::empty()
    } else {
        top_frames_in(nodes, (n - 1) as nat) + top_frames(nodes[n - 1])
    }
}

/// Whether a frame is an active chat window.
pub open spec fn is_active_main(frame: Frame) -> bool {
    frame.is_active && frame.is_main_wechat && !is_auxiliary_key(normalized(frame.name))
}

/// The active chat windows of a tree.
pub open spec fn active_main_frames(root: A11yNode) -> Seq<Frame> {
    top_frames(root).filter(|f: Frame| is_active_main(f))
}

/// The one active chat window of a tree, or why there is none.
pub open spec fn active_main_frame(root: A11yNode) -> Result<A11yNode, Refusal> {
    let frames = active_main_frames(root);
    if frames.len() == 1 {
        Ok(frames[0].node)
    } else if frames.len() == 0 {
        Err(Refusal::ActiveMainFrameNotFound)
    } else {
        Err(Refusal::ActiveMainFrameAmbiguous { count: frames.len() })
    }
}

/// What a resolution of one node says.
pub open spec fn outcome(r: Result<&A11yNode, SendPlannerError>) -> Result<A11yNode, Refusal> {
    match r {
        Ok(node) => Ok(*node),
        Err(e) => Err(e@),
    }
}

fn describe_frame<'a>(node: &'a A11yNode) -> (r: FrameInfo<'a>)
    ensures
        r@ == frame_of(*node),
{
    let name = node.name.clone();
    let is_active = node_has_state(node, "ACTIVE");
    let is_main_wechat = is_main_wechat_frame_name(name.as_str());
    FrameInfo { node, name, is_active, is_main_wechat, bounds: node.bounds }
}

/// Appends the top frames of the tree of `node`.
pub fn find_frames_recursive<'a>(node: &'a A11yNode, out: &mut Vec<FrameInfo<'a>>)
    ensures
        frame_views(final(out)@) == frame_views(old(out)@) + top_frames(*node),
    decreases node,
{
    if role_is(node, "frame") {
        out.push(describe_frame(node));
        assert(frame_views(out@) =~= frame_views(old(out)@) + top_frames(*node));
        return ;
    }
    if let Some(children) = &node.children {
        let mut i: usize = 0;
        while i < children.len()
            invariant
                i <= children.len(),
                node.children is Some,
                node.children->Some_0 == *children,
                frame_views(out@) == frame_views(old(out)@) + top_frames_in(children@, i as nat),
            decreases children.len() - i,
        {
            find_frames_recursive(&children[i], out);
            i += 1;
            assert(frame_views(out@) =~= frame_views(old(out)@) + top_frames_in(
                children@,
                i as nat,
            ));
        }
    }
    assert(frame_views(out@) =~= frame_views(old(out)@) + top_frames(*node));
}

/// Collects the top-level frames under a root.
pub fn collect_top_level_frames<'a>(root: &'a A11yNode) -> (r: Vec<FrameInfo<'a>>)
    ensures
        frame_views(r@) == top_frames(*root),
{
    let mut frames: Vec<FrameInfo<'a>> = Vec::new();
    find_frames_recursive(root, &mut frames);
    assert(frame_views(frames@) =~= top_frames(*root));
    frames
}

/// Resolves the one and only active chat window.
pub fn resolve_active_main_wechat_frame<'a>(root: &'a A11yNode) -> (r: Result<
    &'a A11yNode,
    SendPlannerError,
>)
    ensures
        outcome(r) == active_main_frame(*root),
{
    let frames = collect_top_level_frames(root);
    let mut active: Vec<&'a A11yNode> = Vec::new();
    let ghost views = frame_views(frames@);
    let ghost keep = |f: Frame| is_active_main(f);
    let mut i: usize = 0;
    assert(views.take(0).filter(keep) =~= Seq::<Frame>::empty()) by {
        reveal(Seq::filter);
    }
    while i < frames.len()
        invariant
            i <= frames.len(),
            views == frame_views(frames@),
            keep == (|f: Frame| is_active_main(f)),
            active@.len() == views.take(i as int).filter(keep).len(),
            forall|j: int|
                0 <= j < active@.len() ==> *#[trigger] active@[j] == views.take(i as int).filter(
                    keep,
                )[j].node,
        decreases frames.len() - i,
    {
        proof {
            reveal(Seq::filter);
            assert(views.take(i + 1).drop_last() =~= views.take(i as int));
        }
        let f = &frames[i];
        if f.is_active && f.is_main_wechat && !is_auxiliary_or_stale_frame(f.name.as_str()) {
            active.push(f.node);
        }
        i += 1;
    }
    assert(views.take(views.len() as int) =~= views);
    if active.len() == 1 {
        Ok(active[0])
    } else if active.len() == 0 {
        Err(SendPlannerError::ActiveMainFrameNotFound)
    } else {
        Err(SendPlannerError::ActiveMainFrameAmbiguous { count: active.len() })
    }
}

// ---------------------------------------------------------------------------
// Composers
// ---------------------------------------------------------------------------

/// A candidate pair of an edit box and a send button.
#[derive(Debug, Clone)]
pub struct ComposerCandidate<'a> {
    pub edit_node: &'a A11yNode,
    pub send_node: &'a A11yNode,
    pub frame_name: String,
    pub frame_is_active: bool,
    pub is_main_wechat_frame: bool,
    pub edit_is_focused: bool,
    pub send_is_enabled: bool,
}

/// What a [`ComposerCandidate`] holds.
pub struct Composer {
    pub edit_node: A11yNode,
    pub send_node: A11yNode,
    pub frame_name: Seq<char>,
    pub frame_is_active: bool,
    pub is_main_wechat_frame: bool,
    pub edit_is_focused: bool,
    pub send_is_enabled: bool,
}

impl<'a> View for ComposerCandidate<'a> {
    type V = Composer;

    open spec fn view(&self) -> Composer {
        Composer {
            edit_node: *self.edit_node,
            send_node: *self.send_node,
            frame_name: self.frame_name@,
            frame_is_active: self.frame_is_active,
            is_main_wechat_frame: self.is_main_wechat_frame,
            edit_is_focused: self.edit_is_focused,
            send_is_enabled: self.send_is_enabled,
        }
    }
}

/// The composers that `candidates` hold.
pub open spec fn composer_views<'a>(candidates: Seq<ComposerCandidate<'a>>) -> Seq<Composer> {
    candidates.map_values(|c: ComposerCandidate<'a>| c@)
}

/// Whether `node` is a send button.
pub open spec fn is_send_button(node: A11yNode) -> bool {
    has_role(node, "push-button"@) && is_send_label(node.name@)
}

/// Whether `node` is a text box that can be edited.
pub open spec fn is_edit_box(node: A11yNode) -> bool {
    has_role(node, "text"@) && has_state(node, "EDITABLE"@)
}

/// The positions of the edit box and of the send button among the children of one node: the
/// first of each kind, if both kinds are there.
pub open spec fn composer_position(nodes: Seq<A11yNode>) -> Option<(int, int)> {
    match (
        first_where(nodes, |c: A11yNode| is_edit_box(c), nodes.len()),
        first_where(nodes, |c: A11yNode| is_send_button(c), nodes.len()),
    ) {
        (Some(edit), Some(send)) => Some((edit, send)),
        _ => None,
    }
}

/// The composer of an edit box and a send button in a frame.
pub open spec fn composer_of(edit: A11yNode, send: A11yNode, frame: Option<Frame>) -> Composer {
    Composer {
        edit_node: edit,
        send_node: send,
        frame_name: match frame {
            Some(f) => f.name,
            None => "unknown"@,
        },
        frame_is_active: match frame {
            Some(f) => f.is_active,
            None => false,
        },
        is_main_wechat_frame: match frame {
            Some(f) => f.is_main_wechat,
            None => false,
        },
        edit_is_focused: has_state(edit, "FOCUSED"@),
        send_is_enabled: !has_state(send, "DISABLED"@),
    }
}

/// The composer that stands directly among `nodes`, if there is one.
pub open spec fn own_composer(nodes: Seq<A11yNode>, frame: Option<Frame>) -> Seq<Composer> {
    match composer_position(nodes) {
        Some((edit, send)) => seq![composer_of(nodes[edit], nodes[send], frame)],
        None => Seq::empty(),
    }
}

/// The innermost frame that holds the children of `node`, given the one that holds `node`.
pub open spec fn enclosing_frame(node: A11yNode, frame: Option<Frame>) -> Option<Frame> {
    if has_role(node, "frame"@) {
        Some(frame_of(node))
    } else {
        frame
    }
}

/// The composers of the tree of `node`, in document order, given the frame that holds `node`.
pub open spec fn composers(node: A11yNode, frame: Option<Frame>) -> Seq<Composer>
    decreases node, 0nat,
{
    if children_of(node).len() > 0 {
        own_composer(children_of(node), enclosing_frame(node, frame)) + composers_in(
            children_of(node),
            children_of(node).len(),
            enclosing_frame(node, frame),
        )
    } else {
        Seq::empty()
    }
}

/// The composers of the trees of the first `n` nodes.
pub open spec fn composers_in(nodes: Seq<A11yNode>, n: nat, frame: Option<Frame>) -> Seq<Composer>
    decreases nodes, n,
{
    if n == 0 || n > nodes.len() {
        Seq::empty()
    } else {
        composers_in(nodes, (n - 1) as nat, frame) + composers(nodes[n - 1], frame)
    }
}

/// Whether a composer belongs to an active chat window.
pub open spec fn is_eligible(c: Composer) -> bool {
    c.frame_is_active && c.is_main_wechat_frame && !is_auxiliary_key(normalized(c.frame_name))
}

/// The composers of a tree that belong to an active chat window.
pub open spec fn eligible_composers(root: A11yNode) -> Seq<Composer> {
    composers(root, None).filter(|c: Composer| is_eligible(c))
}

/// The eligible composers whose edit box has the focus.
pub open spec fn focused_composers(root: A11yNode) -> Seq<Composer> {
    eligible_composers(root).filter(|c: Composer| c.edit_is_focused)
}

/// The composer that a send may use, or why there is none.
pub open spec fn active_composer(root: A11yNode) -> Result<Composer, Refusal> {
    let eligible = eligible_composers(root);
    let focused = focused_composers(root);
    if composers(root, None).len() == 0 {
        Err(Refusal::ComposerNotFound)
    } else if eligible.len() == 0 {
        match active_main_frame(root) {
            Err(Refusal::ActiveMainFrameNotFound) => Err(Refusal::ActiveMainFrameNotFound),
            _ => Err(Refusal::ComposerNotFound),
        }
    } else if eligible.len() == 1 {
        Ok(eligible[0])
    } else if focused.len() == 1 {
        Ok(focused[0])
    } else {
        Err(Refusal::ComposerAmbiguous { count: eligible.len() })
    }
}

/// The pair of the composer that a send may use.
pub open spec fn active_pair(root: A11yNode) -> Result<(A11yNode, A11yNode), Refusal> {
    match active_composer(root) {
        Ok(c) => Ok((c.edit_node, c.send_node)),
        Err(e) => Err(e),
    }
}

/// What a resolution of a pair says.
pub open spec fn pair_outcome(r: Result<(&A11yNode, &A11yNode), SendPlannerError>) -> Result<
    (A11yNode, A11yNode),
    Refusal,
> {
    match r {
        Ok((edit, send)) => Ok((*edit, *send)),
        Err(e) => Err(e@),
    }
}

fn node_is_send_button(node: &A11yNode) -> (r: bool)
    ensures
        r == is_send_button(*node),
{
    role_is(node, "push-button") && is_send_button_name(node.name.as_str())
}

pub(crate) fn node_is_edit_box(node: &A11yNode) -> (r: bool)
    ensures
        r == is_edit_box(*node),
{
    role_is(node, "text") && node_has_state(node, "EDITABLE")
}

pub(crate) fn find_composer(children: &Vec<A11yNode>) -> (r: Option<(usize, usize)>)
    ensures
        match r {
            Some((edit, send)) => composer_position(children@) == Some((edit as int, send as int))
                && edit < children.len() && send < children.len(),
            None => composer_position(children@) is None,
        },
{
    let ghost edit_box = |c: A11yNode| is_edit_box(c);
    let ghost send_button = |c: A11yNode| is_send_button(c);
    let mut edit: Option<usize> = None;
    let mut send: Option<usize> = None;
    let mut i: usize = 0;
    while i < children.len()
        invariant
            i <= children.len(),
            edit_box == (|c: A11yNode| is_edit_box(c)),
            send_button == (|c: A11yNode| is_send_button(c)),
            match edit {
                Some(e) => first_where(children@, edit_box, i as nat) == Some(e as int) && e < i,
                None => first_where(children@, edit_box, i as nat) is None,
            },
            match send {
                Some(e) => first_where(children@, send_button, i as nat) == Some(e as int) && e < i,
                None => first_where(children@, send_button, i as nat) is None,
            },
        decreases children.len() - i,
    {
        if edit.is_none() && node_is_edit_box(&children[i]) {
            edit = Some(i);
        }
        if send.is_none() && node_is_send_button(&children[i]) {
            send = Some(i);
        }
        i += 1;
    }
    match (edit, send) {
        (Some(e), Some(s)) => Some((e, s)),
        _ => None,
    }
}

/// Collects the candidate pairs of a tree, given the frame that holds its root.
pub fn collect_composer_pairs<'a>(
    root: &'a A11yNode,
    current_frame: Option<&FrameInfo<'a>>,
    out: &mut Vec<ComposerCandidate<'a>>,
)
    ensures
        composer_views(final(out)@) == composer_views(old(out)@) + composers(
            *root,
            match current_frame {
                Some(f) => Some(f@),
                None => None,
            },
        ),
    decreases root,
{
    let ghost outer: Option<Frame> = match current_frame {
        Some(f) => Some(f@),
        None => None,
    };
    let own_frame: Option<FrameInfo<'a>> = if role_is(root, "frame") {
        Some(describe_frame(root))
    } else {
        None
    };
    let effective: Option<&FrameInfo<'a>> = match &own_frame {
        Some(f) => Some(f),
        None => current_frame,
    };
    let ghost inner: Option<Frame> = match effective {
        Some(f) => Some(f@),
        None => None,
    };
    assert(inner == enclosing_frame(*root, outer));
    if let Some(children) = &root.children {
        if let Some((e, s)) = find_composer(children) {
            let edit = &children[e];
            let send = &children[s];
            let (frame_name, frame_is_active, is_main_wechat_frame) = match effective {
                Some(f) => (f.name.clone(), f.is_active, f.is_main_wechat),
                None => ("unknown".to_owned(), false, false),
            };
            out.push(
                ComposerCandidate {
                    edit_node: edit,
                    send_node: send,
                    frame_name,
                    frame_is_active,
                    is_main_wechat_frame,
                    edit_is_focused: node_has_state(edit, "FOCUSED"),
                    send_is_enabled: !node_has_state(send, "DISABLED"),
                },
            );
        }
        assert(composer_views(out@) =~= composer_views(old(out)@) + own_composer(children@, inner));
        let mut i: usize = 0;
        while i < children.len()
            invariant
                i <= children.len(),
                root.children is Some,
                root.children->Some_0 == *children,
                inner == (match effective {
                    Some(f) => Some(f@),
                    None => None,
                }),
                composer_views(out@) == composer_views(old(out)@) + own_composer(children@, inner)
                    + composers_in(children@, i as nat, inner),
            decreases children.len() - i,
        {
            collect_composer_pairs(&children[i], effective, out);
            i += 1;
            assert(composer_views(out@) =~= composer_views(old(out)@) + own_composer(
                children@,
                inner,
            ) + composers_in(children@, i as nat, inner));
        }
    }
    assert(composer_views(out@) =~= composer_views(old(out)@) + composers(*root, outer));
}

/// Resolves the composer that a send may use.
///
/// Only composers of an active chat window are eligible, even where another composer is the
/// only one of the tree. Among several, the one whose edit box has the focus wins; without
/// exactly one such, the resolution fails closed.
pub fn resolve_active_composer<'a>(root: &'a A11yNode) -> (r: Result<
    (&'a A11yNode, &'a A11yNode),
    SendPlannerError,
>)
    ensures
        pair_outcome(r) == active_pair(*root),
{
    let mut candidates: Vec<ComposerCandidate<'a>> = Vec::new();
    collect_composer_pairs(root, None, &mut candidates);
    let ghost views = composer_views(candidates@);
    assert(views =~= composers(*root, None));
    if candidates.len() == 0 {
        return Err(SendPlannerError::ComposerNotFound);
    }
    let ghost eligible = |c: Composer| is_eligible(c);
    let ghost focused = |c: Composer| c.edit_is_focused;
    let mut pool: Vec<(&'a A11yNode, &'a A11yNode)> = Vec::new();
    let mut focus: Vec<(&'a A11yNode, &'a A11yNode)> = Vec::new();
    let mut i: usize = 0;
    assert(views.take(0).filter(eligible) =~= Seq::<Composer>::empty()) by {
        reveal(Seq::filter);
    }
    assert(views.take(0).filter(eligible).filter(focused) =~= Seq::<Composer>::empty()) by {
        reveal(Seq::filter);
    }
    while i < candidates.len()
        invariant
            i <= candidates.len(),
            views == composer_views(candidates@),
            eligible == (|c: Composer| is_eligible(c)),
            focused == (|c: Composer| c.edit_is_focused),
            pool@.len() == views.take(i as int).filter(eligible).len(),
            forall|j: int|
                0 <= j < pool@.len() ==> *(#[trigger] pool@[j]).0 == views.take(i as int).filter(
                    eligible,
                )[j].edit_node && *pool@[j].1 == views.take(i as int).filter(eligible)[j].send_node,
            focus@.len() == views.take(i as int).filter(eligible).filter(focused).len(),
            forall|j: int|
                0 <= j < focus@.len() ==> *(#[trigger] focus@[j]).0 == views.take(i as int).filter(
                    eligible,
                ).filter(focused)[j].edit_node && *focus@[j].1 == views.take(i as int).filter(
                    eligible,
                ).filter(focused)[j].send_node,
        decreases candidates.len() - i,
    {
        let c = &candidates[i];
        let ghost before = views.take(i as int).filter(eligible);
        proof {
            assert(views.take(i + 1).drop_last() =~= views.take(i as int));
            assert(views.take(i + 1).last() == c@);
            assert(views.take(i + 1).filter(eligible) == if is_eligible(c@) {
                before.push(c@)
            } else {
                before
            }) by {
                reveal(Seq::filter);
            }
            assert(before.push(c@).drop_last() =~= before);
            assert(before.push(c@).filter(focused) == if c@.edit_is_focused {
                before.filter(focused).push(c@)
            } else {
                before.filter(focused)
            }) by {
                reveal(Seq::filter);
            }
        }
        if c.frame_is_active && c.is_main_wechat_frame && !is_auxiliary_or_stale_frame(
            c.frame_name.as_str(),
        ) {
            pool.push((c.edit_node, c.send_node));
            if c.edit_is_focused {
                focus.push((c.edit_node, c.send_node));
            }
        }
        i += 1;
    }
    assert(views.take(views.len() as int) =~= views);
    if pool.len() == 0 {
        return match resolve_active_main_wechat_frame(root) {
            Err(SendPlannerError::ActiveMainFrameNotFound) => Err(
                SendPlannerError::ActiveMainFrameNotFound,
            ),
            _ => Err(SendPlannerError::ComposerNotFound),
        };
    }
    if pool.len() == 1 {
        return Ok(pool[0]);
    }
    if focus.len() == 1 {
        return Ok(focus[0]);
    }
    Err(SendPlannerError::ComposerAmbiguous { count: pool.len() })
}

// ---------------------------------------------------------------------------
// Laws
// ---------------------------------------------------------------------------

proof fn lemma_top_frames(node: A11yNode, k: int)
    requires
        0 <= k < top_frames(node).len(),
    ensures
        has_role(top_frames(node)[k].node, "frame"@),
        top_frames(node)[k] == frame_of(top_frames(node)[k].node),
    decreases node, 0nat,
{
    if !has_role(node, "frame"@) && children_of(node).len() > 0 {
        lemma_top_frames_in(children_of(node), children_of(node).len(), k);
    }
}

proof fn lemma_top_frames_in(nodes: Seq<A11yNode>, n: nat, k: int)
    requires
        n <= nodes.len(),
        0 <= k < top_frames_in(nodes, n).len(),
    ensures
        has_role(top_frames_in(nodes, n)[k].node, "frame"@),
        top_frames_in(nodes, n)[k] == frame_of(top_frames_in(nodes, n)[k].node),
    decreases nodes, n,
{
    if n > 0 {
        let before = top_frames_in(nodes, (n - 1) as nat);
        if k < before.len() {
            lemma_top_frames_in(nodes, (n - 1) as nat, k);
        } else {
            lemma_top_frames(nodes[n - 1], k - before.len());
        }
    }
}

/// The frame that a resolution gives is one: active, a chat window, and no window that holds no
/// chat; and it is the only such frame.
pub proof fn law_active_main_frame(root: A11yNode)
    requires
        active_main_frame(root) is Ok,
    ensures
        ({
            let node = active_main_frame(root)->Ok_0;
            &&& has_role(node, "frame"@)
            &&& has_state(node, "ACTIVE"@)
            &&& is_main_frame_key(normalized(node.name@))
            &&& !is_auxiliary_key(normalized(node.name@))
        }),
        forall|i: int, j: int|
            0 <= i < top_frames(root).len() && 0 <= j < top_frames(root).len() && is_active_main(
                #[trigger] top_frames(root)[i],
            ) && is_active_main(#[trigger] top_frames(root)[j]) ==> i == j,
{
    let all = top_frames(root);
    let keep = |f: Frame| is_active_main(f);
    let i = lemma_filter_from(all, keep, 0);
    lemma_top_frames(root, i);
    assert forall|i: int, j: int|
        0 <= i < all.len() && 0 <= j < all.len() && is_active_main(#[trigger] all[i])
            && is_active_main(#[trigger] all[j]) implies i == j by {
        lemma_filter_one(all, keep, i, j);
    }
}

/// Two active chat windows are one too many: the resolution says how many there are.
pub proof fn law_two_active_frames_are_ambiguous(root: A11yNode, i: int, j: int)
    requires
        0 <= i < j < top_frames(root).len(),
        is_active_main(top_frames(root)[i]),
        is_active_main(top_frames(root)[j]),
    ensures
        active_main_frame(root) is Err,
        active_main_frame(root)->Err_0 == (Refusal::ActiveMainFrameAmbiguous {
            count: active_main_frames(root).len(),
        }),
        active_main_frames(root).len() >= 2,
{
    let keep = |f: Frame| is_active_main(f);
    if active_main_frames(root).len() <= 1 {
        lemma_filter_one(top_frames(root), keep, i, j);
    }
}

/// Whether a composer is made of an edit box and a send button, and says of them what they are.
pub open spec fn is_composer(c: Composer) -> bool {
    &&& is_edit_box(c.edit_node)
    &&& is_send_button(c.send_node)
    &&& c.edit_is_focused == has_state(c.edit_node, "FOCUSED"@)
    &&& c.send_is_enabled == !has_state(c.send_node, "DISABLED"@)
}

proof fn lemma_composers(node: A11yNode, frame: Option<Frame>, k: int)
    requires
        0 <= k < composers(node, frame).len(),
    ensures
        is_composer(composers(node, frame)[k]),
    decreases node, 0nat,
{
    let nodes = children_of(node);
    if nodes.len() > 0 {
        let inner = enclosing_frame(node, frame);
        let own = own_composer(nodes, inner);
        if k < own.len() {
            lemma_first_where(nodes, |c: A11yNode| is_edit_box(c), nodes.len());
            lemma_first_where(nodes, |c: A11yNode| is_send_button(c), nodes.len());
        } else {
            lemma_composers_in(nodes, nodes.len(), inner, k - own.len());
        }
    }
}

proof fn lemma_composers_in(nodes: Seq<A11yNode>, n: nat, frame: Option<Frame>, k: int)
    requires
        n <= nodes.len(),
        0 <= k < composers_in(nodes, n, frame).len(),
    ensures
        is_composer(composers_in(nodes, n, frame)[k]),
    decreases nodes, n,
{
    if n > 0 {
        let before = composers_in(nodes, (n - 1) as nat, frame);
        if k < before.len() {
            lemma_composers_in(nodes, (n - 1) as nat, frame, k);
        } else {
            lemma_composers(nodes[n - 1], frame, k - before.len());
        }
    }
}

/// The composer that a resolution gives is made of an edit box and a send button, and belongs to
/// an active chat window. Where there are several such composers it is the only one among them
/// with the focus.
pub proof fn law_active_composer(root: A11yNode)
    requires
        active_composer(root) is Ok,
    ensures
        ({
            let c = active_composer(root)->Ok_0;
            &&& is_composer(c)
            &&& is_eligible(c)
            &&& composers(root, None).contains(c)
            &&& eligible_composers(root).len() == 1 || (c.edit_is_focused && focused_composers(
                root,
            ).len() == 1)
        }),
{
    let all = composers(root, None);
    let keep = |c: Composer| is_eligible(c);
    let eligible = eligible_composers(root);
    let c = active_composer(root)->Ok_0;
    let k = if eligible.len() == 1 {
        0
    } else {
        lemma_filter_from(eligible, |c: Composer| c.edit_is_focused, 0)
    };
    assert(eligible[k] == c);
    let i = lemma_filter_from(all, keep, k);
    assert(all[i] == c);
    lemma_composers(root, None, i);
}

/// Composers outside the active chat windows are never used: a tree in which no composer belongs
/// to one gives none. The refusal is that no chat window is active where there are composers but
/// no active chat window, and else that there is no composer.
pub proof fn law_no_eligible_composer(root: A11yNode)
    requires
        forall|i: int|
            0 <= i < composers(root, None).len() ==> !is_eligible(#[trigger] composers(root, None)[i]),
    ensures
        active_pair(root) is Err,
        active_pair(root)->Err_0 == (if composers(root, None).len() > 0 && active_main_frames(
            root,
        ).len() == 0 {
            Refusal::ActiveMainFrameNotFound
        } else {
            Refusal::ComposerNotFound
        }),
{
    if eligible_composers(root).len() > 0 {
        let i = lemma_filter_from(composers(root, None), |c: Composer| is_eligible(c), 0);
    }
}

/// Where a chat window is active, the refusal is never that none is.
pub proof fn law_active_window_is_acknowledged(root: A11yNode)
    requires
        active_main_frames(root).len() > 0,
    ensures
        active_pair(root) is Err ==> active_pair(root)->Err_0
            != Refusal::ActiveMainFrameNotFound,
{
}

/// Whether there is no frame in the tree of `node`.
pub open spec fn has_no_frame(node: A11yNode) -> bool
    decreases node, 0nat,
{
    &&& !has_role(node, "frame"@)
    &&& children_of(node).len() > 0 ==> has_no_frame_in(children_of(node), children_of(node).len())
}

/// Whether there is no frame in the trees of the first `n` nodes.
pub open spec fn has_no_frame_in(nodes: Seq<A11yNode>, n: nat) -> bool
    decreases nodes, n,
{
    if n == 0 || n > nodes.len() {
        true
    } else {
        has_no_frame_in(nodes, (n - 1) as nat) && has_no_frame(nodes[n - 1])
    }
}

/// Whether no frame of the tree of `node` stands inside another.
pub open spec fn is_flat(node: A11yNode) -> bool
    decreases node, 0nat,
{
    children_of(node).len() > 0 ==> if has_role(node, "frame"@) {
        has_no_frame_in(children_of(node), children_of(node).len())
    } else {
        is_flat_in(children_of(node), children_of(node).len())
    }
}

/// Whether no frame of the trees of the first `n` nodes stands inside another.
pub open spec fn is_flat_in(nodes: Seq<A11yNode>, n: nat) -> bool
    decreases nodes, n,
{
    if n == 0 || n > nodes.len() {
        true
    } else {
        is_flat_in(nodes, (n - 1) as nat) && is_flat(nodes[n - 1])
    }
}

/// Whether a composer says of its frame what that frame is.
spec fn is_of_frame(c: Composer, f: Frame) -> bool {
    &&& c.frame_name == f.name
    &&& c.frame_is_active == f.is_active
    &&& c.is_main_wechat_frame == f.is_main_wechat
}

proof fn lemma_composers_of_frame(node: A11yNode, f: Frame, k: int)
    requires
        has_no_frame(node),
        0 <= k < composers(node, Some(f)).len(),
    ensures
        is_of_frame(composers(node, Some(f))[k], f),
    decreases node, 0nat,
{
    let nodes = children_of(node);
    let own = own_composer(nodes, Some(f));
    if k >= own.len() {
        lemma_composers_of_frame_in(nodes, nodes.len(), f, k - own.len());
    }
}

proof fn lemma_composers_of_frame_in(nodes: Seq<A11yNode>, n: nat, f: Frame, k: int)
    requires
        n <= nodes.len(),
        has_no_frame_in(nodes, n),
        0 <= k < composers_in(nodes, n, Some(f)).len(),
    ensures
        is_of_frame(composers_in(nodes, n, Some(f))[k], f),
    decreases nodes, n,
{
    let before = composers_in(nodes, (n - 1) as nat, Some(f));
    if k < before.len() {
        lemma_composers_of_frame_in(nodes, (n - 1) as nat, f, k);
    } else {
        lemma_composers_of_frame(nodes[n - 1], f, k - before.len());
    }
}

/// The top frame that an eligible composer of a flat tree stands in.
proof fn lemma_composer_in_top_frame(node: A11yNode, k: int) -> (t: int)
    requires
        is_flat(node),
        0 <= k < composers(node, None).len(),
        is_eligible(composers(node, None)[k]),
    ensures
        0 <= t < top_frames(node).len(),
        is_active_main(top_frames(node)[t]),
        composers(top_frames(node)[t].node, None).contains(composers(node, None)[k]),
    decreases node, 0nat,
{
    let nodes = children_of(node);
    if has_role(node, "frame"@) {
        let f = frame_of(node);
        let own = own_composer(nodes, Some(f));
        if k >= own.len() {
            lemma_composers_of_frame_in(nodes, nodes.len(), f, k - own.len());
        }
        assert(top_frames(node)[0] == f);
        assert(composers(node, None)[k] == composers(f.node, None)[k]);
        0
    } else {
        let own = own_composer(nodes, None);
        assert(k >= own.len());
        lemma_composer_in_top_frame_in(nodes, nodes.len(), k - own.len())
    }
}

proof fn lemma_composer_in_top_frame_in(nodes: Seq<A11yNode>, n: nat, k: int) -> (t: int)
    requires
        n <= nodes.len(),
        is_flat_in(nodes, n),
        0 <= k < composers_in(nodes, n, None).len(),
        is_eligible(composers_in(nodes, n, None)[k]),
    ensures
        0 <= t < top_frames_in(nodes, n).len(),
        is_active_main(top_frames_in(nodes, n)[t]),
        composers(top_frames_in(nodes, n)[t].node, None).contains(composers_in(nodes, n, None)[k]),
    decreases nodes, n,
{
    let before = composers_in(nodes, (n - 1) as nat, None);
    let frames = top_frames_in(nodes, (n - 1) as nat);
    if k < before.len() {
        let t = lemma_composer_in_top_frame_in(nodes, (n - 1) as nat, k);
        assert(top_frames_in(nodes, n)[t] == frames[t]);
        t
    } else {
        let t = lemma_composer_in_top_frame(nodes[n - 1], k - before.len());
        assert(top_frames_in(nodes, n)[frames.len() + t] == top_frames(nodes[n - 1])[t]);
        frames.len() + t
    }
}

/// Where no frame stands inside another, the composer that a resolution gives stands in the one
/// active chat window: the window whose title tells which chat is open.
pub proof fn law_composer_is_in_the_active_window(root: A11yNode)
    requires
        is_flat(root),
        active_main_frame(root) is Ok,
        active_composer(root) is Ok,
    ensures
        composers(active_main_frame(root)->Ok_0, None).contains(active_composer(root)->Ok_0),
{
    let c = active_composer(root)->Ok_0;
    law_active_composer(root);
    let all = composers(root, None);
    let k = choose|k: int| 0 <= k < all.len() && all[k] == c;
    let t = lemma_composer_in_top_frame(root, k);
    let keep = |f: Frame| is_active_main(f);
    let frames = top_frames(root);
    let s = lemma_filter_from(frames, keep, 0);
    lemma_filter_one(frames, keep, s, t);
}

// ---------------------------------------------------------------------------
// Laws: what is resolved
// ---------------------------------------------------------------------------

/// Every refusal has its code, and the codes of the ambiguous ones tell how many there are.
pub proof fn law_refusals_have_their_codes(
    n: nat,
    query: Seq<char>,
    actual: Option<Seq<char>>,
    candidates: Seq<Seq<char>>,
)
    ensures
        refusal_code(Refusal::ComposerNotFound) == "composer_not_found"@,
        refusal_code(Refusal::ActiveMainFrameNotFound) == "active_main_frame_not_found"@,
        refusal_code(Refusal::SearchBoxNotFound) == "search_box_not_found"@,
        refusal_code(Refusal::TargetNotVerified { expected: query, actual })
            == "target_not_verified"@,
        refusal_code(Refusal::SearchTargetNotFound { query }) == "search_target_not_found"@,
        refusal_code(Refusal::ComposerAmbiguous { count: n }) == "composer_ambiguous:found_"@
            + decimal_text(n) + "_candidates"@,
        refusal_code(Refusal::ActiveMainFrameAmbiguous { count: n })
            == "active_main_frame_ambiguous:found_"@ + decimal_text(n) + "_frames"@,
        refusal_code(Refusal::SearchBoxAmbiguous { count: n }) == "search_box_ambiguous:found_"@
            + decimal_text(n) + "_candidates"@,
        refusal_code(Refusal::SearchAmbiguous { query, candidates }) == "search_ambiguous:found_"@
            + decimal_text(candidates.len()) + "_candidates"@,
{
}

/// Nothing of a refusal is lost in what it is taken to say.
pub proof fn law_refusals_say_all(e: SendPlannerError)
    ensures
        e is ComposerNotFound <==> e@ is ComposerNotFound,
        e is ActiveMainFrameNotFound <==> e@ is ActiveMainFrameNotFound,
        e is SearchBoxNotFound <==> e@ is SearchBoxNotFound,
        e is ComposerAmbiguous ==> e@ == (Refusal::ComposerAmbiguous {
            count: e->ComposerAmbiguous_count as nat,
        }),
        e is ActiveMainFrameAmbiguous ==> e@ == (Refusal::ActiveMainFrameAmbiguous {
            count: e->ActiveMainFrameAmbiguous_count as nat,
        }),
        e is SearchBoxAmbiguous ==> e@ == (Refusal::SearchBoxAmbiguous {
            count: e->SearchBoxAmbiguous_count as nat,
        }),
        e is TargetNotVerified ==> e@ is TargetNotVerified && e@->expected == e->expected@
            && e@->actual == opt_text(e->actual),
        e is SearchAmbiguous ==> e@ is SearchAmbiguous && e@->SearchAmbiguous_query
            == e->SearchAmbiguous_query@ && e@->candidates == texts(e->candidates@),
        e is SearchTargetNotFound ==> e@ is SearchTargetNotFound && e@->SearchTargetNotFound_query
            == e->SearchTargetNotFound_query@,
{
}

/// Whether a frame is an active chat window: it is active, has the name of a chat window, and not
/// that of a window that holds no chat.
pub open spec fn is_chat_window(node: A11yNode) -> bool {
    &&& has_state(node, "ACTIVE"@)
    &&& is_main_frame_key(normalized(node.name@))
    &&& !is_auxiliary_key(normalized(node.name@))
}

/// A frame is described by its own node: its name, its bounds, whether it is active, and whether it
/// has the name of a chat window.
pub proof fn law_frames_say_what_they_are(node: A11yNode)
    ensures
        ({
            let f = frame_of(node);
            &&& f.node == node
            &&& f.name == node.name@
            &&& f.bounds == node.bounds
            &&& f.is_active <==> has_state(node, "ACTIVE"@)
            &&& f.is_main_wechat <==> is_main_frame_key(normalized(node.name@))
            &&& is_active_main(f) <==> is_chat_window(node)
        }),
{
}

/// Nothing of a frame or a candidate is lost in what it is taken to hold.
pub proof fn law_candidates_say_all<'a>(f: FrameInfo<'a>, c: ComposerCandidate<'a>)
    ensures
        f@.node == *f.node,
        f@.name == f.name@,
        f@.is_active == f.is_active,
        f@.is_main_wechat == f.is_main_wechat,
        f@.bounds == f.bounds,
        c@.edit_node == *c.edit_node,
        c@.send_node == *c.send_node,
        c@.frame_name == c.frame_name@,
        c@.frame_is_active == c.frame_is_active,
        c@.is_main_wechat_frame == c.is_main_wechat_frame,
        c@.edit_is_focused == c.edit_is_focused,
        c@.send_is_enabled == c.send_is_enabled,
{
}

/// Whether the top frame at `k` is the only active chat window of a tree.
pub open spec fn is_only_window(root: A11yNode, k: int) -> bool {
    &&& 0 <= k < top_frames(root).len()
    &&& is_chat_window(top_frames(root)[k].node)
    &&& forall|j: int|
        0 <= j < top_frames(root).len() && is_chat_window((#[trigger] top_frames(root)[j]).node)
            ==> j == k
}

/// The only active chat window of a tree is found, wherever it stands and whatever other frames
/// there are. Without one the refusal is that there is none. Where there are several it says how
/// many.
pub proof fn law_only_window_is_found(root: A11yNode, k: int)
    ensures
        is_only_window(root, k) ==> active_main_frame(root) == Ok::<A11yNode, Refusal>(
            top_frames(root)[k].node,
        ),
        active_main_frame(root) is Ok ==> exists|j: int| is_only_window(root, j),
        (forall|j: int|
            0 <= j < top_frames(root).len() ==> !is_chat_window(
                (#[trigger] top_frames(root)[j]).node,
            )) <==> active_main_frame(root) == Err::<A11yNode, Refusal>(
            Refusal::ActiveMainFrameNotFound,
        ),
        active_main_frame(root) is Err && !(active_main_frame(root)->Err_0
            is ActiveMainFrameNotFound) ==> active_main_frame(root)->Err_0 == (
        Refusal::ActiveMainFrameAmbiguous {
            count: top_frames(root).filter(|f: Frame| is_chat_window(f.node)).len(),
        }),
{
    let frames = top_frames(root);
    let keep = |f: Frame| is_active_main(f);
    let window = |f: Frame| is_chat_window(f.node);
    assert forall|j: int| 0 <= j < frames.len() implies keep(#[trigger] frames[j]) == window(
        frames[j],
    ) by {
        lemma_top_frames(root, j);
    }
    lemma_filter_same(frames, keep, window);
    if is_only_window(root, k) {
        assert forall|j: int| 0 <= j < frames.len() && #[trigger] keep(frames[j]) implies j == k by {
            assert(window(frames[j]));
        }
        assert(keep(frames[k]));
        lemma_filter_only(frames, keep, k);
    }
    if active_main_frame(root) is Ok {
        let j = lemma_filter_from(frames, keep, 0);
        assert(window(frames[j]));
        assert forall|i: int|
            0 <= i < frames.len() && is_chat_window((#[trigger] frames[i]).node) implies i == j by {
            assert(window(frames[i]));
            lemma_filter_one(frames, keep, i, j);
        }
        assert(is_only_window(root, j));
    }
    if frames.filter(keep).len() > 0 {
        let j = lemma_filter_from(frames, keep, 0);
        assert(window(frames[j]));
    }
    if exists|j: int| 0 <= j < frames.len() && is_chat_window((#[trigger] frames[j]).node) {
        let j = choose|j: int| 0 <= j < frames.len() && is_chat_window((#[trigger] frames[j]).node);
        assert(keep(frames[j]));
        lemma_filter_some(frames, keep, j);
    }
}

/// Whether the composer at `k` stands in an active chat window. Nothing else is asked of it: neither
/// the focus nor the state of its button matters.
pub open spec fn stands_in_window(root: A11yNode, k: int) -> bool {
    &&& 0 <= k < composers(root, None).len()
    &&& composers(root, None)[k].frame_is_active
    &&& composers(root, None)[k].is_main_wechat_frame
    &&& !is_auxiliary_key(normalized(composers(root, None)[k].frame_name))
}

/// Whether the composer at `k` stands in an active chat window and its edit box has the focus.
pub open spec fn is_focused_in_window(root: A11yNode, k: int) -> bool {
    stands_in_window(root, k) && has_state(composers(root, None)[k].edit_node, "FOCUSED"@)
}

/// What a composer says of its frame is what that frame is; outside all frames it stands in none.
pub proof fn law_composers_say_where_they_stand(edit: A11yNode, send: A11yNode, frame: A11yNode)
    ensures
        ({
            let c = composer_of(edit, send, Some(frame_of(frame)));
            &&& c.edit_node == edit
            &&& c.send_node == send
            &&& c.frame_name == frame.name@
            &&& c.frame_is_active <==> has_state(frame, "ACTIVE"@)
            &&& c.is_main_wechat_frame <==> is_main_frame_key(normalized(frame.name@))
            &&& c.edit_is_focused <==> has_state(edit, "FOCUSED"@)
            &&& c.send_is_enabled <==> !has_state(send, "DISABLED"@)
            &&& is_eligible(c) <==> is_chat_window(frame)
        }),
        ({
            let c = composer_of(edit, send, None);
            &&& c.edit_node == edit
            &&& c.send_node == send
            &&& c.frame_name == "unknown"@
            &&& !c.frame_is_active
            &&& !c.is_main_wechat_frame
            &&& !is_eligible(c)
        }),
{
}

/// The only composer in an active chat window is used, whatever the states of its edit box and its
/// button, and whatever other composers there are.
pub proof fn law_only_composer_is_used(root: A11yNode, k: int)
    requires
        stands_in_window(root, k),
        forall|j: int| #[trigger] stands_in_window(root, j) ==> j == k,
    ensures
        active_pair(root) == Ok::<(A11yNode, A11yNode), Refusal>(
            (composers(root, None)[k].edit_node, composers(root, None)[k].send_node),
        ),
{
    let all = composers(root, None);
    let keep = |c: Composer| is_eligible(c);
    assert forall|j: int| 0 <= j < all.len() && #[trigger] keep(all[j]) implies j == k by {
        assert(stands_in_window(root, j));
    }
    assert(keep(all[k]));
    lemma_filter_only(all, keep, k);
}

/// Of several composers in active chat windows the one with the focus is used, where it is the only
/// one with the focus.
pub proof fn law_focused_composer_is_used(root: A11yNode, k: int)
    requires
        is_focused_in_window(root, k),
        forall|j: int| #[trigger] is_focused_in_window(root, j) ==> j == k,
    ensures
        active_pair(root) == Ok::<(A11yNode, A11yNode), Refusal>(
            (composers(root, None)[k].edit_node, composers(root, None)[k].send_node),
        ),
{
    let all = composers(root, None);
    let keep = |c: Composer| is_eligible(c);
    let focus = |c: Composer| c.edit_is_focused;
    let both = |c: Composer| is_eligible(c) && c.edit_is_focused;
    lemma_filter_twice(all, keep, focus, both);
    assert forall|j: int| 0 <= j < all.len() && #[trigger] both(all[j]) implies j == k by {
        lemma_composers(root, None, j);
        assert(is_focused_in_window(root, j));
    }
    lemma_composers(root, None, k);
    assert(both(all[k]));
    lemma_filter_only(all, both, k);
    lemma_filter_some(all, keep, k);
    let eligible = all.filter(keep);
    if eligible.len() == 1 {
        let i = lemma_filter_from(eligible, focus, 0);
        assert(i == 0);
    }
}

/// Several composers in active chat windows of which none has the focus, or more than one, are
/// ambiguous, and the refusal counts those in active chat windows.
pub proof fn law_composers_are_ambiguous(root: A11yNode, i: int, j: int)
    requires
        i < j,
        stands_in_window(root, i),
        stands_in_window(root, j),
        is_focused_in_window(root, i) == is_focused_in_window(root, j),
        !is_focused_in_window(root, i) ==> forall|k: int|
            !#[trigger] is_focused_in_window(root, k),
    ensures
        active_pair(root) == Err::<(A11yNode, A11yNode), Refusal>(
            Refusal::ComposerAmbiguous {
                count: composers(root, None).filter(
                    |c: Composer|
                        c.is_main_wechat_frame && c.frame_is_active && !is_auxiliary_key(
                            normalized(c.frame_name),
                        ),
                ).len(),
            },
        ),
{
    let all = composers(root, None);
    let keep = |c: Composer| is_eligible(c);
    let inside = |c: Composer|
        c.is_main_wechat_frame && c.frame_is_active && !is_auxiliary_key(normalized(c.frame_name));
    let focus = |c: Composer| c.edit_is_focused;
    let both = |c: Composer| is_eligible(c) && c.edit_is_focused;
    lemma_filter_same(all, keep, inside);
    lemma_filter_twice(all, keep, focus, both);
    assert(keep(all[i]) && keep(all[j]));
    lemma_filter_some(all, keep, i);
    if all.filter(keep).len() == 1 {
        lemma_filter_one(all, keep, i, j);
    }
    lemma_composers(root, None, i);
    lemma_composers(root, None, j);
    if all.filter(both).len() == 1 {
        let k = lemma_filter_from(all, both, 0);
        lemma_composers(root, None, k);
        assert(is_focused_in_window(root, k));
        lemma_filter_one(all, both, i, j);
    }
}

/// Edit boxes and send buttons are told by their roles, the box by being editable, the button by its
/// label.
pub proof fn law_parts_of_a_composer(node: A11yNode)
    ensures
        is_edit_box(node) <==> node.role@ == "text"@ && has_state(node, "EDITABLE"@),
        is_send_button(node) <==> node.role@ == "push-button"@ && is_send_label(node.name@),
{
}

/// Siblings hold a composer exactly where one of them is an edit box and one a send button. It is
/// made of the first of each kind.
pub proof fn law_siblings_make_a_composer(nodes: Seq<A11yNode>, edit: int, send: int)
    ensures
        composer_position(nodes) == Some((edit, send)) <==> {
            &&& 0 <= edit < nodes.len()
            &&& 0 <= send < nodes.len()
            &&& is_edit_box(nodes[edit])
            &&& is_send_button(nodes[send])
            &&& forall|j: int| 0 <= j < edit ==> !is_edit_box(#[trigger] nodes[j])
            &&& forall|j: int| 0 <= j < send ==> !is_send_button(#[trigger] nodes[j])
        },
        composer_position(nodes) is None <==> (forall|j: int|
            0 <= j < nodes.len() ==> !is_edit_box(#[trigger] nodes[j])) || (forall|j: int|
            0 <= j < nodes.len() ==> !is_send_button(#[trigger] nodes[j])),
{
    let edit_box = |c: A11yNode| is_edit_box(c);
    let send_button = |c: A11yNode| is_send_button(c);
    lemma_first_where(nodes, edit_box, nodes.len());
    lemma_first_where(nodes, send_button, nodes.len());
    let (e, s) = (
        first_where(nodes, edit_box, nodes.len()),
        first_where(nodes, send_button, nodes.len()),
    );
    assert(e is Some ==> edit_box(nodes[e->Some_0]));
    assert(s is Some ==> send_button(nodes[s->Some_0]));
    assert forall|j: int| 0 <= j < nodes.len() implies edit_box(#[trigger] nodes[j]) == is_edit_box(
        nodes[j],
    ) && send_button(nodes[j]) == is_send_button(nodes[j]) by {}
}

/// Nothing of a resolution is lost in what it is taken to say.
pub proof fn law_outcomes_say_all<'a>(
    r: Result<&'a A11yNode, SendPlannerError>,
    pair: Result<(&'a A11yNode, &'a A11yNode), SendPlannerError>,
    frames: Seq<FrameInfo<'a>>,
    candidates: Seq<ComposerCandidate<'a>>,
    i: int,
)
    ensures
        r is Ok ==> outcome(r) == Ok::<A11yNode, Refusal>(*r->Ok_0),
        r is Err ==> outcome(r) == Err::<A11yNode, Refusal>(r->Err_0@),
        pair is Ok ==> pair_outcome(pair) == Ok::<(A11yNode, A11yNode), Refusal>(
            (*pair->Ok_0.0, *pair->Ok_0.1),
        ),
        pair is Err ==> pair_outcome(pair) == Err::<(A11yNode, A11yNode), Refusal>(pair->Err_0@),
        frame_views(frames).len() == frames.len(),
        0 <= i < frames.len() ==> frame_views(frames)[i] == frames[i]@,
        composer_views(candidates).len() == candidates.len(),
        0 <= i < candidates.len() ==> composer_views(candidates)[i] == candidates[i]@,
{
}

} // verus!
