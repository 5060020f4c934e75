//! The plan that sends one message: open the chat, focus the composer, put in the payload,
//! confirm that it has gone. The plan decides; its caller performs the steps.

use crate::a11y::{
    A11yNode, Bounds, SUBPIXELS, first_chat_row, has_state, law_rounded_is_nearest, node_has_state,
    query_first_chat_row, rounded,
};
use crate::multi_frame::{
    Refusal, active_composer, active_main_frame, active_pair, composers, is_flat,
    law_composer_is_in_the_active_window, refusal_code, resolve_active_composer,
};
use crate::target_chat::{frame_title, open_title, target_check, verify_target_chat};
use crate::text::{opt_text, same_text, texts};
use crate::titles::is_same_chat;
use vstd::prelude::*;

verus! {

// ---------------------------------------------------------------------------
// Observations, parameters and state
// ---------------------------------------------------------------------------

/// What the application shows besides its main window.
#[derive(Debug, Clone)]
pub struct AppState {
    pub popup: Option<String>,
}

impl Default for AppState {
    fn default() -> (r: AppState)
        ensures
            r.popup is None,
    {
        AppState { popup: None }
    }
}

/// The identified state of the main window, and the frame that shows it.
#[derive(Debug, Clone)]
pub struct MainWindow {
    pub state_id: String,
    pub frame: Option<String>,
}

/// The identified states of the windows.
#[derive(Debug, Clone)]
pub struct IdentifiedStates {
    pub main_window: Option<MainWindow>,
    pub popup: Option<String>,
}

/// What is to be sent, and to whom.
#[derive(Debug, Clone)]
pub struct SendMessageParams {
    pub chat_id: String,
    pub message: Option<String>,
    pub image_path: Option<String>,
    pub image_mime: Option<String>,
    pub file_path: Option<String>,
}

/// How opening a chat went.
#[derive(Debug, Clone)]
pub struct OpenChatResult {
    pub ok: bool,
    pub error: Option<String>,
    pub skipped: Option<bool>,
}

/// The phases of the plan.
#[derive(Debug, Clone, Copy, PartialEq, Eq, Structural)]
pub enum SendMessagePhase {
    Opening,
    Focusing,
    Inputting,
    Confirming,
    Done,
}

/// The state of the plan.
#[derive(Debug, Clone)]
pub struct SendMessagePlanState {
    pub phase: SendMessagePhase,
    pub open_result: Option<OpenChatResult>,
    pub confirm_attempts: u32,
    pub send_action_executed: bool,
    pub failure_reason: Option<String>,
}

/// The plan.
#[derive(Debug, Clone, Copy)]
pub struct SendMessagePlan;

/// One input of a sequence.
#[derive(Debug, Clone)]
pub enum Stroke {
    Wait { ms: u64 },
    Key { combo: String },
    Type { text: String, selector: Option<String> },
}

/// An action on the user interface.
#[derive(Debug, Clone)]
pub enum Action {
    DismissPopup,
    WaitShort,
    ClickBounds(Bounds),
    Sequence(Vec<Stroke>),
}

/// An action, and the frame it is meant for.
#[derive(Debug, Clone)]
pub struct SelectedAction {
    pub action: Action,
    pub frame: Option<String>,
}

/// What the caller of the plan has to do next.
#[derive(Debug, Clone)]
pub enum PlanStep {
    /// Open the chat, then hand the result to [`SendMessagePlan::chat_opened`].
    OpenChat { chat_id: String, force: bool, click_xy: Option<(i64, i64)> },
    /// Run the command, then perform the action.
    RunThenAct { command: String, args: Vec<String>, selected: SelectedAction },
    /// Perform the action.
    Act(SelectedAction),
    /// Do nothing.
    Stop,
}

// ---------------------------------------------------------------------------
// Model
// ---------------------------------------------------------------------------

/// What the plan is told when it is asked for a step.
pub struct Observation {
    pub popup: bool,
    pub main_state: Option<Seq<char>>,
    pub frame: Option<Seq<char>>,
    pub chat_id: Seq<char>,
    pub message: Option<Seq<char>>,
    pub image_path: Option<Seq<char>>,
    pub image_mime: Option<Seq<char>>,
    pub file_path: Option<Seq<char>>,
    pub a11y: A11yNode,
}

/// What an [`OpenChatResult`] says.
pub struct Opened {
    pub ok: bool,
    pub error: Option<Seq<char>>,
    pub skipped: Option<bool>,
}

/// What a [`SendMessagePlanState`] holds.
pub struct Plan {
    pub phase: SendMessagePhase,
    pub open_result: Option<Opened>,
    pub confirm_attempts: int,
    pub sent: bool,
    pub failure: Option<Seq<char>>,
}

/// What a [`Stroke`] is.
pub enum StrokeModel {
    Wait { ms: u64 },
    Key { combo: Seq<char> },
    Type { text: Seq<char>, selector: Option<Seq<char>> },
}

/// What an [`Action`] is.
pub enum ActionModel {
    DismissPopup,
    WaitShort,
    ClickBounds(Bounds),
    Sequence(Seq<StrokeModel>),
}

/// What a [`PlanStep`] asks for.
pub enum Step {
    OpenChat { chat_id: Seq<char>, force: bool, click_xy: Option<(int, int)> },
    RunThenAct {
        command: Seq<char>,
        args: Seq<Seq<char>>,
        action: ActionModel,
        frame: Option<Seq<char>>,
    },
    Act { action: ActionModel, frame: Option<Seq<char>> },
    Stop,
}

/// What [`SendMessageParams`] say.
pub struct Orders {
    pub chat_id: Seq<char>,
    pub message: Option<Seq<char>>,
    pub image_path: Option<Seq<char>>,
    pub image_mime: Option<Seq<char>>,
    pub file_path: Option<Seq<char>>,
}

impl View for SendMessageParams {
    type V = Orders;

    open spec fn view(&self) -> Orders {
        Orders {
            chat_id: self.chat_id@,
            message: opt_text(self.message),
            image_path: opt_text(self.image_path),
            image_mime: opt_text(self.image_mime),
            file_path: opt_text(self.file_path),
        }
    }
}

impl View for OpenChatResult {
    type V = Opened;

    open spec fn view(&self) -> Opened {
        Opened { ok: self.ok, error: opt_text(self.error), skipped: self.skipped }
    }
}

impl View for SendMessagePlanState {
    type V = Plan;

    open spec fn view(&self) -> Plan {
        Plan {
            phase: self.phase,
            open_result: match self.open_result {
                Some(r) => Some(r@),
                None => None,
            },
            confirm_attempts: self.confirm_attempts as int,
            sent: self.send_action_executed,
            failure: opt_text(self.failure_reason),
        }
    }
}

impl View for Stroke {
    type V = StrokeModel;

    open spec fn view(&self) -> StrokeModel {
        match *self {
            Stroke::Wait { ms } => StrokeModel::Wait { ms },
            Stroke::Key { combo } => StrokeModel::Key { combo: combo@ },
            Stroke::Type { text, selector } => StrokeModel::Type {
                text: text@,
                selector: opt_text(selector),
            },
        }
    }
}

impl View for Action {
    type V = ActionModel;

    open spec fn view(&self) -> ActionModel {
        match *self {
            Action::DismissPopup => ActionModel::DismissPopup,
            Action::WaitShort => ActionModel::WaitShort,
            Action::ClickBounds(b) => ActionModel::ClickBounds(b),
            Action::Sequence(strokes) => ActionModel::Sequence(
                strokes@.map_values(|s: Stroke| s@),
            ),
        }
    }
}

impl View for PlanStep {
    type V = Step;

    open spec fn view(&self) -> Step {
        match *self {
            PlanStep::OpenChat { chat_id, force, click_xy } => Step::OpenChat {
                chat_id: chat_id@,
                force,
                click_xy: match click_xy {
                    Some((x, y)) => Some((x as int, y as int)),
                    None => None,
                },
            },
            PlanStep::RunThenAct { command, args, selected } => Step::RunThenAct {
                command: command@,
                args: texts(args@),
                action: selected.action@,
                frame: opt_text(selected.frame),
            },
            PlanStep::Act(selected) => Step::Act {
                action: selected.action@,
                frame: opt_text(selected.frame),
            },
            PlanStep::Stop => Step::Stop,
        }
    }
}

/// What the plan is told.
pub open spec fn observation(
    state: AppState,
    params: SendMessageParams,
    identified: IdentifiedStates,
    a11y: A11yNode,
) -> Observation {
    Observation {
        popup: state.popup is Some && identified.popup is Some,
        main_state: match identified.main_window {
            Some(m) => Some(m.state_id@),
            None => None,
        },
        frame: match identified.main_window {
            Some(m) => opt_text(m.frame),
            None => None,
        },
        chat_id: params.chat_id@,
        message: opt_text(params.message),
        image_path: opt_text(params.image_path),
        image_mime: opt_text(params.image_mime),
        file_path: opt_text(params.file_path),
        a11y,
    }
}

/// A plan that has failed.
pub open spec fn failed(plan: Plan, reason: Seq<char>) -> (Plan, Step) {
    (Plan { failure: Some(reason), ..plan }, Step::Stop)
}

/// A step that performs one action.
pub open spec fn act(seen: Observation, action: ActionModel) -> Step {
    Step::Act { action, frame: seen.frame }
}

/// The name of the state of the main window in a diagnostic.
pub open spec fn state_text(seen: Observation) -> Seq<char> {
    match seen.main_state {
        Some(s) => s,
        None => "none"@,
    }
}

/// Where to click to bring up the list of chats: the middle of its first row.
pub open spec fn list_click(a11y: A11yNode) -> Option<(int, int)> {
    match first_chat_row(a11y) {
        Some(row) => match row.bounds {
            Some(b) => Some(
                (
                    rounded(2 * b.x + b.width, 2 * SUBPIXELS as int),
                    rounded(2 * b.y + b.height, 2 * SUBPIXELS as int),
                ),
            ),
            None => None,
        },
        None => None,
    }
}

/// The first phase: the intended chat is open already, or has to be opened.
pub open spec fn opening(plan: Plan, seen: Observation) -> (Plan, Step) {
    if seen.main_state != Some("chat"@) && seen.main_state != Some("chat_open"@) {
        failed(plan, "invalid_main_state:"@ + state_text(seen))
    } else if target_check(seen.a11y, seen.chat_id) == Ok::<bool, Refusal>(true) {
        focusing(Plan { phase: SendMessagePhase::Focusing, ..plan }, seen)
    } else {
        (
            plan,
            Step::OpenChat {
                chat_id: seen.chat_id,
                force: seen.main_state == Some("chat"@),
                click_xy: list_click(seen.a11y),
            },
        )
    }
}

/// After the chat was opened, or could not be.
pub open spec fn opened(plan: Plan, seen: Observation, result: Opened) -> (Plan, Step) {
    let kept = Plan { open_result: Some(result), ..plan };
    if !result.ok {
        failed(
            kept,
            "open_chat_failed:"@ + match result.error {
                Some(e) => e,
                None => "open_chat_failed"@,
            },
        )
    } else {
        let next = Plan { phase: SendMessagePhase::Focusing, ..kept };
        if result.skipped == Some(true) {
            focusing(next, seen)
        } else {
            (next, act(seen, ActionModel::WaitShort))
        }
    }
}

/// The second phase: the composer gets the focus.
pub open spec fn focusing(plan: Plan, seen: Observation) -> (Plan, Step) {
    let next = Plan { phase: SendMessagePhase::Inputting, ..plan };
    if seen.main_state != Some("chat_open"@) {
        failed(plan, "focusing_invalid_main_state:"@ + state_text(seen))
    } else {
        match active_pair(seen.a11y) {
            Err(e) => failed(plan, refusal_code(e)),
            Ok((edit, _)) => if has_state(edit, "FOCUSED"@) {
                inputting(next, seen)
            } else {
                match edit.bounds {
                    Some(b) => (next, act(seen, ActionModel::ClickBounds(b))),
                    None => failed(next, "edit_node_missing_bounds"@),
                }
            },
        }
    }
}

/// The inputs that send what was pasted.
pub open spec fn send_pasted() -> ActionModel {
    ActionModel::Sequence(
        seq![StrokeModel::Wait { ms: 100 }, StrokeModel::Key { combo: "Return"@ }],
    )
}

/// The inputs that type a text in place of what is there, and send it.
pub open spec fn send_typed(text: Seq<char>) -> ActionModel {
    ActionModel::Sequence(
        seq![
            StrokeModel::Key { combo: "ctrl+a"@ },
            StrokeModel::Type { text, selector: None },
            StrokeModel::Wait { ms: 100 },
            StrokeModel::Key { combo: "Return"@ },
        ],
    )
}

/// The step that puts in the payload and sends it: a file before an image before a text.
pub open spec fn payload(plan: Plan, seen: Observation) -> (Plan, Step) {
    if seen.file_path is Some {
        (
            plan,
            Step::RunThenAct {
                command: "paste-file"@,
                args: seq![seen.file_path->Some_0],
                action: send_pasted(),
                frame: seen.frame,
            },
        )
    } else if seen.image_path is Some {
        (
            plan,
            Step::RunThenAct {
                command: "paste-image"@,
                args: match seen.image_mime {
                    Some(mime) => seq![seen.image_path->Some_0, mime],
                    None => seq![seen.image_path->Some_0],
                },
                action: send_pasted(),
                frame: seen.frame,
            },
        )
    } else if seen.message is Some {
        (plan, act(seen, send_typed(seen.message->Some_0)))
    } else {
        failed(plan, "no_payload_specified"@)
    }
}

/// The third phase: the payload is sent, once, to the chat that was verified.
pub open spec fn inputting(plan: Plan, seen: Observation) -> (Plan, Step) {
    if plan.sent {
        (Plan { phase: SendMessagePhase::Done, ..plan }, Step::Stop)
    } else {
        match target_check(seen.a11y, seen.chat_id) {
            Err(e) => failed(plan, refusal_code(e)),
            Ok(false) => failed(
                plan,
                "target_not_verified:expected='"@ + seen.chat_id + "',actual='none'"@,
            ),
            Ok(true) => match active_pair(seen.a11y) {
                Err(e) => failed(plan, refusal_code(e)),
                Ok(_) => payload(
                    Plan { phase: SendMessagePhase::Confirming, sent: true, ..plan },
                    seen,
                ),
            },
        }
    }
}

/// The fourth phase: the message has gone once the send button is disabled.
pub open spec fn confirming(plan: Plan, seen: Observation) -> (Plan, Step) {
    match active_pair(seen.a11y) {
        Err(e) => failed(plan, refusal_code(e)),
        Ok((_, send)) => if has_state(send, "DISABLED"@) {
            (
                Plan { phase: SendMessagePhase::Done, ..plan },
                act(seen, ActionModel::WaitShort),
            )
        } else {
            let next = Plan { confirm_attempts: plan.confirm_attempts + 1, ..plan };
            if next.confirm_attempts >= 5 {
                failed(next, "confirm_timeout_send_button_still_enabled"@)
            } else {
                (next, act(seen, ActionModel::WaitShort))
            }
        },
    }
}

/// The step that the plan asks for, and the plan after it. A popup is dismissed first.
pub open spec fn selected(plan: Plan, seen: Observation) -> (Plan, Step) {
    if seen.popup {
        (plan, act(seen, ActionModel::DismissPopup))
    } else {
        match plan.phase {
            SendMessagePhase::Opening => opening(plan, seen),
            SendMessagePhase::Focusing => focusing(plan, seen),
            SendMessagePhase::Inputting => inputting(plan, seen),
            SendMessagePhase::Confirming => confirming(plan, seen),
            SendMessagePhase::Done => (plan, Step::Stop),
        }
    }
}

// ---------------------------------------------------------------------------
// The plan
// ---------------------------------------------------------------------------

fn main_state_is(identified: &IdentifiedStates, id: &str) -> (r: bool)
    ensures
        r == (match identified.main_window {
            Some(m) => m.state_id@ == id@,
            None => false,
        }),
{
    match &identified.main_window {
        Some(m) => same_text(m.state_id.as_str(), id),
        None => false,
    }
}

fn with_state(head: &str, identified: &IdentifiedStates) -> (r: String)
    ensures
        r@ == head@ + (match identified.main_window {
            Some(m) => m.state_id@,
            None => "none"@,
        }),
{
    let mut out = head.to_owned();
    match &identified.main_window {
        Some(m) => out.append(m.state_id.as_str()),
        None => out.append("none"),
    }
    out
}

fn on_frame(action: Action, identified: &IdentifiedStates) -> (r: SelectedAction)
    ensures
        r.action == action,
        opt_text(r.frame) == (match identified.main_window {
            Some(m) => opt_text(m.frame),
            None => None,
        }),
{
    let frame = match &identified.main_window {
        Some(m) => m.frame.clone(),
        None => None,
    };
    SelectedAction { action, frame }
}

fn paste_strokes() -> (r: Action)
    ensures
        r@ == send_pasted(),
{
    let mut strokes: Vec<Stroke> = Vec::new();
    strokes.push(Stroke::Wait { ms: 100 });
    strokes.push(Stroke::Key { combo: "Return".to_owned() });
    assert(strokes@.map_values(|s: Stroke| s@) =~= send_pasted()->Sequence_0);
    Action::Sequence(strokes)
}

fn type_strokes(text: &String) -> (r: Action)
    ensures
        r@ == send_typed(text@),
{
    let mut strokes: Vec<Stroke> = Vec::new();
    strokes.push(Stroke::Key { combo: "ctrl+a".to_owned() });
    strokes.push(Stroke::Type { text: text.clone(), selector: None });
    strokes.push(Stroke::Wait { ms: 100 });
    strokes.push(Stroke::Key { combo: "Return".to_owned() });
    assert(strokes@.map_values(|s: Stroke| s@) =~= send_typed(text@)->Sequence_0);
    Action::Sequence(strokes)
}

impl SendMessagePlan {
    /// The name of the plan.
    pub fn id(&self) -> (r: &'static str)
        ensures
            r@ == "send_message"@,
    {
        "send_message"
    }

    /// The state in which the plan begins.
    pub fn initial_plan_state(&self) -> (r: SendMessagePlanState)
        ensures
            r@ == initial_plan(),
    {
        SendMessagePlanState {
            phase: SendMessagePhase::Opening,
            open_result: None,
            confirm_attempts: 0,
            send_action_executed: false,
            failure_reason: None,
        }
    }

    /// Whether the message has gone.
    pub fn is_goal_reached(&self, _state: &AppState, plan_state: &SendMessagePlanState) -> (r: bool)
        ensures
            r == (plan_state.phase == SendMessagePhase::Done),
    {
        matches!(plan_state.phase, SendMessagePhase::Done)
    }

    /// Why the plan failed, if it did.
    pub fn failure_reason(&self, plan_state: &SendMessagePlanState) -> (r: Option<String>)
        ensures
            opt_text(r) == plan_state@.failure,
    {
        match &plan_state.failure_reason {
            Some(reason) => Some(reason.clone()),
            None => None,
        }
    }

    fn opening(
        &self,
        state: &AppState,
        params: &SendMessageParams,
        identified: &IdentifiedStates,
        plan_state: &mut SendMessagePlanState,
        a11y: &A11yNode,
    ) -> (r: PlanStep)
        ensures
            (final(plan_state)@, r@) == opening(
                old(plan_state)@,
                observation(*state, *params, *identified, *a11y),
            ),
    {
        if !main_state_is(identified, "chat") && !main_state_is(identified, "chat_open") {
            plan_state.failure_reason = Some(with_state("invalid_main_state:", identified));
            return PlanStep::Stop;
        }
        match verify_target_chat(a11y, params.chat_id.as_str()) {
            Ok(true) => {
                plan_state.phase = SendMessagePhase::Focusing;
                return self.focusing(state, params, identified, plan_state, a11y);
            },
            _ => {},
        }
        let click_xy = match query_first_chat_row(a11y) {
            Some(row) => match &row.bounds {
                Some(b) => Some(b.center()),
                None => None,
            },
            None => None,
        };
        PlanStep::OpenChat {
            chat_id: params.chat_id.clone(),
            force: main_state_is(identified, "chat"),
            click_xy,
        }
    }

    fn focusing(
        &self,
        state: &AppState,
        params: &SendMessageParams,
        identified: &IdentifiedStates,
        plan_state: &mut SendMessagePlanState,
        a11y: &A11yNode,
    ) -> (r: PlanStep)
        ensures
            (final(plan_state)@, r@) == focusing(
                old(plan_state)@,
                observation(*state, *params, *identified, *a11y),
            ),
    {
        if !main_state_is(identified, "chat_open") {
            plan_state.failure_reason =
            Some(with_state("focusing_invalid_main_state:", identified));
            return PlanStep::Stop;
        }
        let edit = match resolve_active_composer(a11y) {
            Ok((edit, _)) => edit,
            Err(e) => {
                plan_state.failure_reason = Some(e.code());
                return PlanStep::Stop;
            },
        };
        plan_state.phase = SendMessagePhase::Inputting;
        if node_has_state(edit, "FOCUSED") {
            return self.inputting(state, params, identified, plan_state, a11y);
        }
        match &edit.bounds {
            Some(b) => PlanStep::Act(on_frame(Action::ClickBounds(*b), identified)),
            None => {
                plan_state.failure_reason = Some("edit_node_missing_bounds".to_owned());
                PlanStep::Stop
            },
        }
    }

    fn inputting(
        &self,
        state: &AppState,
        params: &SendMessageParams,
        identified: &IdentifiedStates,
        plan_state: &mut SendMessagePlanState,
        a11y: &A11yNode,
    ) -> (r: PlanStep)
        ensures
            (final(plan_state)@, r@) == inputting(
                old(plan_state)@,
                observation(*state, *params, *identified, *a11y),
            ),
    {
        if plan_state.send_action_executed {
            plan_state.phase = SendMessagePhase::Done;
            return PlanStep::Stop;
        }
        match verify_target_chat(a11y, params.chat_id.as_str()) {
            Ok(true) => {},
            Ok(false) => {
                let mut reason = "target_not_verified:expected='".to_owned();
                reason.append(params.chat_id.as_str());
                reason.append("',actual='none'");
                plan_state.failure_reason = Some(reason);
                return PlanStep::Stop;
            },
            Err(e) => {
                plan_state.failure_reason = Some(e.code());
                return PlanStep::Stop;
            },
        }
        match resolve_active_composer(a11y) {
            Ok(_) => {},
            Err(e) => {
                plan_state.failure_reason = Some(e.code());
                return PlanStep::Stop;
            },
        }
        plan_state.send_action_executed = true;
        plan_state.phase = SendMessagePhase::Confirming;
        if let Some(path) = &params.file_path {
            let mut args: Vec<String> = Vec::new();
            args.push(path.clone());
            assert(texts(args@) =~= seq![path@]);
            return PlanStep::RunThenAct {
                command: "paste-file".to_owned(),
                args,
                selected: on_frame(paste_strokes(), identified),
            };
        }
        if let Some(path) = &params.image_path {
            let mut args: Vec<String> = Vec::new();
            args.push(path.clone());
            if let Some(mime) = &params.image_mime {
                args.push(mime.clone());
                assert(texts(args@) =~= seq![path@, mime@]);
            } else {
                assert(texts(args@) =~= seq![path@]);
            }
            return PlanStep::RunThenAct {
                command: "paste-image".to_owned(),
                args,
                selected: on_frame(paste_strokes(), identified),
            };
        }
        if let Some(text) = &params.message {
            return PlanStep::Act(on_frame(type_strokes(text), identified));
        }
        plan_state.failure_reason = Some("no_payload_specified".to_owned());
        PlanStep::Stop
    }

    fn confirming(
        &self,
        state: &AppState,
        params: &SendMessageParams,
        identified: &IdentifiedStates,
        plan_state: &mut SendMessagePlanState,
        a11y: &A11yNode,
    ) -> (r: PlanStep)
        requires
            confirming(
                old(plan_state)@,
                observation(*state, *params, *identified, *a11y),
            ).0.confirm_attempts <= u32::MAX,
        ensures
            (final(plan_state)@, r@) == confirming(
                old(plan_state)@,
                observation(*state, *params, *identified, *a11y),
            ),
    {
        let send = match resolve_active_composer(a11y) {
            Ok((_, send)) => send,
            Err(e) => {
                plan_state.failure_reason = Some(e.code());
                return PlanStep::Stop;
            },
        };
        if node_has_state(send, "DISABLED") {
            plan_state.phase = SendMessagePhase::Done;
            return PlanStep::Act(on_frame(Action::WaitShort, identified));
        }
        plan_state.confirm_attempts = plan_state.confirm_attempts + 1;
        if plan_state.confirm_attempts >= 5 {
            plan_state.failure_reason =
            Some("confirm_timeout_send_button_still_enabled".to_owned());
            return PlanStep::Stop;
        }
        PlanStep::Act(on_frame(Action::WaitShort, identified))
    }

    /// Selects the next step of the plan. Where the step counts an attempt to confirm, the count must
    /// not run over.
    pub fn select_action(
        &self,
        state: &AppState,
        params: &SendMessageParams,
        identified: &IdentifiedStates,
        plan_state: &mut SendMessagePlanState,
        a11y: &A11yNode,
        _session_id: &str,
    ) -> (r: PlanStep)
        requires
            selected(
                old(plan_state)@,
                observation(*state, *params, *identified, *a11y),
            ).0.confirm_attempts <= u32::MAX,
        ensures
            (final(plan_state)@, r@) == selected(
                old(plan_state)@,
                observation(*state, *params, *identified, *a11y),
            ),
    {
        if state.popup.is_some() && identified.popup.is_some() {
            return PlanStep::Act(on_frame(Action::DismissPopup, identified));
        }
        match plan_state.phase {
            SendMessagePhase::Opening => self.opening(state, params, identified, plan_state, a11y),
            SendMessagePhase::Focusing => self.focusing(
                state,
                params,
                identified,
                plan_state,
                a11y,
            ),
            SendMessagePhase::Inputting => self.inputting(
                state,
                params,
                identified,
                plan_state,
                a11y,
            ),
            SendMessagePhase::Confirming => self.confirming(
                state,
                params,
                identified,
                plan_state,
                a11y,
            ),
            SendMessagePhase::Done => PlanStep::Stop,
        }
    }

    /// Goes on after the chat was opened as [`PlanStep::OpenChat`] asked.
    pub fn chat_opened(
        &self,
        state: &AppState,
        params: &SendMessageParams,
        identified: &IdentifiedStates,
        plan_state: &mut SendMessagePlanState,
        a11y: &A11yNode,
        result: OpenChatResult,
    ) -> (r: PlanStep)
        requires
            old(plan_state).phase == SendMessagePhase::Opening,
        ensures
            (final(plan_state)@, r@) == opened(
                old(plan_state)@,
                observation(*state, *params, *identified, *a11y),
                result@,
            ),
    {
        if !result.ok {
            let mut reason = "open_chat_failed:".to_owned();
            match &result.error {
                Some(e) => reason.append(e.as_str()),
                None => reason.append("open_chat_failed"),
            }
            plan_state.failure_reason = Some(reason);
            plan_state.open_result = Some(result);
            return PlanStep::Stop;
        }
        let skipped = match result.skipped {
            Some(s) => s,
            None => false,
        };
        plan_state.open_result = Some(result);
        plan_state.phase = SendMessagePhase::Focusing;
        if !skipped {
            return PlanStep::Act(on_frame(Action::WaitShort, identified));
        }
        self.focusing(state, params, identified, plan_state, a11y)
    }
}

// ---------------------------------------------------------------------------
// Laws
// ---------------------------------------------------------------------------

/// The state in which a plan begins.
pub open spec fn initial_plan() -> Plan {
    Plan {
        phase: SendMessagePhase::Opening,
        open_result: None,
        confirm_attempts: 0,
        sent: false,
        failure: None,
    }
}

/// Whether a step puts a payload into the composer and sends it.
pub open spec fn sends(step: Step) -> bool {
    match step {
        Step::RunThenAct { .. } => true,
        Step::Act { action, .. } => action is Sequence,
        _ => false,
    }
}

/// The place of a phase in the order of the phases.
pub open spec fn rank(phase: SendMessagePhase) -> int {
    match phase {
        SendMessagePhase::Opening => 0,
        SendMessagePhase::Focusing => 1,
        SendMessagePhase::Inputting => 2,
        SendMessagePhase::Confirming => 3,
        SendMessagePhase::Done => 4,
    }
}

/// What can happen to a plan: it is asked for a step, or it is told how opening the chat went.
pub enum Event {
    Asked(Observation),
    ChatOpened(Observation, Opened),
}

/// The plan and the step after an event. A result that was not asked for changes nothing.
pub open spec fn after(plan: Plan, event: Event) -> (Plan, Step) {
    match event {
        Event::Asked(seen) => selected(plan, seen),
        Event::ChatOpened(seen, result) => if plan.phase == SendMessagePhase::Opening {
            opened(plan, seen, result)
        } else {
            (plan, Step::Stop)
        },
    }
}

/// What the plan was told in an event.
pub open spec fn seen_in(event: Event) -> Observation {
    match event {
        Event::Asked(seen) => seen,
        Event::ChatOpened(seen, _) => seen,
    }
}

/// How many of the steps after the first `n` events send something.
pub open spec fn sends_in(plan: Plan, events: Seq<Event>, n: nat) -> nat
    decreases n,
{
    if n == 0 {
        0
    } else {
        let before = plan_after(plan, events, (n - 1) as nat);
        sends_in(plan, events, (n - 1) as nat) + if sends(after(before, events[n - 1]).1) {
            1nat
        } else {
            0nat
        }
    }
}

/// The plan after the first `n` events.
pub open spec fn plan_after(plan: Plan, events: Seq<Event>, n: nat) -> Plan
    decreases n,
{
    if n == 0 {
        plan
    } else {
        after(plan_after(plan, events, (n - 1) as nat), events[n - 1]).0
    }
}

/// A payload is sent only when nothing was sent before, the chat that is open is the intended one,
/// one composer is active and there is a payload. From then on the plan counts as sent.
pub proof fn law_send_is_guarded(plan: Plan, event: Event)
    requires
        sends(after(plan, event).1),
    ensures
        !plan.sent,
        after(plan, event).0.sent,
        !seen_in(event).popup || event is ChatOpened,
        target_check(seen_in(event).a11y, seen_in(event).chat_id) == Ok::<bool, Refusal>(true),
        active_pair(seen_in(event).a11y) is Ok,
        seen_in(event).file_path is Some || seen_in(event).image_path is Some || seen_in(
            event,
        ).message is Some,
{
}

/// A payload goes to the chat that was verified: where no frame stands inside another, the composer
/// that it is put into stands in the window whose title is that of the intended chat.
pub proof fn law_payload_goes_to_the_verified_window(plan: Plan, event: Event)
    requires
        sends(after(plan, event).1),
        is_flat(seen_in(event).a11y),
    ensures
        ({
            let a11y = seen_in(event).a11y;
            &&& active_main_frame(a11y) is Ok
            &&& frame_title(active_main_frame(a11y)->Ok_0) is Some
            &&& is_same_chat(
                seen_in(event).chat_id,
                frame_title(active_main_frame(a11y)->Ok_0)->Some_0,
            )
            &&& active_composer(a11y) is Ok
            &&& composers(active_main_frame(a11y)->Ok_0, None).contains(
                active_composer(a11y)->Ok_0,
            )
        }),
{
    law_send_is_guarded(plan, event);
    law_composer_is_in_the_active_window(seen_in(event).a11y);
}

/// A plan that has sent something stays so, and sends nothing more.
pub proof fn law_sent_stays(plan: Plan, event: Event)
    requires
        plan.sent,
    ensures
        after(plan, event).0.sent,
        !sends(after(plan, event).1),
{
}

/// Over any run of a plan at most one payload is sent, and none where one was sent before.
pub proof fn law_at_most_one_send(plan: Plan, events: Seq<Event>, n: nat)
    requires
        n <= events.len(),
    ensures
        sends_in(plan, events, n) <= 1,
        plan.sent ==> sends_in(plan, events, n) == 0,
        sends_in(plan, events, n) == 1 ==> plan_after(plan, events, n).sent,
        plan.sent ==> plan_after(plan, events, n).sent,
    decreases n,
{
    if n > 0 {
        law_at_most_one_send(plan, events, (n - 1) as nat);
        let before = plan_after(plan, events, (n - 1) as nat);
        if before.sent {
            law_sent_stays(before, events[n - 1]);
        }
        if sends(after(before, events[n - 1]).1) {
            law_send_is_guarded(before, events[n - 1]);
        }
    }
}

/// The phases are gone through in their order: no event takes a plan back.
pub proof fn law_phases_advance(plan: Plan, event: Event)
    ensures
        rank(plan.phase) <= rank(after(plan, event).0.phase),
{
}

/// Where the plan, asked for a step, has none, it is done or it says why it failed.
pub proof fn law_stop_is_explained(plan: Plan, seen: Observation)
    requires
        selected(plan, seen).1 is Stop,
    ensures
        selected(plan, seen).0.phase == SendMessagePhase::Done || selected(
            plan,
            seen,
        ).0.failure is Some,
{
}

/// Every step but a stop records no failure: what failed before is all that has failed.
pub proof fn law_action_records_no_failure(plan: Plan, event: Event)
    requires
        !(after(plan, event).1 is Stop),
    ensures
        after(plan, event).0.failure == plan.failure,
{
}

/// A plan comes to count as sent only where the chat that is open is the intended one and one
/// composer is active. It is then about to be confirmed.
pub proof fn law_sent_mark_is_guarded(plan: Plan, event: Event)
    requires
        !plan.sent,
        after(plan, event).0.sent,
    ensures
        target_check(seen_in(event).a11y, seen_in(event).chat_id) == Ok::<bool, Refusal>(true),
        active_pair(seen_in(event).a11y) is Ok,
        after(plan, event).0.phase == SendMessagePhase::Confirming,
{
}

/// A plan that is done only dismisses popups, and stays as it is.
pub proof fn law_done_is_final(plan: Plan, seen: Observation)
    requires
        plan.phase == SendMessagePhase::Done,
    ensures
        selected(plan, seen).0 == plan,
        selected(plan, seen).1 == (if seen.popup {
            act(seen, ActionModel::DismissPopup)
        } else {
            Step::Stop
        }),
{
}

/// While a popup is in the way it is dismissed, and the plan stays where it was.
pub proof fn law_popup_first(plan: Plan, seen: Observation)
    requires
        seen.popup,
    ensures
        selected(plan, seen) == (plan, act(seen, ActionModel::DismissPopup)),
{
}

/// A plan waits for the confirmation fewer than five times: `n` steps of a run that begins fresh
/// and ends in no failure leave fewer than five attempts, so the counter cannot overflow.
pub proof fn law_confirmation_is_bounded(events: Seq<Event>, n: nat)
    requires
        n <= events.len(),
        plan_after(initial_plan(), events, n).failure is None,
    ensures
        0 <= plan_after(initial_plan(), events, n).confirm_attempts < 5,
    decreases n,
{
    if n > 0 {
        let before = plan_after(initial_plan(), events, (n - 1) as nat);
        assert(before.failure is Some ==> after(before, events[n - 1]).0.failure is Some);
        law_confirmation_is_bounded(events, (n - 1) as nat);
    }
}

/// A plan gets to its end only by way of a sent payload: a run that begins fresh and ends in
/// the confirmation, or after it, has sent exactly one payload or says why it sent none.
pub proof fn law_done_means_sent(events: Seq<Event>, n: nat)
    requires
        n <= events.len(),
    ensures
        rank(plan_after(initial_plan(), events, n).phase) >= 3 <==> plan_after(
            initial_plan(),
            events,
            n,
        ).sent,
        plan_after(initial_plan(), events, n).sent ==> sends_in(initial_plan(), events, n) == 1
            || plan_after(initial_plan(), events, n).failure is Some,
    decreases n,
{
    if n > 0 {
        let before = plan_after(initial_plan(), events, (n - 1) as nat);
        assert(before.failure is Some ==> after(before, events[n - 1]).0.failure is Some);
        law_done_means_sent(events, (n - 1) as nat);
        law_at_most_one_send(initial_plan(), events, n);
    }
}

/// Every event counts at most one attempt to confirm: after `n` of them a run that began fresh has
/// counted no more than `n`, whether or not it has failed.
pub proof fn law_attempts_are_counted_singly(events: Seq<Event>, n: nat)
    requires
        n <= events.len(),
    ensures
        0 <= plan_after(initial_plan(), events, n).confirm_attempts <= n,
    decreases n,
{
    if n > 0 {
        law_attempts_are_counted_singly(events, (n - 1) as nat);
    }
}

// ---------------------------------------------------------------------------
// Laws: what each step is for
// ---------------------------------------------------------------------------

/// The plan is told all that was seen and all that was ordered: the popup only where both sources
/// show one, the state and the frame of the main window, the chat, and every part of the payload.
pub proof fn law_plan_is_told_everything(
    state: AppState,
    params: SendMessageParams,
    identified: IdentifiedStates,
    a11y: A11yNode,
)
    ensures
        ({
            let seen = observation(state, params, identified, a11y);
            &&& seen.a11y == a11y
            &&& seen.popup <==> state.popup is Some && identified.popup is Some
            &&& seen.main_state is Some <==> identified.main_window is Some
            &&& identified.main_window is Some ==> {
                let main = identified.main_window->Some_0;
                &&& seen.main_state == Some(main.state_id@)
                &&& seen.frame is Some <==> main.frame is Some
                &&& main.frame is Some ==> seen.frame == Some(main.frame->Some_0@)
            }
            &&& identified.main_window is None ==> seen.frame is None
            &&& seen.chat_id == params.chat_id@
            &&& seen.message is Some <==> params.message is Some
            &&& params.message is Some ==> seen.message == Some(params.message->Some_0@)
            &&& seen.image_path is Some <==> params.image_path is Some
            &&& params.image_path is Some ==> seen.image_path == Some(params.image_path->Some_0@)
            &&& seen.image_mime is Some <==> params.image_mime is Some
            &&& params.image_mime is Some ==> seen.image_mime == Some(params.image_mime->Some_0@)
            &&& seen.file_path is Some <==> params.file_path is Some
            &&& params.file_path is Some ==> seen.file_path == Some(params.file_path->Some_0@)
        }),
{
}

/// Nothing of a step is lost in what it is taken to ask for: two steps that ask for the same are of
/// the same kind and agree in every part.
pub proof fn law_steps_say_all(a: PlanStep, b: PlanStep)
    requires
        a@ == b@,
    ensures
        a is Stop <==> b is Stop,
        a is OpenChat <==> b is OpenChat,
        a is OpenChat ==> a->chat_id@ == b->chat_id@ && a->force == b->force && a->click_xy
            == b->click_xy,
        a is RunThenAct <==> b is RunThenAct,
        a is RunThenAct ==> a->command@ == b->command@ && texts(a->args@) == texts(b->args@)
            && a->selected.action@ == b->selected.action@ && opt_text(a->selected.frame)
            == opt_text(b->selected.frame),
        a is Act <==> b is Act,
        a is Act ==> a->Act_0.action@ == b->Act_0.action@ && opt_text(a->Act_0.frame) == opt_text(
            b->Act_0.frame,
        ),
{
}

/// Nothing of an action is lost in what it is taken for: two actions that are taken for the same
/// are of the same kind, click the same place and have the same inputs in the same order.
pub proof fn law_actions_say_all(a: Action, b: Action, i: int)
    requires
        a@ == b@,
    ensures
        a is DismissPopup <==> b is DismissPopup,
        a is WaitShort <==> b is WaitShort,
        a is ClickBounds <==> b is ClickBounds,
        a is ClickBounds ==> a->ClickBounds_0 == b->ClickBounds_0,
        a is Sequence <==> b is Sequence,
        a is Sequence ==> a->Sequence_0@.len() == b->Sequence_0@.len(),
        a is Sequence && 0 <= i < a->Sequence_0@.len() ==> {
            let (s, t) = (a->Sequence_0@[i], b->Sequence_0@[i]);
            &&& s is Wait <==> t is Wait
            &&& s is Wait ==> s->ms == t->ms
            &&& s is Key <==> t is Key
            &&& s is Key ==> s->combo@ == t->combo@
            &&& s is Type ==> t is Type && s->text@ == t->text@ && (s->selector is Some
                <==> t->selector is Some)
        },
{
    if a is Sequence && 0 <= i < a->Sequence_0@.len() {
        let (xs, ys) = (a->Sequence_0@, b->Sequence_0@);
        let model = |s: Stroke| s@;
        assert(xs.map_values(model).len() == ys.map_values(model).len());
        assert(xs.map_values(model)[i] == ys.map_values(model)[i]);
        assert(xs[i]@ == ys[i]@);
    } else if a is Sequence {
        let (xs, ys) = (a->Sequence_0@, b->Sequence_0@);
        let model = |s: Stroke| s@;
        assert(xs.map_values(model).len() == ys.map_values(model).len());
    }
}

/// Nothing of a plan is lost in what it is taken to hold.
pub proof fn law_plan_states_say_all(s: SendMessagePlanState)
    ensures
        s@.phase == s.phase,
        s@.confirm_attempts == s.confirm_attempts,
        s@.sent == s.send_action_executed,
        s@.failure is Some <==> s.failure_reason is Some,
        s.failure_reason is Some ==> s@.failure == Some(s.failure_reason->Some_0@),
        s@.open_result is Some <==> s.open_result is Some,
        s.open_result is Some ==> {
            let (told, held) = (s@.open_result->Some_0, s.open_result->Some_0);
            &&& told.ok == held.ok
            &&& told.skipped == held.skipped
            &&& told.error is Some <==> held.error is Some
            &&& held.error is Some ==> told.error == Some(held.error->Some_0@)
        },
{
}

/// Nothing of an order is lost in what it is taken to say.
pub proof fn law_orders_say_all(p: SendMessageParams)
    ensures
        p@.chat_id == p.chat_id@,
        p@.message is Some <==> p.message is Some,
        p.message is Some ==> p@.message == Some(p.message->Some_0@),
        p@.image_path is Some <==> p.image_path is Some,
        p.image_path is Some ==> p@.image_path == Some(p.image_path->Some_0@),
        p@.image_mime is Some <==> p.image_mime is Some,
        p.image_mime is Some ==> p@.image_mime == Some(p.image_mime->Some_0@),
        p@.file_path is Some <==> p.file_path is Some,
        p.file_path is Some ==> p@.file_path == Some(p.file_path->Some_0@),
{
}

/// Where another chat is open, or none, the intended chat is opened: the step says which, forces
/// the opening exactly where the main window shows no chat, and the plan stays where it is. Where
/// the list of chats has a first row that can be seen, the click goes to the pixel nearest to its
/// middle; without such a row there is no click.
pub proof fn law_unopened_chat_is_opened(plan: Plan, seen: Observation)
    requires
        plan.phase == SendMessagePhase::Opening,
        !seen.popup,
        seen.main_state == Some("chat"@) || seen.main_state == Some("chat_open"@),
        open_title(seen.a11y) is None || !is_same_chat(
            seen.chat_id,
            open_title(seen.a11y)->Some_0,
        ),
    ensures
        ({
            let (after, step) = selected(plan, seen);
            let row = first_chat_row(seen.a11y);
            &&& after == plan
            &&& step is OpenChat
            &&& step->OpenChat_chat_id == seen.chat_id
            &&& step->OpenChat_force <==> seen.main_state == Some("chat"@)
            &&& step->OpenChat_click_xy is Some <==> row is Some && row->Some_0.bounds is Some
            &&& step->OpenChat_click_xy is Some ==> {
                let b = row->Some_0.bounds->Some_0;
                let (x, y) = step->OpenChat_click_xy->Some_0;
                &&& -65536 <= 2 * 65536 * x - (2 * b.x + b.width) <= 65536
                &&& -65536 <= 2 * 65536 * y - (2 * b.y + b.height) <= 65536
            }
        }),
{
    if first_chat_row(seen.a11y) is Some && first_chat_row(seen.a11y)->Some_0.bounds is Some {
        let b = first_chat_row(seen.a11y)->Some_0.bounds->Some_0;
        law_rounded_is_nearest(2 * b.x + b.width, 131072);
        law_rounded_is_nearest(2 * b.y + b.height, 131072);
    }
}

/// Where the intended chat is open already it is not opened again: the plan goes on as one that was
/// about to focus the composer.
pub proof fn law_open_chat_is_not_opened_again(plan: Plan, seen: Observation)
    requires
        plan.phase == SendMessagePhase::Opening,
        !seen.popup,
        seen.main_state == Some("chat"@) || seen.main_state == Some("chat_open"@),
        open_title(seen.a11y) is Some,
        is_same_chat(seen.chat_id, open_title(seen.a11y)->Some_0),
    ensures
        !(selected(plan, seen).1 is OpenChat),
        selected(plan, seen) == selected(
            Plan { phase: SendMessagePhase::Focusing, ..plan },
            seen,
        ),
{
}

/// Whether a plan has stopped for a reason, with everything but the reason and the phase as it was.
pub open spec fn stops_with(
    result: (Plan, Step),
    plan: Plan,
    phase: SendMessagePhase,
    reason: Seq<char>,
) -> bool {
    &&& result.1 is Stop
    &&& result.0.failure == Some(reason)
    &&& result.0.phase == phase
    &&& result.0.sent == plan.sent
    &&& result.0.confirm_attempts == plan.confirm_attempts
    &&& result.0.open_result == plan.open_result
}

/// Before a chat can be opened, or the composer focused, the main window must be in a fitting
/// state: else the plan stops where it is and names the state.
pub proof fn law_unfit_window_stops_the_plan(plan: Plan, seen: Observation, id: Seq<char>)
    requires
        !seen.popup,
        seen.main_state == Some(id) || (seen.main_state is None && id == "none"@),
    ensures
        plan.phase == SendMessagePhase::Opening && (seen.main_state is None || (id != "chat"@ && id
            != "chat_open"@)) ==> stops_with(
            selected(plan, seen),
            plan,
            SendMessagePhase::Opening,
            "invalid_main_state:"@ + id,
        ),
        plan.phase == SendMessagePhase::Focusing && (seen.main_state is None || id != "chat_open"@)
            ==> stops_with(
            selected(plan, seen),
            plan,
            SendMessagePhase::Focusing,
            "focusing_invalid_main_state:"@ + id,
        ),
{
}

/// In a chat window with a composer to use, the edit box gets the focus by a click on it, in the
/// frame that was seen; with the focus there already the plan goes on to put in the payload at
/// once.
pub proof fn law_composer_gets_the_focus(plan: Plan, seen: Observation)
    requires
        plan.phase == SendMessagePhase::Focusing,
        !seen.popup,
        seen.main_state == Some("chat_open"@),
        active_pair(seen.a11y) is Ok,
    ensures
        ({
            let edit = active_pair(seen.a11y)->Ok_0.0;
            let next = Plan { phase: SendMessagePhase::Inputting, ..plan };
            let (after, step) = selected(plan, seen);
            if has_state(edit, "FOCUSED"@) {
                (after, step) == selected(next, seen)
            } else if edit.bounds is Some {
                &&& after == next
                &&& step == (Step::Act {
                    action: ActionModel::ClickBounds(edit.bounds->Some_0),
                    frame: seen.frame,
                })
            } else {
                stops_with(
                    (after, step),
                    plan,
                    SendMessagePhase::Inputting,
                    "edit_node_missing_bounds"@,
                )
            }
        }),
{
}

/// Without a composer to use the plan stops where it is, and says what the resolution says, whether
/// it was about to focus, to put in the payload or to confirm.
pub proof fn law_missing_composer_stops_the_plan(plan: Plan, seen: Observation)
    requires
        !seen.popup,
        active_pair(seen.a11y) is Err,
        ({
            ||| plan.phase == SendMessagePhase::Focusing && seen.main_state == Some("chat_open"@)
            ||| plan.phase == SendMessagePhase::Inputting && !plan.sent && open_title(
                seen.a11y,
            ) is Some && is_same_chat(seen.chat_id, open_title(seen.a11y)->Some_0)
            ||| plan.phase == SendMessagePhase::Confirming
        }),
    ensures
        stops_with(
            selected(plan, seen),
            plan,
            plan.phase,
            refusal_code(active_pair(seen.a11y)->Err_0),
        ),
{
}

/// With the intended chat open and a composer to use, the payload goes out at once, and the plan is
/// then to be confirmed. A file is pasted by its path; else an image is pasted by its path, with its
/// type where that is known; else the text takes the place of what was in the box. Each is followed
/// by the key that sends it. Where there is nothing to send, the plan says so.
pub proof fn law_payload_is_put_in(plan: Plan, seen: Observation)
    requires
        plan.phase == SendMessagePhase::Inputting,
        !seen.popup,
        !plan.sent,
        open_title(seen.a11y) is Some,
        is_same_chat(seen.chat_id, open_title(seen.a11y)->Some_0),
        active_pair(seen.a11y) is Ok,
    ensures
        ({
            let (after, step) = selected(plan, seen);
            let pasted = ActionModel::Sequence(
                seq![StrokeModel::Wait { ms: 100 }, StrokeModel::Key { combo: "Return"@ }],
            );
            &&& after.phase == SendMessagePhase::Confirming
            &&& after.sent
            &&& after.confirm_attempts == plan.confirm_attempts
            &&& after.open_result == plan.open_result
            &&& seen.file_path is Some || seen.image_path is Some || seen.message is Some
                ==> after.failure == plan.failure
            &&& seen.file_path is Some ==> step == (Step::RunThenAct {
                command: "paste-file"@,
                args: seq![seen.file_path->Some_0],
                action: pasted,
                frame: seen.frame,
            })
            &&& seen.file_path is None && seen.image_path is Some && seen.image_mime is Some
                ==> step == (Step::RunThenAct {
                command: "paste-image"@,
                args: seq![seen.image_path->Some_0, seen.image_mime->Some_0],
                action: pasted,
                frame: seen.frame,
            })
            &&& seen.file_path is None && seen.image_path is Some && seen.image_mime is None
                ==> step == (Step::RunThenAct {
                command: "paste-image"@,
                args: seq![seen.image_path->Some_0],
                action: pasted,
                frame: seen.frame,
            })
            &&& seen.file_path is None && seen.image_path is None && seen.message is Some
                ==> step == (Step::Act {
                action: ActionModel::Sequence(
                    seq![
                        StrokeModel::Key { combo: "ctrl+a"@ },
                        StrokeModel::Type { text: seen.message->Some_0, selector: None },
                        StrokeModel::Wait { ms: 100 },
                        StrokeModel::Key { combo: "Return"@ },
                    ],
                ),
                frame: seen.frame,
            })
            &&& seen.file_path is None && seen.image_path is None && seen.message is None ==> step
                is Stop && after.failure == Some("no_payload_specified"@)
        }),
{
}

/// Where another chat is open when the payload is due, or none, nothing goes out: the plan stops
/// where it is and says that the target is not verified.
pub proof fn law_unverified_target_stops_the_plan(plan: Plan, seen: Observation)
    requires
        plan.phase == SendMessagePhase::Inputting,
        !seen.popup,
        !plan.sent,
    ensures
        open_title(seen.a11y) is None ==> stops_with(
            selected(plan, seen),
            plan,
            SendMessagePhase::Inputting,
            "target_not_verified:expected='"@ + seen.chat_id + "',actual='none'"@,
        ),
        open_title(seen.a11y) is Some && !is_same_chat(
            seen.chat_id,
            open_title(seen.a11y)->Some_0,
        ) ==> stops_with(
            selected(plan, seen),
            plan,
            SendMessagePhase::Inputting,
            "target_not_verified"@,
        ),
{
}

/// A plan that has sent its payload and is asked to put one in is done instead, and says nothing
/// new of itself.
pub proof fn law_sent_plan_is_done(plan: Plan, seen: Observation)
    requires
        plan.phase == SendMessagePhase::Inputting,
        !seen.popup,
        plan.sent,
    ensures
        selected(plan, seen) == (Plan { phase: SendMessagePhase::Done, ..plan }, Step::Stop),
{
}

/// A message has gone once the send button is disabled: the plan is then done. While it is not, the
/// plan waits and counts, and gives up at the fifth time.
pub proof fn law_disabled_button_confirms(plan: Plan, seen: Observation)
    requires
        plan.phase == SendMessagePhase::Confirming,
        !seen.popup,
        active_pair(seen.a11y) is Ok,
    ensures
        ({
            let (after, step) = selected(plan, seen);
            let waits = Step::Act { action: ActionModel::WaitShort, frame: seen.frame };
            let gone = has_state(active_pair(seen.a11y)->Ok_0.1, "DISABLED"@);
            let tries = plan.confirm_attempts + 1;
            &&& after.sent == plan.sent
            &&& after.open_result == plan.open_result
            &&& after.phase == SendMessagePhase::Done <==> gone
            &&& !gone ==> after.phase == SendMessagePhase::Confirming
            &&& after.confirm_attempts == if gone {
                plan.confirm_attempts
            } else {
                tries
            }
            &&& gone || tries < 5 ==> step == waits && after.failure == plan.failure
            &&& !gone && tries >= 5 ==> step is Stop && after.failure == Some(
                "confirm_timeout_send_button_still_enabled"@,
            )
        }),
{
}

/// A chat that could not be opened ends the plan with the reason. One that was opened leads to the
/// composer, after a short wait where the window had to change, and at once where it did not. How
/// the opening went is kept.
pub proof fn law_opening_goes_on(plan: Plan, seen: Observation, result: Opened)
    ensures
        ({
            let (after, step) = opened(plan, seen, result);
            let kept = Plan { open_result: Some(result), ..plan };
            let next = Plan { phase: SendMessagePhase::Focusing, ..kept };
            let changed = result.skipped is None || !result.skipped->Some_0;
            &&& !result.ok && result.error is Some ==> stops_with(
                (after, step),
                kept,
                plan.phase,
                "open_chat_failed:"@ + result.error->Some_0,
            )
            &&& !result.ok && result.error is None ==> stops_with(
                (after, step),
                kept,
                plan.phase,
                "open_chat_failed:"@ + "open_chat_failed"@,
            )
            &&& result.ok && changed ==> after == next && step == (Step::Act {
                action: ActionModel::WaitShort,
                frame: seen.frame,
            })
            &&& result.ok && !changed && !seen.popup ==> (after, step) == selected(next, seen)
            &&& result.ok && !changed ==> (after, step) == selected(
                next,
                Observation { popup: false, ..seen },
            )
        }),
{
    let calm = Observation { popup: false, ..seen };
    let next = Plan { phase: SendMessagePhase::Focusing, open_result: Some(result), ..plan };
    assert(focusing(next, calm) == focusing(next, seen));
}

/// A popup is dismissed in the frame that was seen, in every phase, and changes nothing else.
pub proof fn law_popup_is_dismissed(plan: Plan, seen: Observation)
    requires
        seen.popup,
    ensures
        selected(plan, seen).0 == plan,
        selected(plan, seen).1 == (Step::Act {
            action: ActionModel::DismissPopup,
            frame: seen.frame,
        }),
{
}

/// A fresh plan is about to open its chat, has tried, sent and failed nothing.
pub proof fn law_fresh_plan()
    ensures
        initial_plan().phase == SendMessagePhase::Opening,
        initial_plan().open_result is None,
        initial_plan().confirm_attempts == 0,
        !initial_plan().sent,
        initial_plan().failure is None,
{
}

} // verus!
