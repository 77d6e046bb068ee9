//! The rules of the conversation with an admin: which handler an update
//! goes to, how a new job is collected one message at a time, and what the
//! arguments of a command mean.
//!
//! Nothing here talks to anybody. Each function takes what arrived as plain
//! values and returns what was decided; sending the replies is the caller's
//! part.

use crate::buttons::{keyboard_of, outcome_view, parse_keyboard, ButtonsError, ButtonsErrorView};
use crate::idlist::{sorted, without_one};
use crate::keyboard::{Button, ButtonKindView, ButtonView, Keyboard};
use crate::number::{decimal, parse_u32, parse_u64, render_u64, u32_of, u64_of};
use crate::runtime::{BotRuntime, NotListed, Whitelist, WhitelistView};
use crate::schedule::{NotFoundError, PoolView, ScheduleTask, TaskRun, TaskSpec};
use crate::text::{chars_of, same_text, split, split_bounds};
use vstd::prelude::*;
use vstd::string::{StrSliceExecFns, StringExecFns};

verus! {

/// The data of the button that confirms a new job.
pub const CONFIRM_YES: &'static str = "add_task_confirm_y";

/// The data of the button that gives a new job up.
pub const CONFIRM_NO: &'static str = "add_task_confirm_n";

/// The label of the button that confirms a new job.
pub const CONFIRM_YES_LABEL: &'static str = "确认";

/// The label of the button that gives a new job up.
pub const CONFIRM_NO_LABEL: &'static str = "取消";

/// How far the conversation that adds a job has come.
#[derive(Debug, PartialEq, Eq)]
pub enum AddTaskDialogueCurrentState {
    /// No job is being added.
    Idle,
    /// The bot waits for the notification text.
    RequestNotifyText,
    /// The bot waits for the repeat interval.
    RequestRepeatInterval { text: String },
    /// The bot waits for the button definitions.
    RequestButtons { text: String, interval: u64 },
    /// The bot waits for the job to be confirmed or given up.
    RequestConfirmation { text: String, interval: u64, buttons: Keyboard },
}

/// Mathematical value of an [`AddTaskDialogueCurrentState`].
pub enum DialogueView {
    Idle,
    RequestNotifyText,
    RequestRepeatInterval { text: Seq<char> },
    RequestButtons { text: Seq<char>, interval: u64 },
    RequestConfirmation { text: Seq<char>, interval: u64, buttons: Seq<Seq<ButtonView>> },
}

impl DeepView for AddTaskDialogueCurrentState {
    type V = DialogueView;

    open spec fn deep_view(&self) -> DialogueView {
        match self {
            AddTaskDialogueCurrentState::Idle => DialogueView::Idle,
            AddTaskDialogueCurrentState::RequestNotifyText => DialogueView::RequestNotifyText,
            AddTaskDialogueCurrentState::RequestRepeatInterval { text } => {
                DialogueView::RequestRepeatInterval { text: text@ }
            },
            AddTaskDialogueCurrentState::RequestButtons { text, interval } => {
                DialogueView::RequestButtons { text: text@, interval: *interval }
            },
            AddTaskDialogueCurrentState::RequestConfirmation { text, interval, buttons } => {
                DialogueView::RequestConfirmation {
                    text: text@,
                    interval: *interval,
                    buttons: buttons.deep_view(),
                }
            },
        }
    }
}

impl Default for AddTaskDialogueCurrentState {
    fn default() -> (state: Self)
        ensures
            state.deep_view() == DialogueView::Idle,
    {
        AddTaskDialogueCurrentState::Idle
    }
}

impl Clone for AddTaskDialogueCurrentState {
    fn clone(&self) -> (copy: Self)
        ensures
            copy.deep_view() == self.deep_view(),
    {
        match self {
            AddTaskDialogueCurrentState::Idle => AddTaskDialogueCurrentState::Idle,
            AddTaskDialogueCurrentState::RequestNotifyText => {
                AddTaskDialogueCurrentState::RequestNotifyText
            },
            AddTaskDialogueCurrentState::RequestRepeatInterval { text } => {
                AddTaskDialogueCurrentState::RequestRepeatInterval { text: text.clone() }
            },
            AddTaskDialogueCurrentState::RequestButtons { text, interval } => {
                AddTaskDialogueCurrentState::RequestButtons {
                    text: text.clone(),
                    interval: *interval,
                }
            },
            AddTaskDialogueCurrentState::RequestConfirmation { text, interval, buttons } => {
                AddTaskDialogueCurrentState::RequestConfirmation {
                    text: text.clone(),
                    interval: *interval,
                    buttons: buttons.clone(),
                }
            },
        }
    }
}

/// The commands that the bot knows.
#[derive(Clone, Copy, Debug, PartialEq, Eq, Structural)]
pub enum Command {
    Help,
    Start,
    AddTask,
    ListTask,
    DelTask,
    AddAdmin,
    DelAdmin,
    AddGroup,
    DelGroup,
}

/// What arrived, as far as the choice of a handler depends on it.
#[derive(Clone, Copy, Debug, PartialEq, Eq, Structural)]
pub enum Incoming {
    /// A message: whether it came in a private chat, who sent it if that is
    /// known, and the command it holds if it holds one.
    Message { private: bool, from: Option<u64>, command: Option<Command> },
    /// A press on a button, and whether the message that carried the button
    /// is still known.
    CallbackQuery { has_message: bool },
    /// Anything else.
    Other,
}

/// The handler that an update goes to.
#[derive(Clone, Copy, Debug, PartialEq, Eq, Structural)]
pub enum Endpoint {
    Help,
    AddTask,
    ListTask,
    DelTask,
    AddAdmin,
    DelAdmin,
    RequestNotifyText,
    RequestRepeatInterval,
    RequestButtons,
    ButtonCallback,
    /// Nobody handles the update.
    Unhandled,
}

/// Where a command goes while no job is being added. Help and start show
/// the help; the commands about jobs go to their handlers; appointing and
/// dismissing admins is for maintainers; nothing handles the rest.
pub open spec fn command_endpoint(command: Command, maintainer: bool) -> Endpoint {
    match command {
        Command::Help => Endpoint::Help,
        Command::Start => Endpoint::Help,
        Command::AddTask => Endpoint::AddTask,
        Command::ListTask => Endpoint::ListTask,
        Command::DelTask => Endpoint::DelTask,
        Command::AddAdmin => if maintainer {
            Endpoint::AddAdmin
        } else {
            Endpoint::Unhandled
        },
        Command::DelAdmin => if maintainer {
            Endpoint::DelAdmin
        } else {
            Endpoint::Unhandled
        },
        Command::AddGroup => Endpoint::Unhandled,
        Command::DelGroup => Endpoint::Unhandled,
    }
}

/// Where a message goes while a job is being added: to the step that the
/// conversation waits for. A message is no answer to the confirmation.
pub open spec fn step_endpoint(state: DialogueView) -> Endpoint {
    match state {
        DialogueView::RequestNotifyText => Endpoint::RequestNotifyText,
        DialogueView::RequestRepeatInterval { .. } => Endpoint::RequestRepeatInterval,
        DialogueView::RequestButtons { .. } => Endpoint::RequestButtons,
        _ => Endpoint::Unhandled,
    }
}

/// The handler that `update` goes to.
///
/// A message is handled only if it comes in a private chat from a user who
/// has access. While no job is being added, a command goes where
/// [`command_endpoint`] says and other messages go nowhere; while one is
/// being added, every message, command or not, goes to the step that the
/// conversation waits for. A press on a button is handled only while the
/// conversation waits for the confirmation and the message that carried the
/// button is known.
pub open spec fn spec_route(update: Incoming, state: DialogueView, whitelist: WhitelistView) -> Endpoint {
    match update {
        Incoming::Message { private, from, command } => {
            if private && from is Some && whitelist.has_access(from->0) {
                if state is Idle {
                    match command {
                        Some(command) => command_endpoint(
                            command,
                            whitelist.maintainers.contains(from->0),
                        ),
                        None => Endpoint::Unhandled,
                    }
                } else {
                    step_endpoint(state)
                }
            } else {
                Endpoint::Unhandled
            }
        },
        Incoming::CallbackQuery { has_message } => {
            if has_message && state is RequestConfirmation {
                Endpoint::ButtonCallback
            } else {
                Endpoint::Unhandled
            }
        },
        Incoming::Other => Endpoint::Unhandled,
    }
}

/// Chooses the handler for an update.
pub fn handler_schema(
    update: Incoming,
    state: &AddTaskDialogueCurrentState,
    whitelist: &Whitelist,
) -> (endpoint: Endpoint)
    ensures
        endpoint == spec_route(update, state.deep_view(), whitelist@),
{
    match update {
        Incoming::Message { private, from, command } => {
            let user = match from {
                Some(user) => user,
                None => {
                    return Endpoint::Unhandled;
                },
            };
            if !private || !whitelist.has_access(user) {
                return Endpoint::Unhandled;
            }
            match state {
                AddTaskDialogueCurrentState::Idle => match command {
                    Some(Command::Help) => Endpoint::Help,
                    Some(Command::Start) => Endpoint::Help,
                    Some(Command::AddTask) => Endpoint::AddTask,
                    Some(Command::ListTask) => Endpoint::ListTask,
                    Some(Command::DelTask) => Endpoint::DelTask,
                    Some(Command::AddAdmin) => if whitelist.is_maintainers(user) {
                        Endpoint::AddAdmin
                    } else {
                        Endpoint::Unhandled
                    },
                    Some(Command::DelAdmin) => if whitelist.is_maintainers(user) {
                        Endpoint::DelAdmin
                    } else {
                        Endpoint::Unhandled
                    },
                    _ => Endpoint::Unhandled,
                },
                AddTaskDialogueCurrentState::RequestNotifyText => Endpoint::RequestNotifyText,
                AddTaskDialogueCurrentState::RequestRepeatInterval { .. } => {
                    Endpoint::RequestRepeatInterval
                },
                AddTaskDialogueCurrentState::RequestButtons { .. } => Endpoint::RequestButtons,
                AddTaskDialogueCurrentState::RequestConfirmation { .. } => Endpoint::Unhandled,
            }
        },
        Incoming::CallbackQuery { has_message } => match state {
            AddTaskDialogueCurrentState::RequestConfirmation { .. } => if has_message {
                Endpoint::ButtonCallback
            } else {
                Endpoint::Unhandled
            },
            _ => Endpoint::Unhandled,
        },
        Incoming::Other => Endpoint::Unhandled,
    }
}

/// Nobody but maintainers and admins is answered: whatever the state of
/// the conversation, a message reaches a handler only if it comes in a
/// private chat from a user who has access.
pub proof fn lemma_only_members_are_answered(
    private: bool,
    from: Option<u64>,
    command: Option<Command>,
    state: DialogueView,
    whitelist: WhitelistView,
)
    requires
        spec_route(Incoming::Message { private, from, command }, state, whitelist)
            != Endpoint::Unhandled,
    ensures
        private,
        from matches Some(user) && whitelist.has_access(user),
{
}

/// Admins are appointed and dismissed by maintainers only: an update that
/// reaches one of these two handlers is a message from a maintainer.
pub proof fn lemma_admins_are_for_maintainers(
    update: Incoming,
    state: DialogueView,
    whitelist: WhitelistView,
)
    requires
        spec_route(update, state, whitelist) == Endpoint::AddAdmin || spec_route(
            update,
            state,
            whitelist,
        ) == Endpoint::DelAdmin,
    ensures
        update matches Incoming::Message { from: Some(user), .. } && whitelist.maintainers.contains(
            user,
        ),
{
}

/// The conversation after the command that adds a job: the bot waits for
/// the notification text.
pub fn add_task_handler() -> (next: AddTaskDialogueCurrentState)
    ensures
        next.deep_view() == DialogueView::RequestNotifyText,
{
    AddTaskDialogueCurrentState::RequestNotifyText
}

/// The conversation after an answer to the request for the notification
/// text. A message with text moves it on to the interval; any other message
/// leaves it where it is, which `None` says.
pub fn request_notify_text(message: Option<&str>) -> (next: Option<AddTaskDialogueCurrentState>)
    ensures
        next.deep_view() == match message {
            Some(notify) => Some(DialogueView::RequestRepeatInterval { text: notify@ }),
            None => None,
        },
{
    match message {
        Some(notify) => Some(
            AddTaskDialogueCurrentState::RequestRepeatInterval { text: notify.to_owned() },
        ),
        None => None,
    }
}

/// The interval that a message gives: the number it consists of.
pub open spec fn interval_of(message: Option<Seq<char>>) -> Option<u64> {
    match message {
        Some(written) => u64_of(written),
        None => None,
    }
}

/// The conversation after an answer to the request for the interval. A
/// message that is a number moves it on to the buttons; any other message
/// leaves it where it is, which `None` says.
pub fn request_repeat_interval(message: Option<&str>, text: String) -> (next: Option<
    AddTaskDialogueCurrentState,
>)
    ensures
        next.deep_view() == match interval_of(message.deep_view()) {
            Some(interval) => Some(DialogueView::RequestButtons { text: text@, interval }),
            None => None,
        },
{
    let written = match message {
        Some(written) => written,
        None => {
            return None;
        },
    };
    match parse_u64(written) {
        Some(interval) => Some(AddTaskDialogueCurrentState::RequestButtons { text, interval }),
        None => None,
    }
}

/// What an answer to the request for the buttons leads to: the confirmation
/// of the job with the layout that the message defines, or the reason why
/// the message defines none.
pub open spec fn confirmation_of(message: Option<Seq<char>>, text: Seq<char>, interval: u64) -> Result<
    DialogueView,
    ButtonsErrorView,
> {
    match message {
        Some(written) => match keyboard_of(written) {
            Ok(buttons) => Ok(DialogueView::RequestConfirmation { text, interval, buttons }),
            Err(e) => Err(e),
        },
        None => Err(ButtonsErrorView::NoText),
    }
}

/// The conversation after an answer to the request for the buttons. A
/// message that defines a layout moves it on to the confirmation; for any
/// other message it stays where it is and the reason comes back.
pub fn request_buttons(message: Option<&str>, text: String, interval: u64) -> (next: Result<
    AddTaskDialogueCurrentState,
    ButtonsError,
>)
    ensures
        outcome_view(next) == confirmation_of(message.deep_view(), text@, interval),
{
    let written = match message {
        Some(written) => written,
        None => {
            return Err(ButtonsError::NoText);
        },
    };
    match parse_keyboard(written) {
        Ok(buttons) => Ok(
            AddTaskDialogueCurrentState::RequestConfirmation { text, interval, buttons },
        ),
        Err(e) => Err(e),
    }
}

/// The two buttons under the request to confirm a job, in one row: one
/// that confirms and one that gives up.
pub open spec fn confirm_buttons() -> Seq<Seq<ButtonView>> {
    seq![
        seq![
            ButtonView { text: CONFIRM_YES_LABEL@, kind: ButtonKindView::Callback(CONFIRM_YES@) },
            ButtonView { text: CONFIRM_NO_LABEL@, kind: ButtonKindView::Callback(CONFIRM_NO@) },
        ],
    ]
}

/// Makes the two buttons under the request to confirm a job.
pub fn create_add_task_confirm_buttons() -> (keyboard: Keyboard)
    ensures
        keyboard.deep_view() == confirm_buttons(),
{
    let mut row: Vec<Button> = Vec::new();
    row.push(Button::callback(String::from_str(CONFIRM_YES_LABEL), String::from_str(CONFIRM_YES)));
    row.push(Button::callback(String::from_str(CONFIRM_NO_LABEL), String::from_str(CONFIRM_NO)));
    let ghost first = row.deep_view();
    let mut rows: Vec<Vec<Button>> = Vec::new();
    rows.push(row);
    assert(first =~= confirm_buttons()[0]);
    assert(rows.deep_view() =~= confirm_buttons());
    Keyboard::new(rows)
}

/// What a press on a button under the request to confirm means.
#[derive(Clone, Copy, Debug, PartialEq, Eq, Structural)]
pub enum Verdict {
    /// The press carries nothing that concerns the conversation.
    Nothing,
    /// The message that carried the button is not known.
    NoMessage,
    /// The job is confirmed.
    Confirmed,
    /// The job is given up.
    GivenUp,
}

/// What a press means: nothing without data; otherwise it needs its
/// message; then the data of the two buttons confirm or give up, and any
/// other data mean nothing.
pub open spec fn verdict_of(data: Option<Seq<char>>, has_message: bool) -> Verdict {
    match data {
        None => Verdict::Nothing,
        Some(data) => if !has_message {
            Verdict::NoMessage
        } else if data == CONFIRM_YES@ {
            Verdict::Confirmed
        } else if data == CONFIRM_NO@ {
            Verdict::GivenUp
        } else {
            Verdict::Nothing
        },
    }
}

/// Reads a press on a button.
pub fn verdict(data: Option<&str>, has_message: bool) -> (verdict: Verdict)
    ensures
        verdict == verdict_of(data.deep_view(), has_message),
{
    let data = match data {
        Some(data) => data,
        None => {
            return Verdict::Nothing;
        },
    };
    if !has_message {
        Verdict::NoMessage
    } else if same_text(data, CONFIRM_YES) {
        Verdict::Confirmed
    } else if same_text(data, CONFIRM_NO) {
        Verdict::GivenUp
    } else {
        Verdict::Nothing
    }
}

/// Whether `spec` is the job that a confirmed conversation asks for: the
/// one text, every interval, sent with the buttons to the groups. Its
/// channels are its own.
pub open spec fn confirms(
    spec: TaskSpec,
    text: Seq<char>,
    interval: u64,
    buttons: Seq<Seq<ButtonView>>,
    groups: Seq<i64>,
) -> bool {
    &&& spec.interval == interval
    &&& spec.messages == seq![text]
    &&& spec.buttons == Some(buttons)
    &&& spec.groups == groups
}

/// Whether a registry that was `before` has taken the job `spec` and is
/// `after` now, the job running under `id` with `run` as its loop.
pub open spec fn submitted(before: PoolView, spec: TaskSpec, after: PoolView, id: u32, run: TaskRun) -> bool {
    &&& (after, id) == before.add(spec.entry())
    &&& run.job.deep_view() == spec.job(id)
    &&& run.editor_rx == spec.editor_rx
    &&& run.signal_rx == spec.signal_rx
}

/// What came of a press on a button.
pub enum CallbackOutcome {
    /// Nothing was done.
    Nothing,
    /// The message that carried the button is not known; nothing was done.
    NoMessage,
    /// The job was registered under this identifier. Its loop has to be run.
    /// The conversation is over.
    Submitted(u32, TaskRun),
    /// The job cannot be run as it was specified and was not registered.
    /// The conversation is over.
    Refused,
    /// The job was given up. The conversation is over.
    Cancelled,
}

/// Whether `outcome` and the registry `after` are what a press that means
/// `verdict` leads to from the registry `before`, for a conversation that
/// has collected `text`, `interval` and `buttons` and a whitelist with
/// `groups`. A confirmed job is sent to the groups; it is registered if its
/// interval is positive and there is a group, and refused if not. Nothing
/// else changes the registry.
pub open spec fn callback_effect(
    before: PoolView,
    text: Seq<char>,
    interval: u64,
    buttons: Seq<Seq<ButtonView>>,
    groups: Seq<i64>,
    verdict: Verdict,
    after: PoolView,
    outcome: CallbackOutcome,
) -> bool {
    match verdict {
        Verdict::Nothing => outcome is Nothing && after == before,
        Verdict::NoMessage => outcome is NoMessage && after == before,
        Verdict::GivenUp => outcome is Cancelled && after == before,
        Verdict::Confirmed => if interval > 0 && groups.len() > 0 {
            &&& outcome matches CallbackOutcome::Submitted(id, run)
            &&& exists|spec: TaskSpec|
                confirms(spec, text, interval, buttons, groups) && #[trigger] submitted(
                    before,
                    spec,
                    after,
                    id,
                    run,
                )
        } else {
            outcome is Refused && after == before
        },
    }
}

/// Acts on a press on a button under the request to confirm a job.
pub fn button_callback_handler(
    data: Option<&str>,
    has_message: bool,
    rt: &mut BotRuntime,
    text: String,
    interval: u64,
    buttons: Keyboard,
) -> (outcome: CallbackOutcome)
    ensures
        final(rt).whitelist@ == old(rt).whitelist@,
        callback_effect(
            old(rt).task_pool@,
            text@,
            interval,
            buttons.deep_view(),
            old(rt).whitelist@.groups,
            verdict_of(data.deep_view(), has_message),
            final(rt).task_pool@,
            outcome,
        ),
{
    match verdict(data, has_message) {
        Verdict::Nothing => CallbackOutcome::Nothing,
        Verdict::NoMessage => CallbackOutcome::NoMessage,
        Verdict::GivenUp => CallbackOutcome::Cancelled,
        Verdict::Confirmed => {
            let mut messages: Vec<String> = Vec::new();
            messages.push(text);
            assert(messages.deep_view() =~= seq![text@]);
            let task = ScheduleTask::new().interval(interval).pending_notification(messages).groups(
                rt.get_group(),
            ).msg_buttons(buttons);
            let ghost spec = task.deep_view();
            assert(confirms(
                spec,
                text@,
                interval,
                buttons.deep_view(),
                old(rt).whitelist@.groups,
            ));
            if task.is_valid() {
                let (id, run) = rt.task_pool.add_task(task);
                let outcome = CallbackOutcome::Submitted(id, run);
                assert(outcome->Submitted_0 == id && outcome->Submitted_1 == run);
                assert(submitted(old(rt).task_pool@, spec, rt.task_pool@, id, run));
                outcome
            } else {
                CallbackOutcome::Refused
            }
        },
    }
}

/// Why a command cannot be carried out.
#[derive(Debug, PartialEq, Eq)]
pub enum CommandError {
    /// The message carries no text.
    NoText,
    /// Nothing follows the command.
    MissingArgument,
    /// What follows the command is not a number that fits.
    NotANumber(String),
}

/// Mathematical value of a [`CommandError`].
pub enum CommandErrorView {
    NoText,
    MissingArgument,
    NotANumber(Seq<char>),
}

impl DeepView for CommandError {
    type V = CommandErrorView;

    open spec fn deep_view(&self) -> CommandErrorView {
        match self {
            CommandError::NoText => CommandErrorView::NoText,
            CommandError::MissingArgument => CommandErrorView::MissingArgument,
            CommandError::NotANumber(written) => CommandErrorView::NotANumber(written@),
        }
    }
}

/// Mathematical value of what a command came to.
pub open spec fn command_view<T>(outcome: Result<T, CommandError>) -> Result<T, CommandErrorView> {
    match outcome {
        Ok(value) => Ok(value),
        Err(e) => Err(e.deep_view()),
    }
}

/// The argument of a command: what stands between the first space of the
/// message and the next one, be it empty.
pub open spec fn argument_of(text: Seq<char>) -> Option<Seq<char>> {
    let words = split(text, ' ');
    if words.len() >= 2 {
        Some(words[1])
    } else {
        None
    }
}

/// The argument of the command in `message`.
pub open spec fn command_argument(message: Option<Seq<char>>) -> Result<Seq<char>, CommandErrorView> {
    match message {
        None => Err(CommandErrorView::NoText),
        Some(text) => match argument_of(text) {
            Some(argument) => Ok(argument),
            None => Err(CommandErrorView::MissingArgument),
        },
    }
}

/// The job that the command in `message` names.
pub open spec fn task_id_of(message: Option<Seq<char>>) -> Result<u32, CommandErrorView> {
    match command_argument(message) {
        Ok(argument) => match u32_of(argument) {
            Some(id) => Ok(id),
            None => Err(CommandErrorView::NotANumber(argument)),
        },
        Err(e) => Err(e),
    }
}

/// The user that the command in `message` names.
pub open spec fn user_id_of(message: Option<Seq<char>>) -> Result<u64, CommandErrorView> {
    match command_argument(message) {
        Ok(argument) => match u64_of(argument) {
            Some(id) => Ok(id),
            None => Err(CommandErrorView::NotANumber(argument)),
        },
        Err(e) => Err(e),
    }
}

/// Cuts the argument out of a command.
pub fn first_argument<'a>(message: Option<&'a str>) -> (argument: Result<&'a str, CommandError>)
    ensures
        match argument {
            Ok(argument) => command_argument(message.deep_view()) == Ok::<
                Seq<char>,
                CommandErrorView,
            >(argument@),
            Err(e) => command_argument(message.deep_view()) == Err::<Seq<char>, CommandErrorView>(
                e.deep_view(),
            ),
        },
{
    let text = match message {
        Some(text) => text,
        None => {
            return Err(CommandError::NoText);
        },
    };
    let chars = chars_of(text);
    let words = split_bounds(&chars, ' ');
    if words.len() < 2 {
        return Err(CommandError::MissingArgument);
    }
    let (from, to) = words[1];
    Ok(text.substring_char(from, to))
}

/// Reads the identifier of a job from a command such as `/deltask 3`.
pub fn task_id_argument(message: Option<&str>) -> (id: Result<u32, CommandError>)
    ensures
        command_view(id) == task_id_of(message.deep_view()),
{
    match first_argument(message) {
        Ok(argument) => match parse_u32(argument) {
            Some(id) => Ok(id),
            None => Err(CommandError::NotANumber(argument.to_owned())),
        },
        Err(e) => Err(e),
    }
}

/// Reads the identifier of a user from a command such as `/addadmin 42`.
pub fn user_id_argument(message: Option<&str>) -> (id: Result<u64, CommandError>)
    ensures
        command_view(id) == user_id_of(message.deep_view()),
{
    match first_argument(message) {
        Ok(argument) => match parse_u64(argument) {
            Some(id) => Ok(id),
            None => Err(CommandError::NotANumber(argument.to_owned())),
        },
        Err(e) => Err(e),
    }
}

/// Carries out the command that removes a job: reads the job's identifier
/// from the message and removes that job from the registry. The inner
/// result is the registry's answer. A command that names no job changes
/// nothing.
pub fn del_task_handler(message: Option<&str>, rt: &mut BotRuntime) -> (outcome: Result<
    Result<(), NotFoundError>,
    CommandError,
>)
    ensures
        final(rt).whitelist@ == old(rt).whitelist@,
        match task_id_of(message.deep_view()) {
            Ok(id) => outcome matches Ok(removed) && (final(rt).task_pool@, removed) == old(rt).task_pool@.remove(id),
            Err(e) => command_view(outcome) == Err::<Result<(), NotFoundError>, CommandErrorView>(e)
                && final(rt).task_pool@ == old(rt).task_pool@,
        },
{
    match task_id_argument(message) {
        Ok(id) => Ok(rt.task_pool.remove(id)),
        Err(e) => Err(e),
    }
}

/// Carries out the command that appoints an admin: reads the user's
/// identifier from the message and puts it on the list of admins, which
/// then stands in ascending order. The identifier comes back. A command
/// that names no user changes nothing.
pub fn add_admin(message: Option<&str>, rt: &mut BotRuntime) -> (outcome: Result<u64, CommandError>)
    ensures
        command_view(outcome) == user_id_of(message.deep_view()),
        final(rt).task_pool@ == old(rt).task_pool@,
        final(rt).whitelist@.maintainers == old(rt).whitelist@.maintainers,
        final(rt).whitelist@.groups == old(rt).whitelist@.groups,
        match outcome {
            Ok(id) => sorted(final(rt).whitelist@.admins) && final(rt).whitelist@.admins.to_multiset() == old(rt).whitelist@.admins.to_multiset().insert(id),
            Err(_) => final(rt).whitelist@.admins == old(rt).whitelist@.admins,
        },
{
    match user_id_argument(message) {
        Ok(id) => {
            rt.add_admin(id);
            Ok(id)
        },
        Err(e) => Err(e),
    }
}

/// Carries out the command that dismisses an admin: reads the user's
/// identifier from the message and takes it off the list of admins. The
/// inner result says whether the user was found on the list, which is
/// searched by halving. A command that names no user changes nothing.
pub fn del_admin(message: Option<&str>, rt: &mut BotRuntime) -> (outcome: Result<
    Result<u64, NotListed>,
    CommandError,
>)
    ensures
        final(rt).task_pool@ == old(rt).task_pool@,
        final(rt).whitelist@.maintainers == old(rt).whitelist@.maintainers,
        final(rt).whitelist@.groups == old(rt).whitelist@.groups,
        match user_id_of(message.deep_view()) {
            Ok(id) => {
                &&& outcome is Ok
                &&& outcome->Ok_0 matches Ok(taken) ==> taken == id && without_one(
                    old(rt).whitelist@.admins,
                    id,
                    final(rt).whitelist@.admins,
                )
                &&& outcome->Ok_0 is Err ==> final(rt).whitelist@.admins == old(rt).whitelist@.admins
                &&& sorted(old(rt).whitelist@.admins) ==> (outcome->Ok_0 is Ok <==> old(rt).whitelist@.admins.contains(id))
                &&& sorted(old(rt).whitelist@.admins) ==> sorted(final(rt).whitelist@.admins)
            },
            Err(e) => outcome matches Err(error) && error.deep_view() == e && final(rt).whitelist@.admins == old(rt).whitelist@.admins,
        },
{
    match user_id_argument(message) {
        Ok(id) => match rt.del_admin(id) {
            Ok(()) => Ok(Ok(id)),
            Err(e) => Ok(Err(e)),
        },
        Err(e) => Err(e),
    }
}

/// What stands before the number of jobs at the head of a listing.
pub const LIST_HEAD_BEFORE: &'static str = "总共 ";

/// What stands behind the number of jobs at the head of a listing.
pub const LIST_HEAD_AFTER: &'static str = " 个任务\n";

/// What stands before the identifier of a job in a listing.
pub const LIST_ENTRY_ID: &'static str = "任务 ";

/// What stands before the interval of a job in a listing.
pub const LIST_ENTRY_INTERVAL: &'static str = "，循环周期：";

/// What stands before the text of a job in a listing.
pub const LIST_ENTRY_CONTENT: &'static str = " 秒，任务内容：";

/// What ends the entry of a job in a listing: a line of 35 equals signs and
/// an empty line.
pub const LIST_ENTRY_END: &'static str = "\n===================================\n\n";

/// The entry of one job in a listing.
pub open spec fn task_entry(line: (u32, u64, Seq<char>)) -> Seq<char> {
    LIST_ENTRY_ID@ + decimal(line.0 as int) + LIST_ENTRY_INTERVAL@ + decimal(line.1 as int)
        + LIST_ENTRY_CONTENT@ + line.2 + LIST_ENTRY_END@
}

/// The entries of the jobs of a listing, one after the other.
pub open spec fn task_entries(tasks: Seq<(u32, u64, Seq<char>)>) -> Seq<char>
    decreases tasks.len(),
{
    if tasks.len() == 0 {
        Seq::<char>::empty()
    } else {
        task_entries(tasks.drop_last()) + task_entry(tasks.last())
    }
}

/// The message that lists `tasks`: how many there are, then one entry for
/// each in the order given.
pub open spec fn task_list_text(tasks: Seq<(u32, u64, Seq<char>)>) -> Seq<char> {
    LIST_HEAD_BEFORE@ + decimal(tasks.len() as int) + LIST_HEAD_AFTER@ + task_entries(tasks)
}

/// Writes the message that lists `tasks`.
pub fn task_list(tasks: &Vec<(u32, u64, String)>) -> (text: String)
    ensures
        text@ == task_list_text(tasks.deep_view()),
{
    let ghost all = tasks.deep_view();
    let mut text = String::from_str(LIST_HEAD_BEFORE);
    text.append(render_u64(tasks.len() as u64).as_str());
    text.append(LIST_HEAD_AFTER);
    let ghost head = text@;
    let mut i: usize = 0;
    assert(all.take(0) =~= Seq::<(u32, u64, Seq<char>)>::empty());
    assert(text@ =~= head + task_entries(all.take(0)));
    while i < tasks.len()
        invariant
            i <= tasks.len(),
            all == tasks.deep_view(),
            text@ == head + task_entries(all.take(i as int)),
        decreases tasks.len() - i,
    {
        let ghost before = text@;
        assert(all.take(i + 1).drop_last() =~= all.take(i as int));
        assert(all.take(i + 1).last() == tasks[i as int].deep_view());
        text.append(LIST_ENTRY_ID);
        text.append(render_u64(tasks[i].0 as u64).as_str());
        text.append(LIST_ENTRY_INTERVAL);
        text.append(render_u64(tasks[i].1).as_str());
        text.append(LIST_ENTRY_CONTENT);
        text.append(tasks[i].2.as_str());
        text.append(LIST_ENTRY_END);
        assert(text@ =~= before + task_entry(tasks[i as int].deep_view()));
        assert(text@ =~= head + task_entries(all.take(i + 1)));
        i += 1;
    }
    assert(all.take(tasks.len() as int) =~= all);
    text
}

/// Carries out the command that lists the jobs: the message shows every job
/// of the registry once, in no particular order.
pub fn list_task_handler(rt: &BotRuntime) -> (text: String)
    ensures
        exists|tasks: Seq<(u32, u64, Seq<char>)>|
            tasks.to_set() == rt.task_pool@.listing() && tasks.no_duplicates() && text@
                == #[trigger] task_list_text(tasks),
{
    let tasks = rt.task_pool.list_task();
    task_list(&tasks)
}

} // verus!
