use notify_bot::buttons::{parse_keyboard, parse_row, ButtonsError};
use notify_bot::handler::{
    add_admin, add_task_handler, button_callback_handler, create_add_task_confirm_buttons, del_admin,
    del_task_handler, first_argument, handler_schema, list_task_handler, request_buttons,
    request_notify_text, request_repeat_interval, task_id_argument, task_list, user_id_argument,
    verdict, AddTaskDialogueCurrentState, CallbackOutcome, Command, CommandError, Endpoint, Incoming,
    Verdict,
};
use notify_bot::job::{JobAction, JobEvent};
use notify_bot::keyboard::{Button, Keyboard};
use notify_bot::runtime::NotListed;
use notify_bot::schedule::{NotFoundError, ScheduleTask};
use notify_bot::{BotRuntime, Whitelist};

fn link(word: &str, url: &str) -> Button {
    Button::url(word.to_string(), url.to_string())
}

fn whitelist() -> Whitelist {
    Whitelist::new().parse_maintainers(Some("1")).parse_admins(Some("2"))
}

fn message(from: Option<u64>, command: Option<Command>) -> Incoming {
    Incoming::Message { private: true, from, command }
}

fn waiting_for_buttons() -> AddTaskDialogueCurrentState {
    AddTaskDialogueCurrentState::RequestButtons { text: "t".to_string(), interval: 1 }
}

fn waiting_for_confirmation() -> AddTaskDialogueCurrentState {
    AddTaskDialogueCurrentState::RequestConfirmation {
        text: "t".to_string(),
        interval: 1,
        buttons: Keyboard::new(vec![]),
    }
}

#[test]
fn dialogue_starts_idle() {
    assert_eq!(AddTaskDialogueCurrentState::default(), AddTaskDialogueCurrentState::Idle);
}

#[test]
fn dialogue_state_clones_equal() {
    let state = AddTaskDialogueCurrentState::RequestConfirmation {
        text: "通知".to_string(),
        interval: 5,
        buttons: Keyboard::new(vec![vec![link("a", "https://a.example/")]]),
    };
    assert_eq!(state.clone(), state);
    assert_eq!(waiting_for_buttons().clone(), waiting_for_buttons());
}

#[test]
fn commands_of_admins_reach_their_handlers() {
    let wl = whitelist();
    let idle = AddTaskDialogueCurrentState::Idle;
    let table = [
        (Command::Help, Endpoint::Help),
        (Command::Start, Endpoint::Help),
        (Command::AddTask, Endpoint::AddTask),
        (Command::ListTask, Endpoint::ListTask),
        (Command::DelTask, Endpoint::DelTask),
        (Command::AddAdmin, Endpoint::Unhandled),
        (Command::DelAdmin, Endpoint::Unhandled),
        (Command::AddGroup, Endpoint::Unhandled),
        (Command::DelGroup, Endpoint::Unhandled),
    ];
    for (command, endpoint) in table {
        assert_eq!(handler_schema(message(Some(2), Some(command)), &idle, &wl), endpoint, "{:?}", command);
    }
}

#[test]
fn maintainers_may_appoint_and_dismiss_admins() {
    let wl = whitelist();
    let idle = AddTaskDialogueCurrentState::Idle;
    assert_eq!(handler_schema(message(Some(1), Some(Command::AddAdmin)), &idle, &wl), Endpoint::AddAdmin);
    assert_eq!(handler_schema(message(Some(1), Some(Command::DelAdmin)), &idle, &wl), Endpoint::DelAdmin);
    assert_eq!(handler_schema(message(Some(1), Some(Command::ListTask)), &idle, &wl), Endpoint::ListTask);
    assert_eq!(handler_schema(message(Some(1), Some(Command::AddGroup)), &idle, &wl), Endpoint::Unhandled);
}

#[test]
fn strangers_and_group_chats_are_not_answered() {
    let wl = whitelist();
    let idle = AddTaskDialogueCurrentState::Idle;
    assert_eq!(handler_schema(message(Some(3), Some(Command::Help)), &idle, &wl), Endpoint::Unhandled);
    assert_eq!(handler_schema(message(None, Some(Command::Help)), &idle, &wl), Endpoint::Unhandled);
    let in_group = Incoming::Message { private: false, from: Some(1), command: Some(Command::Help) };
    assert_eq!(handler_schema(in_group, &idle, &wl), Endpoint::Unhandled);
    assert_eq!(
        handler_schema(message(Some(3), None), &AddTaskDialogueCurrentState::RequestNotifyText, &wl),
        Endpoint::Unhandled
    );
    assert_eq!(handler_schema(Incoming::Other, &idle, &wl), Endpoint::Unhandled);
}

#[test]
fn messages_go_to_the_step_the_conversation_waits_for() {
    let wl = whitelist();
    let interval = AddTaskDialogueCurrentState::RequestRepeatInterval { text: "t".to_string() };
    for command in [None, Some(Command::Help), Some(Command::AddAdmin)] {
        assert_eq!(
            handler_schema(message(Some(2), command), &AddTaskDialogueCurrentState::RequestNotifyText, &wl),
            Endpoint::RequestNotifyText
        );
        assert_eq!(handler_schema(message(Some(2), command), &interval, &wl), Endpoint::RequestRepeatInterval);
        assert_eq!(handler_schema(message(Some(2), command), &waiting_for_buttons(), &wl), Endpoint::RequestButtons);
        assert_eq!(handler_schema(message(Some(2), command), &waiting_for_confirmation(), &wl), Endpoint::Unhandled);
    }
    assert_eq!(handler_schema(message(Some(2), None), &AddTaskDialogueCurrentState::Idle, &wl), Endpoint::Unhandled);
}

#[test]
fn button_presses_count_only_while_confirmation_is_awaited() {
    let wl = whitelist();
    let press = Incoming::CallbackQuery { has_message: true };
    assert_eq!(handler_schema(press, &waiting_for_confirmation(), &wl), Endpoint::ButtonCallback);
    assert_eq!(handler_schema(press, &AddTaskDialogueCurrentState::Idle, &wl), Endpoint::Unhandled);
    assert_eq!(handler_schema(press, &waiting_for_buttons(), &wl), Endpoint::Unhandled);
    assert_eq!(
        handler_schema(Incoming::CallbackQuery { has_message: false }, &waiting_for_confirmation(), &wl),
        Endpoint::Unhandled
    );
}

#[test]
fn add_task_command_asks_for_the_text() {
    assert_eq!(add_task_handler(), AddTaskDialogueCurrentState::RequestNotifyText);
}

#[test]
fn notify_text_moves_on_to_the_interval() {
    assert_eq!(
        request_notify_text(Some("开会了")),
        Some(AddTaskDialogueCurrentState::RequestRepeatInterval { text: "开会了".to_string() })
    );
    assert_eq!(request_notify_text(None), None);
}

#[test]
fn interval_must_be_a_number() {
    assert_eq!(
        request_repeat_interval(Some("15"), "t".to_string()),
        Some(AddTaskDialogueCurrentState::RequestButtons { text: "t".to_string(), interval: 15 })
    );
    assert_eq!(
        request_repeat_interval(Some("+7"), "t".to_string()),
        Some(AddTaskDialogueCurrentState::RequestButtons { text: "t".to_string(), interval: 7 })
    );
    for bad in ["", " 15", "15 ", "-1", "1.5", "fifteen", "18446744073709551616"] {
        assert_eq!(request_repeat_interval(Some(bad), "t".to_string()), None, "input {:?}", bad);
    }
    assert_eq!(request_repeat_interval(None, "t".to_string()), None);
}

#[test]
fn buttons_message_defines_rows_line_by_line() {
    let written = "[注册|https://example.com/register] [登录|https://example.com/login]\n[下载|https://example.com/download]";
    let expected = Keyboard::new(vec![
        vec![link("注册", "https://example.com/register"), link("登录", "https://example.com/login")],
        vec![link("下载", "https://example.com/download")],
    ]);
    assert_eq!(
        request_buttons(Some(written), "t".to_string(), 3),
        Ok(AddTaskDialogueCurrentState::RequestConfirmation { text: "t".to_string(), interval: 3, buttons: expected })
    );
}

#[test]
fn buttons_message_without_text_is_refused() {
    assert_eq!(request_buttons(None, "t".to_string(), 3), Err(ButtonsError::NoText));
}

#[test]
fn keyboard_reports_first_line_without_definition() {
    assert_eq!(
        parse_keyboard("[a|https://a.example]\nno buttons\n[b|nolink]"),
        Err(ButtonsError::BadDefinition("no buttons".to_string()))
    );
    assert_eq!(parse_keyboard("[a|https://a.example]\n\n"), Err(ButtonsError::BadDefinition("".to_string())));
}

#[test]
fn keyboard_reports_first_definition_without_button() {
    assert_eq!(
        parse_keyboard("[a|https://a.example][b|nolink][c]\nno buttons"),
        Err(ButtonsError::BadContent("b|nolink".to_string()))
    );
    assert_eq!(parse_keyboard("[]"), Err(ButtonsError::BadContent("".to_string())));
}

#[test]
fn keyboard_takes_windows_line_ends_and_normalises_links() {
    assert_eq!(
        parse_keyboard("[a | HTTPS://A.example]\r\n[b|https://b.example/x?y=1]\r\n"),
        Ok(Keyboard::new(vec![
            vec![link("a", "https://a.example/")],
            vec![link("b", "https://b.example/x?y=1")],
        ]))
    );
}

#[test]
fn keyboard_of_empty_text_has_no_rows() {
    assert_eq!(parse_keyboard(""), Ok(Keyboard::new(vec![])));
}

#[test]
fn row_is_read_from_contents() {
    assert_eq!(
        parse_row(&vec!["a|https://a.example".to_string(), "b|ftp://b.example/f".to_string()]),
        Ok(vec![link("a", "https://a.example/"), link("b", "ftp://b.example/f")])
    );
    assert_eq!(parse_row(&vec![]), Ok(vec![]));
    assert_eq!(
        parse_row(&vec!["a|https://a.example".to_string(), "|x".to_string(), "??".to_string()]),
        Err(ButtonsError::BadContent("|x".to_string()))
    );
}

#[test]
fn confirm_buttons_are_yes_and_no() {
    assert_eq!(
        create_add_task_confirm_buttons(),
        Keyboard::new(vec![vec![
            Button::callback("确认".to_string(), "add_task_confirm_y".to_string()),
            Button::callback("取消".to_string(), "add_task_confirm_n".to_string()),
        ]])
    );
}

#[test]
fn verdict_reads_the_data_of_a_press() {
    assert_eq!(verdict(None, true), Verdict::Nothing);
    assert_eq!(verdict(None, false), Verdict::Nothing);
    assert_eq!(verdict(Some("add_task_confirm_y"), false), Verdict::NoMessage);
    assert_eq!(verdict(Some("whatever"), false), Verdict::NoMessage);
    assert_eq!(verdict(Some("add_task_confirm_y"), true), Verdict::Confirmed);
    assert_eq!(verdict(Some("add_task_confirm_n"), true), Verdict::GivenUp);
    assert_eq!(verdict(Some("add_task_confirm_"), true), Verdict::Nothing);
    assert_eq!(verdict(Some(""), true), Verdict::Nothing);
}

#[test]
fn confirmed_job_is_registered_for_the_groups_of_the_whitelist() {
    let mut rt = BotRuntime::new().whitelist(Whitelist::new().parse_groups(Some("-7,8")));
    let buttons = Keyboard::new(vec![vec![link("a", "https://a.example/")]]);
    let outcome = button_callback_handler(Some("add_task_confirm_y"), true, &mut rt, "Hello".to_string(), 10, buttons);
    let (id, mut run) = match outcome {
        CallbackOutcome::Submitted(id, run) => (id, run),
        _ => panic!("the job was not submitted"),
    };
    assert_eq!(id, 0);
    assert_eq!(rt.task_pool.list_task(), vec![(0, 10, "Hello".to_string())]);
    match run.job.step(JobEvent::Tick) {
        JobAction::FanOut(round) => {
            assert_eq!(round.text, "Hello");
            assert_eq!(round.destinations, vec![-7, 8]);
            assert_eq!(round.buttons, Some(Keyboard::new(vec![vec![link("a", "https://a.example/")]])));
        }
        other => panic!("unexpected action {:?}", other),
    }
}

#[test]
fn job_that_cannot_run_is_refused() {
    let mut rt = BotRuntime::new();
    let outcome = button_callback_handler(Some("add_task_confirm_y"), true, &mut rt, "t".to_string(), 0, Keyboard::new(vec![]));
    assert!(matches!(outcome, CallbackOutcome::Refused));
    assert_eq!(rt.task_pool.list_task().len(), 0);
}

#[test]
fn other_presses_leave_the_registry_alone() {
    let mut rt = BotRuntime::new();
    let press = |rt: &mut BotRuntime, data: Option<&str>, has_message: bool| {
        button_callback_handler(data, has_message, rt, "t".to_string(), 1, Keyboard::new(vec![]))
    };
    assert!(matches!(press(&mut rt, Some("add_task_confirm_n"), true), CallbackOutcome::Cancelled));
    assert!(matches!(press(&mut rt, None, true), CallbackOutcome::Nothing));
    assert!(matches!(press(&mut rt, Some("else"), true), CallbackOutcome::Nothing));
    assert!(matches!(press(&mut rt, Some("add_task_confirm_y"), false), CallbackOutcome::NoMessage));
    assert_eq!(rt.task_pool.list_task().len(), 0);
}

#[test]
fn argument_is_what_follows_the_first_space() {
    assert_eq!(first_argument(Some("/deltask 3")), Ok("3"));
    assert_eq!(first_argument(Some("/deltask 3 4 5")), Ok("3"));
    assert_eq!(first_argument(Some("/deltask  3")), Ok(""));
    assert_eq!(first_argument(Some("/deltask ")), Ok(""));
    assert_eq!(first_argument(Some("/deltask")), Err(CommandError::MissingArgument));
    assert_eq!(first_argument(Some("")), Err(CommandError::MissingArgument));
    assert_eq!(first_argument(None), Err(CommandError::NoText));
}

#[test]
fn identifiers_are_read_from_commands() {
    assert_eq!(task_id_argument(Some("/deltask 42")), Ok(42));
    assert_eq!(task_id_argument(Some("/deltask 4294967295")), Ok(u32::MAX));
    assert_eq!(task_id_argument(Some("/deltask 4294967296")), Err(CommandError::NotANumber("4294967296".to_string())));
    assert_eq!(task_id_argument(Some("/deltask x")), Err(CommandError::NotANumber("x".to_string())));
    assert_eq!(task_id_argument(Some("/deltask  1")), Err(CommandError::NotANumber("".to_string())));
    assert_eq!(task_id_argument(Some("/deltask")), Err(CommandError::MissingArgument));
    assert_eq!(task_id_argument(None), Err(CommandError::NoText));
    assert_eq!(user_id_argument(Some("/addadmin 18446744073709551615")), Ok(u64::MAX));
    assert_eq!(user_id_argument(Some("/addadmin -1")), Err(CommandError::NotANumber("-1".to_string())));
    assert_eq!(user_id_argument(Some("/addadmin")), Err(CommandError::MissingArgument));
    assert_eq!(user_id_argument(None), Err(CommandError::NoText));
}

#[test]
fn del_task_command_removes_the_named_job() {
    let mut rt = BotRuntime::new();
    let spec = ScheduleTask::new().interval(1).pending_notification(vec!["a".to_string()]).groups(vec![1]);
    let (id, _run) = rt.task_pool.add_task(spec);
    assert_eq!(del_task_handler(Some("/deltask 9"), &mut rt), Ok(Err(NotFoundError { id: 9 })));
    assert_eq!(del_task_handler(Some("/deltask"), &mut rt), Err(CommandError::MissingArgument));
    assert_eq!(del_task_handler(Some("/deltask one"), &mut rt), Err(CommandError::NotANumber("one".to_string())));
    assert_eq!(del_task_handler(None, &mut rt), Err(CommandError::NoText));
    assert_eq!(rt.task_pool.list_task().len(), 1);
    assert_eq!(del_task_handler(Some(format!("/deltask {}", id).as_str()), &mut rt), Ok(Ok(())));
    assert_eq!(rt.task_pool.list_task().len(), 0);
    assert_eq!(del_task_handler(Some(format!("/deltask {}", id).as_str()), &mut rt), Ok(Err(NotFoundError { id })));
}

#[test]
fn admin_commands_change_the_list_of_admins() {
    let mut rt = BotRuntime::new();
    assert_eq!(add_admin(Some("/addadmin 20"), &mut rt), Ok(20));
    assert_eq!(add_admin(Some("/addadmin 10"), &mut rt), Ok(10));
    assert_eq!(add_admin(Some("/addadmin ten"), &mut rt), Err(CommandError::NotANumber("ten".to_string())));
    assert_eq!(add_admin(Some("/addadmin"), &mut rt), Err(CommandError::MissingArgument));
    assert_eq!(add_admin(None, &mut rt), Err(CommandError::NoText));
    assert_eq!(rt.whitelist.admins, vec![10, 20]);
    assert_eq!(del_admin(Some("/deladmin 15"), &mut rt), Ok(Err(NotListed)));
    assert_eq!(del_admin(Some("/deladmin 10"), &mut rt), Ok(Ok(10)));
    assert_eq!(del_admin(Some("/deladmin"), &mut rt), Err(CommandError::MissingArgument));
    assert_eq!(del_admin(Some("/deladmin 1x"), &mut rt), Err(CommandError::NotANumber("1x".to_string())));
    assert_eq!(del_admin(None, &mut rt), Err(CommandError::NoText));
    assert_eq!(rt.whitelist.admins, vec![20]);
}

#[test]
fn listing_counts_the_jobs_and_shows_each() {
    let rule = "=".repeat(35);
    assert_eq!(task_list(&vec![]), "总共 0 个任务\n");
    assert_eq!(
        task_list(&vec![(0, 60, "开会".to_string()), (12, 5, "x".to_string())]),
        format!(
            "总共 2 个任务\n任务 0，循环周期：60 秒，任务内容：开会\n{rule}\n\n任务 12，循环周期：5 秒，任务内容：x\n{rule}\n\n"
        )
    );
}

#[test]
fn list_command_shows_the_registry() {
    let mut rt = BotRuntime::new();
    assert_eq!(list_task_handler(&rt), "总共 0 个任务\n");
    let spec = ScheduleTask::new().interval(7).pending_notification(vec!["a".to_string()]).groups(vec![1]);
    let (_id, _run) = rt.task_pool.add_task(spec);
    assert_eq!(
        list_task_handler(&rt),
        format!("总共 1 个任务\n任务 0，循环周期：7 秒，任务内容：a\n{}\n\n", "=".repeat(35))
    );
}
