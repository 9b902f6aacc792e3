use tabby::app::{classify_key, App, Effect, Key, KeyAction, KeyCode, ShellOutcome};
use tabby::config::ApiConfig;
use tabby::project::{is_safe_dir_name, MessageRole, Project, ProjectStatus};

fn key(code: KeyCode) -> Key {
    Key { code, control: false, shift: false, alt: false }
}

fn ctrl(c: char) -> Key {
    Key { code: KeyCode::Char(c), control: true, shift: false, alt: false }
}

fn alt(c: char) -> Key {
    Key { code: KeyCode::Char(c), control: false, shift: false, alt: true }
}

fn fresh_app() -> App {
    App::new(ApiConfig::empty(), Vec::new(), "/tmp/projects".to_string())
}

fn three_projects() -> App {
    let projects = vec![Project::new("a"), Project::new("b"), Project::new("c")];
    App::new(ApiConfig::empty(), projects, "/p".to_string())
}

fn type_text(app: &mut App, text: &str) {
    for c in text.chars() {
        let e = app.handle_input(key(KeyCode::Char(c)));
        assert!(matches!(e, Effect::Nothing));
    }
}

fn last_message(app: &App) -> (MessageRole, String) {
    let m = app.active_project().messages.last().unwrap();
    (m.role, m.content.clone())
}

#[test]
fn new_app_has_default_project() {
    let app = fresh_app();
    assert_eq!(app.projects.len(), 1);
    assert_eq!(app.projects[0].name, "默认项目");
    assert_eq!(app.active_project, 0);
    assert_eq!(app.status_message, "准备就绪");
    assert!(!app.should_quit && !app.show_help && !app.show_monitor);
    assert_eq!(app.projects_path, "/tmp/projects");
}

#[test]
fn new_app_keeps_loaded_projects() {
    let app = three_projects();
    assert_eq!(app.projects.len(), 3);
    assert_eq!(app.projects[2].name, "c");
}

#[test]
fn project_new_opens_with_note() {
    let p = Project::new("写代码");
    assert_eq!(p.name, "写代码");
    assert_eq!(p.status, ProjectStatus::Active);
    assert_eq!(p.created_at, p.last_active);
    assert!(p.created_at > 0);
    assert_eq!(p.messages.len(), 1);
    assert_eq!(p.messages[0].role, MessageRole::System);
    assert_eq!(p.messages[0].content, "项目「写代码」已创建");
    assert!(p.todos.is_empty() && p.daily_summaries.is_empty());
    assert_eq!(p.input, "");
    assert_eq!(p.cursor_pos, 0);
}

#[test]
fn tab_and_shift_tab_cycle() {
    let mut app = three_projects();
    app.next_project();
    assert_eq!(app.active_project, 1);
    app.next_project();
    app.next_project();
    assert_eq!(app.active_project, 0);
    app.previous_project();
    assert_eq!(app.active_project, 2);
    let shift_tab = Key { code: KeyCode::Tab, control: false, shift: true, alt: false };
    app.handle_input(shift_tab);
    assert_eq!(app.active_project, 1);
    // terminals report Shift+Tab as BackTab
    let back_tab = Key { code: KeyCode::BackTab, control: false, shift: true, alt: false };
    app.handle_input(back_tab);
    assert_eq!(app.active_project, 0);
    app.handle_input(back_tab);
    assert_eq!(app.active_project, 2);
    app.handle_input(key(KeyCode::Tab));
    assert_eq!(app.active_project, 0);
    app.handle_input(key(KeyCode::Tab));
    app.handle_input(key(KeyCode::Tab));
    assert_eq!(app.active_project, 2);
}

#[test]
fn tab_cycle_law_on_values() {
    let mut app = three_projects();
    app.active_project = 1;
    for _ in 0..3 {
        app.handle_input(key(KeyCode::Tab));
    }
    assert_eq!(app.active_project, 1);
    app.next_project();
    app.previous_project();
    assert_eq!(app.active_project, 1);
}

#[test]
fn switching_keeps_each_project_history() {
    let mut app = three_projects();
    type_text(&mut app, "hi");
    app.handle_input(key(KeyCode::Tab));
    type_text(&mut app, "x");
    app.handle_input(key(KeyCode::Tab));
    app.handle_input(key(KeyCode::Tab));
    assert_eq!(app.active_project().input, "hi");
    assert_eq!(app.projects[1].input, "x");
    assert_eq!(app.projects[2].input, "");
}

#[test]
fn typing_and_editing_the_input_line() {
    let mut app = fresh_app();
    type_text(&mut app, "ac");
    app.handle_input(key(KeyCode::Left));
    type_text(&mut app, "b");
    assert_eq!(app.active_project().input, "abc");
    assert_eq!(app.active_project().cursor_pos, 2);
    app.handle_input(key(KeyCode::Right));
    assert_eq!(app.active_project().cursor_pos, 3);
    app.handle_input(key(KeyCode::Right));
    assert_eq!(app.active_project().cursor_pos, 3);
    app.handle_input(key(KeyCode::Backspace));
    assert_eq!(app.active_project().input, "ab");
    assert_eq!(app.active_project().cursor_pos, 2);
    app.handle_input(key(KeyCode::Left));
    app.handle_input(key(KeyCode::Left));
    app.handle_input(key(KeyCode::Left));
    assert_eq!(app.active_project().cursor_pos, 0);
    app.handle_input(key(KeyCode::Backspace));
    assert_eq!(app.active_project().input, "ab");
}

#[test]
fn typing_then_backspace_restores() {
    let mut app = fresh_app();
    type_text(&mut app, "xy");
    app.handle_input(key(KeyCode::Left));
    // a character of three bytes moves the cursor past all three
    app.handle_input(key(KeyCode::Char('中')));
    assert_eq!(app.active_project().input, "x中y");
    assert_eq!(app.active_project().cursor_pos, 4);
    app.handle_input(key(KeyCode::Backspace));
    assert_eq!(app.active_project().input, "xy");
    assert_eq!(app.active_project().cursor_pos, 1);
}

#[test]
fn typing_chinese() {
    let mut app = fresh_app();
    type_text(&mut app, "项目");
    assert_eq!(app.active_project().input, "项目");
    assert_eq!(app.active_project().cursor_pos, 6);
    app.handle_input(key(KeyCode::Left));
    assert_eq!(app.active_project().cursor_pos, 3);
    type_text(&mut app, "a");
    assert_eq!(app.active_project().input, "项a目");
    assert_eq!(app.active_project().cursor_pos, 4);
    app.handle_input(key(KeyCode::Right));
    assert_eq!(app.active_project().cursor_pos, 7);
    app.handle_input(key(KeyCode::Right));
    assert_eq!(app.active_project().cursor_pos, 7);
    app.handle_input(key(KeyCode::Backspace));
    app.handle_input(key(KeyCode::Backspace));
    assert_eq!(app.active_project().input, "项");
    assert_eq!(app.active_project().cursor_pos, 3);
    // a cursor left inside a character (as a saved file might hold) snaps back to its start
    app.projects[0].cursor_pos = 2;
    app.handle_input(key(KeyCode::Right));
    assert_eq!(app.active_project().cursor_pos, 3);
}

#[test]
fn bound_keys() {
    let mut app = three_projects();
    app.handle_input(alt('3'));
    assert_eq!(app.active_project, 2);
    app.handle_input(alt('1'));
    assert_eq!(app.active_project, 0);
    app.handle_input(alt('2'));
    assert_eq!(app.active_project, 1);
    app.handle_input(key(KeyCode::Char('?')));
    assert!(app.show_help);
    app.handle_input(key(KeyCode::Char('?')));
    assert!(!app.show_help);
    app.handle_input(key(KeyCode::Esc));
    app.handle_input(key(KeyCode::Other));
    assert_eq!(app.active_project().input, "");
    app.handle_input(ctrl('q'));
    assert!(app.should_quit);
    let mut app2 = fresh_app();
    app2.handle_input(ctrl('c'));
    assert!(app2.should_quit);
    // Alt+3 with one project does nothing
    app2.handle_input(alt('3'));
    assert_eq!(app2.active_project, 0);
    // a plain q is typed
    let mut app3 = fresh_app();
    app3.handle_input(key(KeyCode::Char('q')));
    assert!(!app3.should_quit);
    assert_eq!(app3.active_project().input, "q");
}

#[test]
fn classify_matches_bindings() {
    assert!(classify_key(&ctrl('m'), false) == KeyAction::ToggleMonitor);
    assert!(classify_key(&ctrl('n'), false) == KeyAction::NewProject);
    assert!(classify_key(&alt('2'), false) == KeyAction::Jump(1));
    assert!(classify_key(&key(KeyCode::Char('j')), true) == KeyAction::MonitorDown);
    assert!(classify_key(&key(KeyCode::Char('j')), false) == KeyAction::Insert('j'));
    assert!(classify_key(&key(KeyCode::Enter), true) == KeyAction::CloseMonitor);
    assert!(classify_key(&key(KeyCode::Enter), false) == KeyAction::Submit);
}

#[test]
fn monitor_panel_keys() {
    let mut app = three_projects();
    app.handle_input(ctrl('m'));
    assert!(app.show_monitor);
    app.handle_input(key(KeyCode::Char('j')));
    app.handle_input(key(KeyCode::Down));
    app.handle_input(key(KeyCode::Down));
    assert_eq!(app.active_project, 2);
    app.handle_input(key(KeyCode::Char('k')));
    assert_eq!(app.active_project, 1);
    app.handle_input(key(KeyCode::Up));
    app.handle_input(key(KeyCode::Up));
    assert_eq!(app.active_project, 0);
    app.handle_input(key(KeyCode::Char('x')));
    assert_eq!(app.active_project().input, "");
    app.handle_input(key(KeyCode::Enter));
    assert!(!app.show_monitor);
    app.handle_input(ctrl('m'));
    app.handle_input(key(KeyCode::Char('q')));
    assert!(!app.show_monitor);
    assert!(!app.should_quit);
}

#[test]
fn ctrl_n_makes_numbered_project() {
    let mut app = fresh_app();
    let e = app.handle_input(ctrl('n'));
    assert!(matches!(e, Effect::SaveProject { index: 1, .. }));
    assert_eq!(app.projects.len(), 2);
    assert_eq!(app.active_project, 1);
    assert_eq!(app.active_project().name, "项目2");
    assert_eq!(app.status_message, "项目「项目2」已创建");
}

#[test]
fn empty_enter_does_nothing() {
    let mut app = fresh_app();
    let e = app.handle_input(key(KeyCode::Enter));
    assert!(matches!(e, Effect::Nothing));
    assert_eq!(app.active_project().messages.len(), 1);
    assert_eq!(app.status_message, "准备就绪");
}

#[test]
fn chat_goes_to_the_assistant() {
    let mut app = fresh_app();
    type_text(&mut app, "写个排序");
    let e = app.handle_input(key(KeyCode::Enter));
    match e {
        // the project is saved with the line as it was typed
        Effect::SaveProject { index, input, cursor_pos } => {
            assert_eq!((index, input.as_str(), cursor_pos), (0, "写个排序", 12));
        }
        _ => panic!("expected a save"),
    }
    let p = app.active_project();
    assert_eq!(p.messages.len(), 3);
    assert_eq!(p.messages[1].role, MessageRole::User);
    assert_eq!(p.messages[1].content, "写个排序");
    assert_eq!(p.messages[2].role, MessageRole::Assistant);
    assert_eq!(p.messages[2].content, "[默认项目] 收到：写个排序\n\n这是一条模拟回复。");
    assert_eq!(p.input, "");
    assert_eq!(p.cursor_pos, 0);
    assert_eq!(app.status_message, "回复已完成");
}

#[test]
fn bang_asks_for_a_shell_command() {
    let mut app = fresh_app();
    type_text(&mut app, "!! ls -la ");
    let e = app.handle_input(key(KeyCode::Enter));
    match e {
        Effect::RunShell(cmd) => assert_eq!(cmd, "ls -la"),
        _ => panic!("expected a shell command"),
    }
    assert_eq!(app.status_message, "执行：!ls -la");
    assert_eq!(app.active_project().input, "");
    assert_eq!(app.active_project().messages.len(), 1);
}

#[test]
fn shell_results_are_posted() {
    let mut app = fresh_app();
    app.finish_shell_command("echo hi", ShellOutcome::Completed { stdout: b"hi\n".to_vec(), stderr: vec![] });
    assert_eq!(last_message(&app), (MessageRole::ShellOutput, "$ echo hi\nhi\n".to_string()));
    assert_eq!(app.status_message, "命令执行完成");
    app.finish_shell_command("x", ShellOutcome::Completed { stdout: vec![], stderr: b"bad".to_vec() });
    assert_eq!(last_message(&app).1, "$ x\nbad");
    app.finish_shell_command("true", ShellOutcome::Completed { stdout: vec![], stderr: vec![] });
    assert_eq!(last_message(&app).1, "$ true\n命令执行成功（无输出）");
    app.finish_shell_command("y", ShellOutcome::Completed { stdout: vec![0x61, 0xff, 0x62], stderr: vec![] });
    assert_eq!(last_message(&app).1, "$ y\na\u{FFFD}b");
    app.finish_shell_command("z", ShellOutcome::Failed("not found".to_string()));
    assert_eq!(last_message(&app).1, "$ z\n错误：not found");
    assert_eq!(app.status_message, "命令执行失败");
}

#[test]
fn slash_help_and_monitor() {
    let mut app = fresh_app();
    type_text(&mut app, "/help");
    app.handle_input(key(KeyCode::Enter));
    assert!(app.show_help);
    assert_eq!(app.active_project().input, "");
    let e = app.run_internal_command("?");
    assert!(matches!(e, Effect::Nothing));
    let e = app.run_internal_command("monitor");
    assert!(matches!(e, Effect::Nothing));
    assert!(app.show_monitor);
    app.run_internal_command("monitor");
    assert!(!app.show_monitor);
}

#[test]
fn slash_clear_empties_the_conversation() {
    let mut app = three_projects();
    app.send_to_ai("hello");
    assert_eq!(app.active_project().messages.len(), 3);
    app.run_internal_command("clear");
    assert_eq!(app.status_message, "对话已清空");
    assert_eq!(app.active_project().messages.len(), 1);
    assert_eq!(last_message(&app), (MessageRole::System, "对话已清空".to_string()));
    assert_eq!(app.projects[1].messages.len(), 1);
    assert_eq!(app.projects[1].messages[0].content, "项目「b」已创建");
}

#[test]
fn slash_new_makes_project() {
    let mut app = fresh_app();
    type_text(&mut app, "/new 项目A extra");
    let e = app.handle_input(key(KeyCode::Enter));
    assert!(matches!(e, Effect::SaveProject { index: 1, .. }));
    assert_eq!(app.projects.len(), 2);
    assert_eq!(app.active_project, 1);
    assert_eq!(app.active_project().name, "项目A");
    assert_eq!(app.status_message, "项目「项目A」已创建");
    // the line stays in the project it was typed in
    assert_eq!(app.projects[0].input, "/new 项目A extra");
    let e = app.run_internal_command("create b");
    assert!(matches!(e, Effect::SaveProject { index: 2, .. }));
    assert_eq!(app.active_project().name, "b");
}

#[test]
fn slash_new_without_name_shows_usage() {
    let mut app = fresh_app();
    let e = app.run_internal_command("new");
    assert!(matches!(e, Effect::Nothing));
    assert_eq!(app.status_message, "用法：/new <项目名>");
    assert_eq!(app.projects.len(), 1);
}

#[test]
fn slash_list_and_config() {
    let mut app = three_projects();
    app.active_project = 1;
    app.run_internal_command("list");
    assert_eq!(last_message(&app), (MessageRole::System, "项目列表:\n○ a\n● b\n○ c".to_string()));
    assert_eq!(app.status_message, "项目列表已显示");
    app.config = ApiConfig::parse("claude_api_key = \"k\"");
    app.run_internal_command("config");
    assert_eq!(
        last_message(&app).1,
        "配置文件：~/.config/tabby/config.toml\nClaude API: 已配置\nOpenAI API: 未配置"
    );
    assert_eq!(app.status_message, "配置信息已显示");
}

#[test]
fn unknown_command() {
    let mut app = fresh_app();
    app.run_internal_command("frobnicate now");
    assert_eq!(app.status_message, "未知命令：/frobnicate");
    app.run_internal_command("");
    assert_eq!(app.status_message, "未知命令：/");
    assert_eq!(app.active_project().messages.len(), 1);
}

#[test]
fn commands_touch_only_the_shown_project() {
    let mut app = three_projects();
    app.active_project = 1;
    app.send_to_ai("hello");
    app.run_internal_command("list");
    assert_eq!(app.projects[0].messages.len(), 1);
    assert_eq!(app.projects[2].messages.len(), 1);
    assert_eq!(app.projects[1].messages.len(), 4);
}

#[test]
fn save_current_project_asks_to_save() {
    let mut app = three_projects();
    app.active_project = 2;
    let e = app.save_current_project();
    assert!(matches!(e, Effect::SaveProject { index: 2, .. }));
    assert!(app.projects[2].last_active >= app.projects[2].created_at);
    let e = app.create_project("d");
    assert!(matches!(e, Effect::SaveProject { index: 3, .. }));
    assert_eq!(app.project(3).name, "d");
}

#[test]
fn conversations_only_grow() {
    let mut app = three_projects();
    let before: Vec<Vec<String>> =
        app.projects.iter().map(|p| p.messages.iter().map(|m| m.content.clone()).collect()).collect();
    type_text(&mut app, "/list");
    app.handle_input(key(KeyCode::Enter));
    type_text(&mut app, "hello");
    app.handle_input(key(KeyCode::Enter));
    app.handle_input(ctrl('n'));
    assert_eq!(app.projects.len(), 4);
    for (i, old) in before.iter().enumerate() {
        let now: Vec<String> = app.projects[i].messages.iter().map(|m| m.content.clone()).collect();
        assert!(now.len() >= old.len());
        assert_eq!(&now[..old.len()], &old[..]);
    }
    assert_eq!(app.projects[0].messages.len(), 4);
}

#[test]
fn stamped_steps_use_the_given_time() {
    let mut app = three_projects();
    let e = app.save_current_project_at(1234);
    assert!(matches!(e, Effect::SaveProject { index: 0, .. }));
    assert_eq!(app.projects[0].last_active, 1234);
    app.send_to_ai_at("q", 99);
    let p = app.active_project();
    assert_eq!(p.last_active, 99);
    assert_eq!(p.messages[1].timestamp, 99);
    assert_eq!(p.messages[2].timestamp, 99);
    let n = Project::new_at("x", 7);
    assert_eq!((n.created_at, n.last_active, n.messages[0].timestamp), (7, 7, 7));
    let m = tabby::project::Message::stamped(MessageRole::User, "t".to_string(), 5);
    assert_eq!(m.timestamp, 5);
}

#[test]
fn environment_fills_unset_keys() {
    let c = ApiConfig::parse("claude_api_key = \"file\"").with_environment(
        Some("env".to_string()),
        Some("https://env".to_string()),
    );
    assert_eq!(c.claude_api_key, Some("file".to_string()));
    assert_eq!(c.claude_base_url, Some("https://env".to_string()));
    let d = ApiConfig::empty().with_environment(None, None);
    assert!(d.claude_api_key.is_none());
}

#[test]
fn project_directory_names() {
    assert!(is_safe_dir_name("默认项目"));
    assert!(is_safe_dir_name("a.b"));
    assert!(!is_safe_dir_name(""));
    assert!(!is_safe_dir_name("."));
    assert!(!is_safe_dir_name(".."));
    assert!(!is_safe_dir_name("../x"));
    assert!(!is_safe_dir_name("a\\b"));
}

#[test]
fn unsaved_name_is_reported() {
    let mut app = fresh_app();
    app.report_unsaved("../x");
    assert_eq!(app.status_message, "项目「../x」名称不能作为目录名，未保存");
    assert_eq!(app.projects.len(), 1);
}
