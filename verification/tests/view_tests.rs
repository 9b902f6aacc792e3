use tabby::app::App;
use tabby::config::ApiConfig;
use tabby::project::{DailySummary, Message, MessageRole, Project, ProjectStatus};
use tabby::view::{
    centered_rect, content_lines, content_title, input_line, monitor_entries, monitor_entries_today,
    screen_areas, status_line, tab_titles, InputMode, Rect,
};

fn app_with(names: &[&str]) -> App {
    let projects = names.iter().map(|n| Project::new(n)).collect();
    App::new(ApiConfig::empty(), projects, "/p".to_string())
}

#[test]
fn tabs_mark_the_shown_project() {
    let mut app = app_with(&["a", "项目B"]);
    app.active_project = 1;
    assert_eq!(tab_titles(&app), vec!["○ a", "● 项目B"]);
}

#[test]
fn conversation_lines_carry_role_marks() {
    let mut app = app_with(&["p"]);
    let msgs = &mut app.projects[0].messages;
    msgs.push(Message::new(MessageRole::User, "q".to_string()));
    msgs.push(Message::new(MessageRole::Assistant, "r".to_string()));
    msgs.push(Message::new(MessageRole::ShellOutput, "s".to_string()));
    assert_eq!(content_lines(&app), vec!["· 项目「p」已创建", "> q", "◰ r", "$ s"]);
    assert_eq!(content_title(&app), "  [p]");
}

#[test]
fn status_bar_text() {
    let app = app_with(&["p"]);
    assert_eq!(
        status_line(&app),
        "  Ctrl+q：退出  │  Tab：切换  │  Ctrl+n：新建  │  Ctrl+m：监测  │  准备就绪"
    );
}

#[test]
fn input_line_splits_at_drawn_cursor() {
    let mut app = app_with(&["p"]);
    let l = input_line(&app);
    assert_eq!(l.mode, InputMode::Chat);
    assert_eq!((l.before.as_str(), l.after.as_str(), l.cursor), ("", "", 0));
    app.projects[0].input = "!ls".to_string();
    app.projects[0].cursor_pos = 0;
    let l = input_line(&app);
    assert_eq!(l.mode, InputMode::Shell);
    assert_eq!((l.before.as_str(), l.after.as_str(), l.cursor), ("!", "ls", 1));
    app.projects[0].input = "/new 中".to_string();
    app.projects[0].cursor_pos = 99;
    let l = input_line(&app);
    assert_eq!(l.mode, InputMode::Command);
    assert_eq!((l.before.as_str(), l.after.as_str(), l.cursor), ("/new 中", "", 8));
    app.projects[0].cursor_pos = 5;
    let l = input_line(&app);
    assert_eq!((l.before.as_str(), l.after.as_str(), l.cursor), ("/new ", "中", 5));
}

#[test]
fn input_line_with_chinese_text() {
    let mut app = app_with(&["p"]);
    app.projects[0].input = "项目".to_string();
    app.projects[0].cursor_pos = 0;
    let l = input_line(&app);
    assert_eq!((l.before.as_str(), l.after.as_str(), l.cursor), ("", "项目", 0));
    app.projects[0].cursor_pos = 4;
    let l = input_line(&app);
    assert_eq!((l.before.as_str(), l.after.as_str(), l.cursor), ("项", "目", 3));
}

#[test]
fn monitor_lists_today_events() {
    let mut app = app_with(&["a", "b"]);
    app.projects[1].status = ProjectStatus::Archived;
    app.projects[0].daily_summaries.push(DailySummary {
        date: "2024-05-01".to_string(),
        events: vec!["写代码".to_string(), "测试".to_string()],
    });
    app.projects[0].daily_summaries.push(DailySummary {
        date: "2024-04-30".to_string(),
        events: vec!["old".to_string()],
    });
    app.projects[0].daily_summaries.push(DailySummary {
        date: "2024-05-01".to_string(),
        events: vec!["发布".to_string()],
    });
    let entries = monitor_entries(&app, "2024-05-01");
    assert_eq!(entries, vec!["● ► a\n  · 写代码\n  · 测试\n  · 发布", "◎ b\n  今日无记录"]);
    let today = monitor_entries_today(&app);
    assert_eq!(today.len(), 2);
    assert_eq!(today[1], "◎ b\n  今日无记录");
}

#[test]
fn centered_rect_is_centred() {
    let r = Rect { x: 0, y: 0, width: 100, height: 100 };
    assert_eq!(centered_rect(50, 50, r), Rect { x: 25, y: 25, width: 50, height: 50 });
    let r = Rect { x: 10, y: 4, width: 80, height: 20 };
    assert_eq!(centered_rect(50, 50, r), Rect { x: 30, y: 9, width: 40, height: 10 });
}

#[test]
fn screen_is_split_into_four_bands() {
    let areas = screen_areas(Rect { x: 0, y: 0, width: 80, height: 24 });
    assert_eq!(
        areas,
        vec![
            Rect { x: 0, y: 0, width: 80, height: 3 },
            Rect { x: 0, y: 3, width: 80, height: 17 },
            Rect { x: 0, y: 20, width: 80, height: 3 },
            Rect { x: 0, y: 23, width: 80, height: 1 },
        ]
    );
}
