//! The workbench state and how it answers keys, input lines and commands.
//!
//! Every change that needs the outside world (saving a project, running a shell
//! command) is handed back as an [`Effect`] for the caller to perform.
use vstd::prelude::*;

use crate::config::ApiConfig;
use crate::project::{created_note, fresh_project, Message, MessageRole, Project};
use crate::clock::unix_time_now;
use crate::text::{
    boundary_at_or_before, byte_len, byte_offset, char_width, chars_of, chars_within, decimal,
    join, lemma_byte_offset_end, lemma_byte_offset_grows, lemma_byte_offset_step,
    lemma_chars_within, lossy_text, offset_of, push_char, push_decimal, push_range, push_str,
    same_text, split_words, string_of_range, trim_range, trim_start_by, trim_ws, utf8_len,
    utf8_lossy, utf8_width, views, words, Pat,
};

verus! {

/// Outside work that a step asks the caller to do.
pub enum Effect {
    /// Nothing to do.
    Nothing,
    /// Write the project at `index` to disk, with this input line and cursor (the
    /// ones it had when the save was asked for).
    SaveProject { index: usize, input: String, cursor_pos: usize },
    /// Run this shell command and report with `App::finish_shell_command`.
    RunShell(String),
}

/// How a shell command ended.
pub enum ShellOutcome {
    /// It ran; these are its standard output and error streams.
    Completed { stdout: Vec<u8>, stderr: Vec<u8> },
    /// It could not be started; this is the error's text.
    Failed(String),
}

/// The key of a key press.
#[derive(Clone, Copy, PartialEq, Eq, Structural)]
pub enum KeyCode {
    Char(char),
    Tab,
    /// Shift+Tab, as terminals report it.
    BackTab,
    Backspace,
    Enter,
    Left,
    Right,
    Up,
    Down,
    Esc,
    Other,
}

/// A key press with the modifiers held.
#[derive(Clone, Copy, PartialEq, Eq, Structural)]
pub struct Key {
    pub code: KeyCode,
    pub control: bool,
    pub shift: bool,
    pub alt: bool,
}

/// What a key press means.
#[derive(Clone, Copy, PartialEq, Eq, Structural)]
pub enum KeyAction {
    CloseMonitor,
    MonitorDown,
    MonitorUp,
    Ignore,
    Quit,
    PreviousProject,
    NextProject,
    ToggleMonitor,
    Jump(usize),
    NewProject,
    ToggleHelp,
    Insert(char),
    Backspace,
    Submit,
    CursorLeft,
    CursorRight,
}

/// The key bindings: in the monitor panel `q`/Esc/Enter close it and `j`/`k`
/// (or Down/Up) move the selection; elsewhere Ctrl+q and Ctrl+c quit, Tab and
/// Shift+Tab (Tab with Shift held, or BackTab) switch projects, Ctrl+m opens the monitor, Alt+1/2/3 jump, Ctrl+n
/// makes a project, `?` toggles help, other characters are typed, and
/// Backspace, Enter, Left and Right edit and send the input line.
pub open spec fn key_action(key: Key, monitor: bool) -> KeyAction {
    if monitor {
        match key.code {
            KeyCode::Char(c) => if c == 'q' {
                KeyAction::CloseMonitor
            } else if c == 'j' {
                KeyAction::MonitorDown
            } else if c == 'k' {
                KeyAction::MonitorUp
            } else {
                KeyAction::Ignore
            },
            KeyCode::Esc => KeyAction::CloseMonitor,
            KeyCode::Down => KeyAction::MonitorDown,
            KeyCode::Up => KeyAction::MonitorUp,
            KeyCode::Enter => KeyAction::CloseMonitor,
            _ => KeyAction::Ignore,
        }
    } else {
        match key.code {
            KeyCode::Char(c) => if (c == 'q' || c == 'c') && key.control {
                KeyAction::Quit
            } else if c == 'm' && key.control {
                KeyAction::ToggleMonitor
            } else if c == '1' && key.alt {
                KeyAction::Jump(0)
            } else if c == '2' && key.alt {
                KeyAction::Jump(1)
            } else if c == '3' && key.alt {
                KeyAction::Jump(2)
            } else if c == 'n' && key.control {
                KeyAction::NewProject
            } else if c == '?' {
                KeyAction::ToggleHelp
            } else {
                KeyAction::Insert(c)
            },
            KeyCode::Tab => if key.shift {
                KeyAction::PreviousProject
            } else {
                KeyAction::NextProject
            },
            KeyCode::BackTab => KeyAction::PreviousProject,
            KeyCode::Backspace => KeyAction::Backspace,
            KeyCode::Enter => KeyAction::Submit,
            KeyCode::Left => KeyAction::CursorLeft,
            KeyCode::Right => KeyAction::CursorRight,
            _ => KeyAction::Ignore,
        }
    }
}

/// What `key` means, with the monitor panel open or not.
pub fn classify_key(key: &Key, monitor: bool) -> (a: KeyAction)
    ensures
        a == key_action(*key, monitor),
{
    if monitor {
        match key.code {
            KeyCode::Char(c) => if c == 'q' {
                KeyAction::CloseMonitor
            } else if c == 'j' {
                KeyAction::MonitorDown
            } else if c == 'k' {
                KeyAction::MonitorUp
            } else {
                KeyAction::Ignore
            },
            KeyCode::Esc => KeyAction::CloseMonitor,
            KeyCode::Down => KeyAction::MonitorDown,
            KeyCode::Up => KeyAction::MonitorUp,
            KeyCode::Enter => KeyAction::CloseMonitor,
            _ => KeyAction::Ignore,
        }
    } else {
        match key.code {
            KeyCode::Char(c) => if (c == 'q' || c == 'c') && key.control {
                KeyAction::Quit
            } else if c == 'm' && key.control {
                KeyAction::ToggleMonitor
            } else if c == '1' && key.alt {
                KeyAction::Jump(0)
            } else if c == '2' && key.alt {
                KeyAction::Jump(1)
            } else if c == '3' && key.alt {
                KeyAction::Jump(2)
            } else if c == 'n' && key.control {
                KeyAction::NewProject
            } else if c == '?' {
                KeyAction::ToggleHelp
            } else {
                KeyAction::Insert(c)
            },
            KeyCode::Tab => if key.shift {
                KeyAction::PreviousProject
            } else {
                KeyAction::NextProject
            },
            KeyCode::BackTab => KeyAction::PreviousProject,
            KeyCode::Backspace => KeyAction::Backspace,
            KeyCode::Enter => KeyAction::Submit,
            KeyCode::Left => KeyAction::CursorLeft,
            KeyCode::Right => KeyAction::CursorRight,
            _ => KeyAction::Ignore,
        }
    }
}

/// The workbench: the open projects, which one is shown, and the panels.
pub struct App {
    pub projects: Vec<Project>,
    pub active_project: usize,
    pub should_quit: bool,
    pub show_help: bool,
    pub show_monitor: bool,
    pub config: ApiConfig,
    pub status_message: String,
    /// The directory the projects are saved under.
    pub projects_path: String,
}

/// `e` asks for project `index` to be saved with this input line and cursor.
pub open spec fn saves(e: Effect, index: int, input: Seq<char>, cursor: int) -> bool {
    e matches Effect::SaveProject { index: i, input: s, cursor_pos: c } && i == index && s@
        == input && c == cursor
}

/// The project after `a` when cycling through `n`.
pub open spec fn next_index(a: int, n: int) -> int {
    (a + 1) % n
}

/// The project before `a` when cycling through `n`.
pub open spec fn previous_index(a: int, n: int) -> int {
    (a + n - 1) % n
}

/// One step forward or back in the cycle, worked out.
pub proof fn lemma_cycle_steps(a: int, n: int)
    requires
        0 <= a < n,
    ensures
        next_index(a, n) == if a + 1 == n {
            0
        } else {
            a + 1
        },
        previous_index(a, n) == if a == 0 {
            n - 1
        } else {
            a - 1
        },
{
    if a + 1 == n {
        assert((a + 1) % n == 0) by (nonlinear_arith)
            requires
                a + 1 == n,
                n > 0,
        ;
    } else {
        assert((a + 1) % n == a + 1) by (nonlinear_arith)
            requires
                0 <= a + 1 < n,
        ;
    }
    if a == 0 {
        assert((a + n - 1) % n == n - 1) by (nonlinear_arith)
            requires
                a == 0,
                n > 0,
        ;
    } else {
        assert((a + n - 1) % n == a - 1) by (nonlinear_arith)
            requires
                0 < a < n,
        ;
    }
}

/// The text of the status line when a command is unknown.
pub open spec fn unknown_note(word: Seq<char>) -> Seq<char> {
    "未知命令：/"@ + word
}

/// The first word of a command, or nothing.
pub open spec fn command_word(cmd: Seq<char>) -> Seq<char> {
    if words(cmd).len() > 0 {
        words(cmd)[0]
    } else {
        seq![]
    }
}

/// The mark of a project in lists: filled for the shown one.
pub open spec fn marker(shown: bool) -> Seq<char> {
    if shown {
        "●"@
    } else {
        "○"@
    }
}

/// The entries of the project list: mark, space, name.
pub open spec fn list_entries(a: App) -> Seq<Seq<char>> {
    Seq::new(
        a.projects@.len(),
        |i: int| marker(i == a.active_project) + " "@ + a.projects@[i].name@,
    )
}

/// The message that `/list` posts.
pub open spec fn list_text(a: App) -> Seq<char> {
    "项目列表:\n"@ + join(list_entries(a), "\n"@)
}

/// Whether a key is set, in words.
pub open spec fn configured(set: bool) -> Seq<char> {
    if set {
        "已配置"@
    } else {
        "未配置"@
    }
}

/// The message that `/config` posts.
pub open spec fn config_text(c: ApiConfig) -> Seq<char> {
    "配置文件：~/.config/tabby/config.toml\nClaude API: "@ + configured(c.claude_api_key is Some)
        + "\nOpenAI API: "@ + configured(c.openai_api_key is Some)
}

/// The stand-in answer to `input` in project `name`.
pub open spec fn reply_text(name: Seq<char>, input: Seq<char>) -> Seq<char> {
    "["@ + name + "] 收到："@ + input + "\n\n这是一条模拟回复。"@
}

/// What a finished shell command shows: its output, else its error output, else a
/// note that it printed nothing.
pub open spec fn shell_output_text(stdout: Seq<u8>, stderr: Seq<u8>) -> Seq<char> {
    if stdout.len() > 0 {
        utf8_lossy(stdout)
    } else if stderr.len() > 0 {
        utf8_lossy(stderr)
    } else {
        "命令执行成功（无输出）"@
    }
}

/// What reporting the shell command `cmd` with `outcome` does, from `a` to `b`:
/// the command and what it printed (or the error) are posted to the shown
/// project, and the status line says how it ended.
pub open spec fn shell_finished(a: App, b: App, cmd: Seq<char>, outcome: ShellOutcome) -> bool {
    match outcome {
        ShellOutcome::Completed { stdout, stderr } => {
            &&& posted(
                a,
                b,
                seq![(MessageRole::ShellOutput, "$ "@ + cmd + "\n"@ + shell_output_text(stdout@, stderr@))],
            )
            &&& b.status_message@ == "命令执行完成"@
        },
        ShellOutcome::Failed(err) => {
            &&& posted(a, b, seq![(MessageRole::ShellOutput, "$ "@ + cmd + "\n错误："@ + err@)])
            &&& b.status_message@ == "命令执行失败"@
        },
    }
}

/// `new` holds `old` followed by messages with the roles and contents of `added`.
pub open spec fn appended(
    old: Seq<Message>,
    new: Seq<Message>,
    added: Seq<(MessageRole, Seq<char>)>,
) -> bool {
    &&& new.len() == old.len() + added.len()
    &&& new.take(old.len() as int) == old
    &&& forall|j: int|
        0 <= j < added.len() ==> (#[trigger] new[old.len() + j]).role == added[j].0
            && new[old.len() + j].content@ == added[j].1
}

/// `q` has the name, status, dates, to-dos and summaries of `p`.
pub open spec fn same_record(p: Project, q: Project) -> bool {
    &&& q.name == p.name
    &&& q.status == p.status
    &&& q.created_at == p.created_at
    &&& q.todos == p.todos
    &&& q.daily_summaries == p.daily_summaries
}

/// `b` shows what `a` shows: the same project, the same panels, the same quit flag.
pub open spec fn same_view(a: App, b: App) -> bool {
    &&& b.active_project == a.active_project
    &&& b.should_quit == a.should_quit
    &&& b.show_help == a.show_help
    &&& b.show_monitor == a.show_monitor
}

/// `b` has the configuration and project directory of `a`.
pub open spec fn same_settings(a: App, b: App) -> bool {
    &&& b.config == a.config
    &&& b.projects_path == a.projects_path
}

/// Every project of `a` but the shown one is in `b`, unchanged and in its place.
pub open spec fn others_kept(a: App, b: App) -> bool {
    &&& b.projects@.len() == a.projects@.len()
    &&& forall|i: int|
        0 <= i < a.projects@.len() && i != a.active_project ==> #[trigger] b.projects@[i]
            == a.projects@[i]
}

/// `b` is `a` with `added` posted to the shown project and the status line free.
pub open spec fn posted(a: App, b: App, added: Seq<(MessageRole, Seq<char>)>) -> bool {
    let p = a.projects@[a.active_project as int];
    let q = b.projects@[a.active_project as int];
    &&& same_view(a, b)
    &&& same_settings(a, b)
    &&& others_kept(a, b)
    &&& same_record(p, q)
    &&& q.last_active == p.last_active
    &&& q.input == p.input
    &&& q.cursor_pos == p.cursor_pos
    &&& appended(p.messages@, q.messages@, added)
}

/// `b` is `a` with the shown project's conversation emptied down to the note that
/// it was emptied, and the status line free.
pub open spec fn cleared(a: App, b: App) -> bool {
    let p = a.projects@[a.active_project as int];
    let q = b.projects@[a.active_project as int];
    &&& same_view(a, b)
    &&& same_settings(a, b)
    &&& others_kept(a, b)
    &&& same_record(p, q)
    &&& q.last_active == p.last_active
    &&& q.input == p.input
    &&& q.cursor_pos == p.cursor_pos
    &&& q.messages@.len() == 1
    &&& q.messages@[0].role == MessageRole::System
    &&& q.messages@[0].content@ == "对话已清空"@
}

/// `b` is `a` with only the status line changed, to `status`.
pub open spec fn status_only(a: App, b: App, status: Seq<char>) -> bool {
    &&& b.projects == a.projects
    &&& same_view(a, b)
    &&& same_settings(a, b)
    &&& b.status_message@ == status
}

/// `b` is `a` with the shown project's input line and cursor set as given.
pub open spec fn edited(a: App, b: App, input: Seq<char>, cursor: int) -> bool {
    let p = a.projects@[a.active_project as int];
    let q = b.projects@[a.active_project as int];
    &&& same_view(a, b)
    &&& same_settings(a, b)
    &&& others_kept(a, b)
    &&& b.status_message == a.status_message
    &&& same_record(p, q)
    &&& q.last_active == p.last_active
    &&& q.messages == p.messages
    &&& q.input@ == input
    &&& q.cursor_pos == cursor
}

/// `b` is `a` with a project made under `name` appended and shown.
pub open spec fn project_created(a: App, b: App, name: Seq<char>) -> bool {
    &&& b.projects@.len() == a.projects@.len() + 1
    &&& b.projects@.take(a.projects@.len() as int) == a.projects@
    &&& fresh_project(b.projects@.last(), name)
    &&& b.active_project == a.projects@.len()
    &&& b.status_message@ == created_note(name)
    &&& b.should_quit == a.should_quit
    &&& b.show_help == a.show_help
    &&& b.show_monitor == a.show_monitor
    &&& same_settings(a, b)
}

/// What the internal command `cmd` (the text after `/`) does, from `a` to `b`,
/// handing back `e`.
pub open spec fn command_done(a: App, b: App, cmd: Seq<char>, e: Effect) -> bool {
    let w = command_word(cmd);
    if w == "help"@ || w == "?"@ {
        e is Nothing && b == (App { show_help: true, ..a })
    } else if w == "clear"@ {
        &&& e is Nothing
        &&& cleared(a, b)
        &&& b.status_message@ == "对话已清空"@
    } else if w == "monitor"@ {
        e is Nothing && b == (App { show_monitor: !a.show_monitor, ..a })
    } else if w == "new"@ || w == "create"@ {
        if words(cmd).len() > 1 {
            project_created(a, b, words(cmd)[1]) && saves(e, a.projects@.len() as int, seq![], 0)
        } else {
            e is Nothing && status_only(a, b, "用法：/new <项目名>"@)
        }
    } else if w == "list"@ {
        &&& e is Nothing
        &&& posted(a, b, seq![(MessageRole::System, list_text(a))])
        &&& b.status_message@ == "项目列表已显示"@
    } else if w == "config"@ {
        &&& e is Nothing
        &&& posted(a, b, seq![(MessageRole::System, config_text(a.config))])
        &&& b.status_message@ == "配置信息已显示"@
    } else {
        e is Nothing && status_only(a, b, unknown_note(w))
    }
}

/// What sending `input` to the assistant does, from `a` to `b`: the input and the
/// reply are posted, the project is marked active now, and is to be saved.
pub open spec fn sent(a: App, b: App, input: Seq<char>, e: Effect) -> bool {
    let p = a.projects@[a.active_project as int];
    let q = b.projects@[a.active_project as int];
    &&& same_view(a, b)
    &&& same_settings(a, b)
    &&& others_kept(a, b)
    &&& same_record(p, q)
    &&& q.input == p.input
    &&& q.cursor_pos == p.cursor_pos
    &&& appended(
        p.messages@,
        q.messages@,
        seq![(MessageRole::User, input), (MessageRole::Assistant, reply_text(p.name@, input))],
    )
    &&& b.status_message@ == "回复已完成"@
    &&& saves(e, a.active_project as int, p.input@, p.cursor_pos as int)
}

/// `b` is `m` with the shown project's input line emptied and its cursor at 0.
pub open spec fn input_cleared(m: App, b: App) -> bool {
    let p = m.projects@[m.active_project as int];
    let q = b.projects@[m.active_project as int];
    &&& same_view(m, b)
    &&& same_settings(m, b)
    &&& others_kept(m, b)
    &&& b.status_message == m.status_message
    &&& same_record(p, q)
    &&& q.last_active == p.last_active
    &&& q.messages == p.messages
    &&& q.input@.len() == 0
    &&& q.cursor_pos == 0
}

/// The shell command that an input line starting with `!` asks for.
pub open spec fn shell_command_of(input: Seq<char>) -> Seq<char> {
    trim_ws(trim_start_by(input, Pat::Exactly('!')))
}

/// The internal command that an input line starting with `/` asks for.
pub open spec fn internal_command_of(input: Seq<char>) -> Seq<char> {
    trim_ws(trim_start_by(input, Pat::Exactly('/')))
}

/// What submitting the shown project's input line does, from `a` to `b`: an empty
/// line does nothing; a line starting with `!` asks for a shell command; one
/// starting with `/` runs an internal command; anything else goes to the
/// assistant. Then the input line of the project shown afterwards is cleared.
pub open spec fn input_processed(a: App, b: App, e: Effect) -> bool {
    let input = a.projects@[a.active_project as int].input@;
    if input.len() == 0 {
        b == a && e is Nothing
    } else if input[0] == '!' {
        let cmd = shell_command_of(input);
        &&& e matches Effect::RunShell(c) && c@ == cmd
        &&& exists|m: App|
            #![trigger input_cleared(m, b)]
            status_only(a, m, "执行：!"@ + cmd) && input_cleared(m, b)
    } else if input[0] == '/' {
        exists|m: App|
            #![trigger command_done(a, m, internal_command_of(input), e)]
            command_done(a, m, internal_command_of(input), e) && input_cleared(m, b)
    } else {
        exists|m: App| #![trigger sent(a, m, input, e)] sent(a, m, input, e) && input_cleared(m, b)
    }
}

/// The name a project made with Ctrl+n gets.
pub open spec fn numbered_name(n: nat) -> Seq<char> {
    "项目"@ + decimal(n + 1)
}

/// What `key` does, from `a` to `b`, handing back `e`.
pub open spec fn key_handled(a: App, b: App, key: Key, e: Effect) -> bool {
    let n = a.projects@.len();
    let i = a.active_project as int;
    let input = a.projects@[i].input@;
    let cursor = a.projects@[i].cursor_pos as int;
    // the character boundary at or before the cursor
    let k = chars_within(input, cursor) as int;
    match key_action(key, a.show_monitor) {
        KeyAction::CloseMonitor => e is Nothing && b == (App { show_monitor: false, ..a }),
        KeyAction::MonitorDown => e is Nothing && b == (App {
            active_project: if i + 1 < n {
                (i + 1) as usize
            } else {
                i as usize
            },
            ..a
        }),
        KeyAction::MonitorUp => e is Nothing && b == (App {
            active_project: if i > 0 {
                (i - 1) as usize
            } else {
                i as usize
            },
            ..a
        }),
        KeyAction::Ignore => e is Nothing && b == a,
        KeyAction::Quit => e is Nothing && b == (App { should_quit: true, ..a }),
        KeyAction::PreviousProject => e is Nothing && b == (App {
            active_project: previous_index(i, n as int) as usize,
            ..a
        }),
        KeyAction::NextProject => e is Nothing && b == (App {
            active_project: next_index(i, n as int) as usize,
            ..a
        }),
        KeyAction::ToggleMonitor => e is Nothing && b == (App { show_monitor: !a.show_monitor, ..a }),
        KeyAction::Jump(j) => e is Nothing && if j < n {
            b == (App { active_project: j, ..a })
        } else {
            b == a
        },
        KeyAction::NewProject => project_created(a, b, numbered_name(n)) && saves(
            e,
            n as int,
            seq![],
            0,
        ),
        KeyAction::ToggleHelp => e is Nothing && b == (App { show_help: !a.show_help, ..a }),
        KeyAction::Insert(c) => e is Nothing && edited(
            a,
            b,
            input.insert(k, c),
            (byte_offset(input, k) + char_width(c)) as int,
        ),
        KeyAction::Backspace => e is Nothing && if k > 0 {
            edited(a, b, input.remove(k - 1), byte_offset(input, k - 1) as int)
        } else {
            edited(a, b, input, 0)
        },
        KeyAction::Submit => input_processed(a, b, e),
        KeyAction::CursorLeft => e is Nothing && if k > 0 {
            edited(a, b, input, byte_offset(input, k - 1) as int)
        } else {
            edited(a, b, input, 0)
        },
        KeyAction::CursorRight => e is Nothing && if k < input.len() {
            edited(a, b, input, byte_offset(input, k + 1) as int)
        } else {
            edited(a, b, input, byte_len(input) as int)
        },
    }
}

impl App {
    /// At least one project is open and the shown one is among them.
    pub open spec fn wf(&self) -> bool {
        0 < self.projects@.len() && self.active_project < self.projects@.len()
    }

    /// The shown project.
    pub open spec fn shown(&self) -> Project {
        self.projects@[self.active_project as int]
    }

    /// The workbench as it starts: with the projects found on disk, or with one
    /// default project where none were found; the first one shown, no panel open.
    pub fn new(config: ApiConfig, loaded: Vec<Project>, projects_path: String) -> (app: App)
        ensures
            app.wf(),
            loaded@.len() > 0 ==> app.projects == loaded,
            loaded@.len() == 0 ==> app.projects@.len() == 1 && fresh_project(
                app.projects@[0],
                "默认项目"@,
            ),
            app.active_project == 0,
            !app.should_quit && !app.show_help && !app.show_monitor,
            app.config == config,
            app.projects_path == projects_path,
            app.status_message@ == "准备就绪"@,
    {
        let mut projects = loaded;
        if projects.len() == 0 {
            projects.push(Project::new("默认项目"));
        }
        let mut status = String::new();
        push_str(&mut status, "准备就绪");
        App {
            projects,
            active_project: 0,
            should_quit: false,
            show_help: false,
            show_monitor: false,
            config,
            status_message: status,
            projects_path,
        }
    }

    /// The shown project.
    pub fn active_project(&self) -> (p: &Project)
        requires
            self.wf(),
        ensures
            *p == self.shown(),
    {
        &self.projects[self.active_project]
    }

    /// The project at `i`.
    pub fn project(&self, i: usize) -> (p: &Project)
        requires
            i < self.projects@.len(),
        ensures
            *p == self.projects@[i as int],
    {
        &self.projects[i]
    }

    /// Makes a project named `name`, shows it, and asks for it to be saved.
    pub fn create_project(&mut self, name: &str) -> (e: Effect)
        requires
            old(self).wf(),
        ensures
            final(self).wf(),
            project_created(*old(self), *final(self), name@),
            saves(e, old(self).projects@.len() as int, seq![], 0),
    {
        let project = Project::new(name);
        self.projects.push(project);
        self.active_project = self.projects.len() - 1;
        let mut status = String::new();
        push_str(&mut status, "项目「");
        push_str(&mut status, name);
        push_str(&mut status, "」已创建");
        self.status_message = status;
        assert(self.projects@.take(old(self).projects@.len() as int) =~= old(self).projects@);
        Effect::SaveProject { index: self.active_project, input: String::new(), cursor_pos: 0 }
    }

    /// Marks the shown project active now, by the clock, and asks for it to be
    /// saved.
    pub fn save_current_project(&mut self) -> (e: Effect)
        requires
            old(self).wf(),
        ensures
            final(self).wf(),
            same_view(*old(self), *final(self)),
            same_settings(*old(self), *final(self)),
            others_kept(*old(self), *final(self)),
            final(self).status_message == old(self).status_message,
            same_record(old(self).shown(), final(self).shown()),
            final(self).shown().messages == old(self).shown().messages,
            final(self).shown().input == old(self).shown().input,
            final(self).shown().cursor_pos == old(self).shown().cursor_pos,
            saves(
                e,
                old(self).active_project as int,
                old(self).shown().input@,
                old(self).shown().cursor_pos as int,
            ),
    {
        let now = unix_time_now();
        self.save_current_project_at(now)
    }

    /// Marks the shown project active at time `now` and asks for it to be saved.
    pub fn save_current_project_at(&mut self, now: u64) -> (e: Effect)
        requires
            old(self).wf(),
        ensures
            final(self).wf(),
            same_view(*old(self), *final(self)),
            same_settings(*old(self), *final(self)),
            others_kept(*old(self), *final(self)),
            final(self).status_message == old(self).status_message,
            same_record(old(self).shown(), final(self).shown()),
            final(self).shown().messages == old(self).shown().messages,
            final(self).shown().input == old(self).shown().input,
            final(self).shown().cursor_pos == old(self).shown().cursor_pos,
            final(self).shown().last_active == now,
            saves(
                e,
                old(self).active_project as int,
                old(self).shown().input@,
                old(self).shown().cursor_pos as int,
            ),
    {
        let i = self.active_project;
        self.projects[i].last_active = now;
        let input = self.projects[i].input.clone();
        Effect::SaveProject { index: i, input, cursor_pos: self.projects[i].cursor_pos }
    }

    /// Reports on the status line that project `name` was not saved because its
    /// name cannot be a directory name of its own.
    pub fn report_unsaved(&mut self, name: &str)
        ensures
            final(self).status_message@ == "项目「"@ + name@ + "」名称不能作为目录名，未保存"@,
            final(self).projects == old(self).projects,
            same_view(*old(self), *final(self)),
            same_settings(*old(self), *final(self)),
    {
        let mut status = String::new();
        push_str(&mut status, "项目「");
        push_str(&mut status, name);
        push_str(&mut status, "」名称不能作为目录名，未保存");
        self.status_message = status;
    }

    /// Shows the next project, after the last the first.
    pub fn next_project(&mut self)
        requires
            old(self).wf(),
        ensures
            final(self).wf(),
            *final(self) == (App {
                active_project: next_index(
                    old(self).active_project as int,
                    old(self).projects@.len() as int,
                ) as usize,
                ..*old(self)
            }),
    {
        let n = self.projects.len();
        let a = self.active_project;
        proof {
            lemma_cycle_steps(a as int, n as int);
        }
        if a == n - 1 {
            self.active_project = 0;
        } else {
            self.active_project = a + 1;
        }
    }

    /// Shows the previous project, before the first the last.
    pub fn previous_project(&mut self)
        requires
            old(self).wf(),
        ensures
            final(self).wf(),
            *final(self) == (App {
                active_project: previous_index(
                    old(self).active_project as int,
                    old(self).projects@.len() as int,
                ) as usize,
                ..*old(self)
            }),
    {
        let n = self.projects.len();
        let a = self.active_project;
        proof {
            lemma_cycle_steps(a as int, n as int);
        }
        if a == 0 {
            self.active_project = n - 1;
        } else {
            self.active_project = a - 1;
        }
    }

    /// Posts a message to the shown project.
    fn post(&mut self, role: MessageRole, content: String)
        requires
            old(self).wf(),
        ensures
            final(self).wf(),
            posted(*old(self), *final(self), seq![(role, content@)]),
            final(self).status_message == old(self).status_message,
    {
        let now = unix_time_now();
        self.post_at(role, content, now);
    }

    /// Posts a message stamped `now` to the shown project.
    fn post_at(&mut self, role: MessageRole, content: String, now: u64)
        requires
            old(self).wf(),
        ensures
            final(self).wf(),
            posted(*old(self), *final(self), seq![(role, content@)]),
            final(self).shown().messages@.last().timestamp == now,
            final(self).status_message == old(self).status_message,
    {
        let i = self.active_project;
        let m = Message::stamped(role, content, now);
        self.projects[i].messages.push(m);
        proof {
            let p = old(self).projects@[i as int];
            let q = self.projects@[i as int];
            assert(q.messages@ == p.messages@.push(m));
            assert(q.messages@.take(p.messages@.len() as int) =~= p.messages@);
            assert(q.messages@[p.messages@.len() as int] == m);
        }
    }

    /// The project list as `/list` shows it.
    fn list_message(&self) -> (s: String)
        requires
            self.wf(),
        ensures
            s@ == list_text(*self),
    {
        let mut s = String::new();
        push_str(&mut s, "项目列表:\n");
        let ghost head = s@;
        let ghost entries = list_entries(*self);
        let n = self.projects.len();
        let mut i: usize = 0;
        while i < n
            invariant
                n == self.projects@.len(),
                entries == list_entries(*self),
                i <= n,
                s@ == head + join(entries.take(i as int), "\n"@),
            decreases n - i,
        {
            let ghost before = s@;
            if i > 0 {
                push_str(&mut s, "\n");
            }
            if i == self.active_project {
                push_str(&mut s, "●");
            } else {
                push_str(&mut s, "○");
            }
            push_str(&mut s, " ");
            push_str(&mut s, self.projects[i].name.as_str());
            proof {
                let t = entries.take(i + 1);
                assert(t.drop_last() =~= entries.take(i as int));
                assert(t.last() == entries[i as int]);
                if i == 0 {
                    assert(entries.take(0) =~= Seq::<Seq<char>>::empty());
                    assert(s@ =~= head + join(t, "\n"@));
                } else {
                    assert(s@ =~= head + join(t, "\n"@));
                }
            }
            i = i + 1;
        }
        assert(entries.take(n as int) =~= entries);
        s
    }

    /// The configuration summary as `/config` shows it.
    fn config_message(&self) -> (s: String)
        ensures
            s@ == config_text(self.config),
    {
        let mut s = String::new();
        push_str(&mut s, "配置文件：~/.config/tabby/config.toml\nClaude API: ");
        if self.config.claude_api_key.is_some() {
            push_str(&mut s, "已配置");
        } else {
            push_str(&mut s, "未配置");
        }
        push_str(&mut s, "\nOpenAI API: ");
        if self.config.openai_api_key.is_some() {
            push_str(&mut s, "已配置");
        } else {
            push_str(&mut s, "未配置");
        }
        s
    }

    /// Sets the status line.
    fn set_status(&mut self, text: &str)
        ensures
            final(self).status_message@ == text@,
            final(self).projects == old(self).projects,
            same_view(*old(self), *final(self)),
            same_settings(*old(self), *final(self)),
    {
        let mut s = String::new();
        push_str(&mut s, text);
        self.status_message = s;
    }

    /// Runs the internal command `cmd` (the text after `/`).
    pub fn run_internal_command(&mut self, cmd: &str) -> (e: Effect)
        requires
            old(self).wf(),
        ensures
            final(self).wf(),
            command_done(*old(self), *final(self), cmd@, e),
    {
        let parts = split_words(cmd);
        let command = if parts.len() > 0 {
            let mut c = String::new();
            push_str(&mut c, parts[0].as_str());
            c
        } else {
            String::new()
        };
        proof {
            assert(views(parts@).len() == parts@.len());
            if parts@.len() > 0 {
                assert(views(parts@)[0] == parts@[0]@);
            }
            if parts@.len() > 1 {
                assert(views(parts@)[1] == parts@[1]@);
            }
            assert(command@ == command_word(cmd@));
        }
        let c = command.as_str();
        if same_text(c, "help") || same_text(c, "?") {
            self.show_help = true;
            Effect::Nothing
        } else if same_text(c, "clear") {
            self.set_status("对话已清空");
            let mut note = String::new();
            push_str(&mut note, "对话已清空");
            let i = self.active_project;
            let ghost before = *self;
            self.projects[i].messages = Vec::new();
            let ghost emptied = *self;
            self.post(MessageRole::System, note);
            proof {
                let q0 = emptied.projects@[i as int];
                let q = self.projects@[i as int];
                assert(q0.messages@.len() == 0);
                assert(q.messages@[q0.messages@.len() + 0int].role == MessageRole::System);
                assert(q.messages@[q0.messages@.len() + 0int].content@ == "对话已清空"@);
                assert(others_kept(before, emptied));
                assert(forall|k: int|
                    0 <= k < before.projects@.len() && k != i ==> #[trigger] self.projects@[k]
                        == emptied.projects@[k] && emptied.projects@[k] == before.projects@[k]);
                assert(cleared(*old(self), *self));
            }
            Effect::Nothing
        } else if same_text(c, "monitor") {
            self.show_monitor = !self.show_monitor;
            Effect::Nothing
        } else if same_text(c, "new") || same_text(c, "create") {
            if parts.len() > 1 {
                self.create_project(parts[1].as_str())
            } else {
                self.set_status("用法：/new <项目名>");
                Effect::Nothing
            }
        } else if same_text(c, "list") {
            self.set_status("项目列表已显示");
            let text = self.list_message();
            self.post(MessageRole::System, text);
            Effect::Nothing
        } else if same_text(c, "config") {
            self.set_status("配置信息已显示");
            let text = self.config_message();
            self.post(MessageRole::System, text);
            Effect::Nothing
        } else {
            let mut s = String::new();
            push_str(&mut s, "未知命令：/");
            push_str(&mut s, c);
            self.status_message = s;
            Effect::Nothing
        }
    }

    /// Sends `input` to the assistant: posts it and the (stand-in) reply to the
    /// shown project, marks the project active now and asks for it to be saved.
    pub fn send_to_ai(&mut self, input: &str) -> (e: Effect)
        requires
            old(self).wf(),
        ensures
            final(self).wf(),
            sent(*old(self), *final(self), input@, e),
    {
        let now = unix_time_now();
        self.send_to_ai_at(input, now)
    }

    /// Sends `input` to the assistant at time `now`: as `send_to_ai`, with both
    /// messages stamped `now` and the project marked active at `now`.
    pub fn send_to_ai_at(&mut self, input: &str, now: u64) -> (e: Effect)
        requires
            old(self).wf(),
        ensures
            final(self).wf(),
            sent(*old(self), *final(self), input@, e),
            final(self).shown().last_active == now,
            final(self).shown().messages@[old(self).shown().messages@.len() as int].timestamp
                == now,
            final(self).shown().messages@[old(self).shown().messages@.len() + 1int].timestamp == now,
    {
        let i = self.active_project;
        let ghost a = *old(self);
        let mut reply = String::new();
        push_str(&mut reply, "[");
        push_str(&mut reply, self.projects[i].name.as_str());
        push_str(&mut reply, "] 收到：");
        push_str(&mut reply, input);
        push_str(&mut reply, "\n\n这是一条模拟回复。");
        let mut asked = String::new();
        push_str(&mut asked, input);
        self.post_at(MessageRole::User, asked, now);
        let ghost m1 = *self;
        self.post_at(MessageRole::Assistant, reply, now);
        let ghost m2 = *self;
        self.set_status("回复已完成");
        let e = self.save_current_project_at(now);
        proof {
            let p = a.projects@[i as int];
            let q = self.projects@[i as int];
            let q1 = m1.projects@[i as int];
            let q2 = m2.projects@[i as int];
            assert(q.messages@ == q2.messages@);
            assert(q2.messages@.take(q1.messages@.len() as int) == q1.messages@);
            assert(q.messages@.take(p.messages@.len() as int) =~= p.messages@) by {
                assert(q2.messages@.take(p.messages@.len() as int) =~= q1.messages@.take(
                    p.messages@.len() as int,
                ));
            }
            assert(q.messages@[p.messages@.len() as int] == q1.messages@[p.messages@.len() as int]);
            assert(q.messages@[p.messages@.len() + 1int] == q2.messages@[q1.messages@.len() as int]);
            let added = seq![
                (MessageRole::User, input@),
                (MessageRole::Assistant, reply_text(p.name@, input@)),
            ];
            assert(q1.messages@[p.messages@.len() + 0int].content@ == input@);
            assert(q2.messages@[q1.messages@.len() + 0int].content@ == reply_text(p.name@, input@));
            assert forall|j: int| 0 <= j < added.len() implies (#[trigger] q.messages@[p.messages@.len() + j]).role
                == added[j].0 && q.messages@[p.messages@.len() + j].content@ == added[j].1 by {
                if j == 0 {
                } else {
                    assert(j == 1);
                }
            }
            assert(forall|k: int|
                0 <= k < a.projects@.len() && k != i ==> #[trigger] self.projects@[k]
                    == m2.projects@[k] && m2.projects@[k] == m1.projects@[k]);
            assert(q.messages@[p.messages@.len() as int] == q1.messages@.last());
            assert(q.messages@[p.messages@.len() + 1int] == q2.messages@.last());
        }
        e
    }

    /// Empties the shown project's input line and puts its cursor at 0.
    fn clear_input(&mut self)
        requires
            old(self).wf(),
        ensures
            final(self).wf(),
            input_cleared(*old(self), *final(self)),
    {
        let i = self.active_project;
        self.projects[i].input = String::new();
        self.projects[i].cursor_pos = 0;
    }

    /// Submits the shown project's input line: `!` asks for a shell command, `/`
    /// runs an internal command, anything else goes to the assistant; the input
    /// line is then cleared. An empty line does nothing.
    pub fn process_input(&mut self) -> (e: Effect)
        requires
            old(self).wf(),
        ensures
            final(self).wf(),
            input_processed(*old(self), *final(self), e),
    {
        let i = self.active_project;
        let v = chars_of(self.projects[i].input.as_str());
        if v.len() == 0 {
            return Effect::Nothing;
        }
        let ghost a = *old(self);
        if v[0] == '!' || v[0] == '/' {
            let mark = v[0];
            let n = crate::text::leading_in(&v, 0, v.len(), Pat::Exactly(mark));
            let (x, y) = trim_range(&v, n, v.len(), Pat::Space);
            let body = crate::text::string_of_range(&v, x, y);
            proof {
                assert(v@.subrange(0, v@.len() as int) =~= v@);
                assert(v@.skip(n as int) =~= v@.subrange(n as int, v@.len() as int));
            }
            if mark == '!' {
                let mut status = String::new();
                push_str(&mut status, "执行：!");
                push_str(&mut status, body.as_str());
                self.status_message = status;
                let ghost m = *self;
                self.clear_input();
                assert(status_only(a, m, "执行：!"@ + body@));
                assert(input_cleared(m, *self));
                Effect::RunShell(body)
            } else {
                let e = self.run_internal_command(body.as_str());
                let ghost m = *self;
                self.clear_input();
                assert(command_done(a, m, internal_command_of(a.shown().input@), e));
                assert(input_cleared(m, *self));
                e
            }
        } else {
            let mut input = String::new();
            push_range(&mut input, &v, 0, v.len());
            assert(Seq::<char>::empty() + v@.subrange(0, v@.len() as int) =~= v@);
            let e = self.send_to_ai(input.as_str());
            let ghost m = *self;
            self.clear_input();
            assert(sent(a, m, a.shown().input@, e));
            assert(input_cleared(m, *self));
            e
        }
    }

    /// Reports a finished shell command: posts `$ cmd` and what it printed (or the
    /// error) to the shown project and sets the status line.
    pub fn finish_shell_command(&mut self, cmd: &str, outcome: ShellOutcome)
        requires
            old(self).wf(),
        ensures
            final(self).wf(),
            shell_finished(*old(self), *final(self), cmd@, outcome),
    {
        let mut text = String::new();
        push_str(&mut text, "$ ");
        push_str(&mut text, cmd);
        match outcome {
            ShellOutcome::Completed { stdout, stderr } => {
                push_str(&mut text, "\n");
                if stdout.len() > 0 {
                    let out = lossy_text(&stdout);
                    push_str(&mut text, out.as_str());
                } else if stderr.len() > 0 {
                    let out = lossy_text(&stderr);
                    push_str(&mut text, out.as_str());
                } else {
                    push_str(&mut text, "命令执行成功（无输出）");
                }
                self.set_status("命令执行完成");
            },
            ShellOutcome::Failed(err) => {
                push_str(&mut text, "\n错误：");
                push_str(&mut text, err.as_str());
                self.set_status("命令执行失败");
            },
        }
        self.post(MessageRole::ShellOutput, text);
    }

    /// Sets the shown project's input line and cursor.
    fn set_input(&mut self, input: String, cursor: usize)
        requires
            old(self).wf(),
        ensures
            final(self).wf(),
            edited(*old(self), *final(self), input@, cursor as int),
    {
        let i = self.active_project;
        self.projects[i].input = input;
        self.projects[i].cursor_pos = cursor;
    }

    /// Answers a key press.
    pub fn handle_input(&mut self, key: Key) -> (e: Effect)
        requires
            old(self).wf(),
        ensures
            final(self).wf(),
            key_handled(*old(self), *final(self), key, e),
    {
        let n = self.projects.len();
        let i = self.active_project;
        match classify_key(&key, self.show_monitor) {
            KeyAction::CloseMonitor => {
                self.show_monitor = false;
                Effect::Nothing
            },
            KeyAction::MonitorDown => {
                if i < n - 1 {
                    self.active_project = i + 1;
                }
                Effect::Nothing
            },
            KeyAction::MonitorUp => {
                if i > 0 {
                    self.active_project = i - 1;
                }
                Effect::Nothing
            },
            KeyAction::Ignore => Effect::Nothing,
            KeyAction::Quit => {
                self.should_quit = true;
                Effect::Nothing
            },
            KeyAction::PreviousProject => {
                self.previous_project();
                Effect::Nothing
            },
            KeyAction::NextProject => {
                self.next_project();
                Effect::Nothing
            },
            KeyAction::ToggleMonitor => {
                self.show_monitor = !self.show_monitor;
                Effect::Nothing
            },
            KeyAction::Jump(j) => {
                if j < n {
                    self.active_project = j;
                }
                Effect::Nothing
            },
            KeyAction::NewProject => {
                let mut name = String::new();
                push_str(&mut name, "项目");
                push_decimal(&mut name, n as u128 + 1);
                self.create_project(name.as_str())
            },
            KeyAction::ToggleHelp => {
                self.show_help = !self.show_help;
                Effect::Nothing
            },
            KeyAction::Insert(c) => {
                let v = chars_of(self.projects[i].input.as_str());
                let (k, off) = boundary_at_or_before(&v, self.projects[i].cursor_pos);
                let mut input = string_of_range(&v, 0, k);
                push_char(&mut input, c);
                push_range(&mut input, &v, k, v.len());
                let total = utf8_len(input.as_str());
                let ghost t = v@.insert(k as int, c);
                proof {
                    assert(input@ =~= t);
                    assert(t.take(k as int) =~= v@.take(k as int));
                    lemma_byte_offset_step(t, k as int);
                    lemma_byte_offset_grows(t, k + 1, t.len() as int);
                    lemma_byte_offset_end(t);
                }
                self.set_input(input, off + utf8_width(c));
                Effect::Nothing
            },
            KeyAction::Backspace => {
                let v = chars_of(self.projects[i].input.as_str());
                let total = utf8_len(self.projects[i].input.as_str());
                let (k, _off) = boundary_at_or_before(&v, self.projects[i].cursor_pos);
                if k > 0 {
                    let mut input = string_of_range(&v, 0, k - 1);
                    push_range(&mut input, &v, k, v.len());
                    assert(input@ =~= v@.remove(k - 1));
                    let cursor = offset_of(&v, k - 1, total);
                    self.set_input(input, cursor);
                } else {
                    let input = self.projects[i].input.clone();
                    self.set_input(input, 0);
                }
                Effect::Nothing
            },
            KeyAction::Submit => self.process_input(),
            KeyAction::CursorLeft => {
                let v = chars_of(self.projects[i].input.as_str());
                let total = utf8_len(self.projects[i].input.as_str());
                let (k, _off) = boundary_at_or_before(&v, self.projects[i].cursor_pos);
                let cursor = if k > 0 {
                    offset_of(&v, k - 1, total)
                } else {
                    0
                };
                let input = self.projects[i].input.clone();
                self.set_input(input, cursor);
                Effect::Nothing
            },
            KeyAction::CursorRight => {
                let v = chars_of(self.projects[i].input.as_str());
                let total = utf8_len(self.projects[i].input.as_str());
                let (k, _off) = boundary_at_or_before(&v, self.projects[i].cursor_pos);
                let cursor = if k < v.len() {
                    offset_of(&v, k + 1, total)
                } else {
                    total
                };
                let input = self.projects[i].input.clone();
                self.set_input(input, cursor);
                Effect::Nothing
            },
        }
    }
}

} // verus!
