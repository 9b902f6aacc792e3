//! Messages and projects: each project is one conversation with its own history.
use vstd::prelude::*;

use crate::clock::unix_time_now;
use crate::text::{chars_of, push_str};

verus! {

/// Who a message comes from.
#[derive(Clone, Copy, Debug, PartialEq, Eq, Structural)]
pub enum MessageRole {
    User,
    Assistant,
    System,
    ShellOutput,
}

/// One entry of a project's conversation.
pub struct Message {
    pub role: MessageRole,
    pub content: String,
    /// Seconds since the Unix epoch when the message was made.
    pub timestamp: u64,
}

impl Message {
    /// A message with the given role and content, stamped with the current time.
    pub fn new(role: MessageRole, content: String) -> (m: Message)
        ensures
            m.role == role,
            m.content == content,
    {
        Message::stamped(role, content, unix_time_now())
    }

    /// A message with the given role and content, stamped `timestamp`.
    pub fn stamped(role: MessageRole, content: String, timestamp: u64) -> (m: Message)
        ensures
            m.role == role,
            m.content == content,
            m.timestamp == timestamp,
    {
        Message { role, content, timestamp }
    }
}

/// The life-cycle state of a project.
#[derive(Clone, Copy, Debug, PartialEq, Eq, Structural)]
pub enum ProjectStatus {
    Active,
    Paused,
    Archived,
}

/// What happened on one day.
pub struct DailySummary {
    pub date: String,
    pub events: Vec<String>,
}

/// A to-do item.
pub struct Todo {
    pub content: String,
    pub done: bool,
}

/// A project: a named conversation with its own history and its own input line.
pub struct Project {
    pub name: String,
    pub status: ProjectStatus,
    pub created_at: u64,
    pub last_active: u64,
    pub messages: Vec<Message>,
    pub todos: Vec<Todo>,
    pub daily_summaries: Vec<DailySummary>,
    /// The text being typed.
    pub input: String,
    /// The cursor in `input`, as a byte offset.
    pub cursor_pos: usize,
}

/// The note a new project opens with.
pub open spec fn created_note(name: Seq<char>) -> Seq<char> {
    "项目「"@ + name + "」已创建"@
}

/// `p` is a project just made under `name`: active, created and last active at
/// one moment, with the creation note as its one (system) message, nothing to do,
/// no summaries and an empty input line.
pub open spec fn fresh_project(p: Project, name: Seq<char>) -> bool {
    &&& p.name@ == name
    &&& p.status == ProjectStatus::Active
    &&& p.created_at == p.last_active
    &&& p.messages@.len() == 1
    &&& p.messages@[0].role == MessageRole::System
    &&& p.messages@[0].content@ == created_note(name)
    &&& p.todos@.len() == 0
    &&& p.daily_summaries@.len() == 0
    &&& p.input@.len() == 0
    &&& p.cursor_pos == 0
}

impl Project {
    /// A new project named `name`, made now.
    pub fn new(name: &str) -> (p: Project)
        ensures
            fresh_project(p, name@),
    {
        Project::new_at(name, unix_time_now())
    }

    /// A new project named `name`, made at time `now`: created and last active
    /// then, its note stamped then.
    pub fn new_at(name: &str, now: u64) -> (p: Project)
        ensures
            fresh_project(p, name@),
            p.created_at == now,
            p.last_active == now,
            p.messages@[0].timestamp == now,
    {
        let mut note = String::new();
        push_str(&mut note, "项目「");
        push_str(&mut note, name);
        push_str(&mut note, "」已创建");
        let mut name_owned = String::new();
        push_str(&mut name_owned, name);
        let mut messages: Vec<Message> = Vec::new();
        messages.push(Message::stamped(MessageRole::System, note, now));
        Project {
            name: name_owned,
            status: ProjectStatus::Active,
            created_at: now,
            last_active: now,
            messages,
            todos: Vec::new(),
            daily_summaries: Vec::new(),
            input: String::new(),
            cursor_pos: 0,
        }
    }
}

/// `name` can be a directory name of its own under the projects directory: it is
/// not empty, not `.` or `..`, and holds no path separator and no NUL.
pub open spec fn safe_dir_name(name: Seq<char>) -> bool {
    &&& name.len() > 0
    &&& name != seq!['.']
    &&& name != seq!['.', '.']
    &&& forall|i: int| 0 <= i < name.len() ==> #[trigger] name[i] != '/' && name[i] != '\\' && name[i] != '\0'
}

/// Whether a project named `name` can be saved in a directory of that name
/// without leaving the projects directory.
pub fn is_safe_dir_name(name: &str) -> (b: bool)
    ensures
        b == safe_dir_name(name@),
{
    let v = chars_of(name);
    if v.len() == 0 {
        return false;
    }
    if v.len() == 1 && v[0] == '.' {
        assert(name@ =~= seq!['.']);
        return false;
    }
    if v.len() == 2 && v[0] == '.' && v[1] == '.' {
        assert(name@ =~= seq!['.', '.']);
        return false;
    }
    proof {
        if v@.len() == 1 {
            assert(v@ != seq!['.', '.']);
            assert(v@ != seq!['.']) by { assert(v@[0] != '.'); }
        } else if v@.len() == 2 {
            assert(v@ != seq!['.']);
            assert(v@ != seq!['.', '.']) by {
                if v@ == seq!['.', '.'] { assert(v@[0] == '.' && v@[1] == '.'); }
            }
        } else {
            assert(v@ != seq!['.']);
            assert(v@ != seq!['.', '.']);
        }
    }
    let mut i: usize = 0;
    while i < v.len()
        invariant
            v@ == name@,
            i <= v@.len(),
            forall|j: int| 0 <= j < i ==> #[trigger] v@[j] != '/' && v@[j] != '\\' && v@[j] != '\0',
        decreases v@.len() - i,
    {
        let c = v[i];
        if c == '/' || c == '\\' || c == '\0' {
            return false;
        }
        i = i + 1;
    }
    true
}

} // verus!
