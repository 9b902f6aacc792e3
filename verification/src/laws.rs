//! Properties of the workbench that span several steps.
use vstd::prelude::*;

use crate::app::{
    command_done, command_word, config_text, input_cleared, internal_command_of, key_action,
    key_handled, lemma_cycle_steps, cleared, edited, list_text, next_index, numbered_name, others_kept,
    posted, previous_index, project_created, sent, shell_command_of, status_only, App, Effect,
    Key, KeyAction, KeyCode, ShellOutcome, configured, shell_finished,
};
use crate::config::ApiConfig;
use crate::project::MessageRole;
use crate::config::{config_value, line_value, lines_of};
use crate::text::{
    count_leading, count_trailing, is_ws, lemma_count_leading_concat, lemma_count_trailing_concat,
    byte_len, byte_offset, chars_within, lemma_byte_offset_end, lemma_byte_offset_grows,
    lemma_byte_offset_step, lemma_chars_within, lemma_chars_within_offset, pat_holds, trim_by,
    trim_start_by, words, Pat, decimal, digit_char, utf8_lossy,
};

verus! {

/// Tab followed by Shift+Tab, or Shift+Tab followed by Tab, shows the project
/// that was shown before.
pub proof fn law_next_previous_inverse(a: int, n: int)
    requires
        0 <= a < n,
    ensures
        0 <= next_index(a, n) < n,
        0 <= previous_index(a, n) < n,
        previous_index(next_index(a, n), n) == a,
        next_index(previous_index(a, n), n) == a,
{
    lemma_cycle_steps(a, n);
    lemma_cycle_steps(next_index(a, n), n);
    lemma_cycle_steps(previous_index(a, n), n);
}

/// The project shown after pressing Tab `k` times from `a` among `n`.
pub open spec fn after_tabs(a: int, n: int, k: nat) -> int
    decreases k,
{
    if k == 0 {
        a
    } else {
        next_index(after_tabs(a, n, (k - 1) as nat), n)
    }
}

proof fn lemma_after_tabs(a: int, n: int, k: nat)
    requires
        0 <= a < n,
    ensures
        after_tabs(a, n, k) == (a + k) % n,
    decreases k,
{
    if k == 0 {
        assert(a % n == a) by (nonlinear_arith)
            requires
                0 <= a < n,
        ;
    } else {
        lemma_after_tabs(a, n, (k - 1) as nat);
        let r = (a + k - 1) % n;
        assert(0 <= r < n) by (nonlinear_arith)
            requires
                n > 0,
                r == (a + k - 1) % n,
        ;
        lemma_cycle_steps(r, n);
        vstd::arithmetic::div_mod::lemma_add_mod_noop(a + k - 1, 1, n);
        if n == 1 {
            assert((a + k) % n == 0) by (nonlinear_arith)
                requires
                    n == 1,
            ;
        } else {
            assert(1int % n == 1) by (nonlinear_arith)
                requires
                    n > 1,
            ;
        }
    }
}

/// Project `j` is shown after fewer than `n` presses of Tab from `a`.
pub open spec fn reached_by_tabs(a: int, n: int, j: int) -> bool {
    exists|k: nat| k < n && #[trigger] after_tabs(a, n, k) == j
}

/// Pressing Tab once per open project comes back to the project shown at the
/// start, and on the way every project is shown once.
pub proof fn law_tab_cycle(a: int, n: int)
    requires
        0 <= a < n,
    ensures
        after_tabs(a, n, n as nat) == a,
        forall|j: int| 0 <= j < n ==> #[trigger] reached_by_tabs(a, n, j),
{
    lemma_after_tabs(a, n, n as nat);
    assert((a + n) % n == a) by (nonlinear_arith)
        requires
            0 <= a < n,
    ;
    assert forall|j: int| 0 <= j < n implies #[trigger] reached_by_tabs(a, n, j) by {
        let k: nat = if j >= a {
            (j - a) as nat
        } else {
            (j - a + n) as nat
        };
        lemma_after_tabs(a, n, k);
        if j >= a {
            assert((a + (j - a)) % n == j) by (nonlinear_arith)
                requires
                    0 <= j < n,
            ;
        } else {
            assert((a + (j - a + n)) % n == j) by (nonlinear_arith)
                requires
                    0 <= j < n,
            ;
        }
        assert(after_tabs(a, n, k) == j);
    }
}

/// Typing a character and then pressing Backspace gives back the input line and,
/// for a cursor on a character boundary, the cursor as they were.
pub proof fn law_type_then_backspace(
    a: App,
    typed: Key,
    b: App,
    e1: Effect,
    back: Key,
    d: App,
    e2: Effect,
)
    requires
        a.wf(),
        a.shown().cursor_pos == byte_offset(
            a.shown().input@,
            chars_within(a.shown().input@, a.shown().cursor_pos as int) as int,
        ),
        key_action(typed, a.show_monitor) is Insert,
        key_handled(a, b, typed, e1),
        key_action(back, b.show_monitor) is Backspace,
        key_handled(b, d, back, e2),
    ensures
        d.active_project == a.active_project,
        d.shown().input@ == a.shown().input@,
        d.shown().cursor_pos == a.shown().cursor_pos,
{
    let c = key_action(typed, a.show_monitor)->Insert_0;
    let s = a.shown().input@;
    let cur = a.shown().cursor_pos as int;
    lemma_chars_within(s, cur);
    let k = chars_within(s, cur) as int;
    let t = s.insert(k, c);
    assert(t.take(k) =~= s.take(k));
    lemma_byte_offset_step(t, k);
    lemma_chars_within_offset(t, k + 1);
    assert(t.remove(k) =~= s);
}

/// Whatever key is pressed, every project other than the shown one keeps its
/// place and its content: projects are isolated from each other.
pub proof fn law_projects_isolated(a: App, b: App, key: Key, e: Effect)
    requires
        a.wf(),
        key_handled(a, b, key, e),
    ensures
        a.projects@.len() <= b.projects@.len(),
        forall|i: int|
            0 <= i < a.projects@.len() && i != a.active_project ==> #[trigger] b.projects@[i]
                == a.projects@[i],
{
    let input = a.shown().input@;
    match key_action(key, a.show_monitor) {
        KeyAction::NewProject => {
            assert forall|i: int|
                0 <= i < a.projects@.len() && i != a.active_project implies #[trigger] b.projects@[i]
                == a.projects@[i] by {
                assert(b.projects@.take(a.projects@.len() as int)[i] == b.projects@[i]);
            }
        },
        KeyAction::Submit => {
            if input.len() == 0 {
            } else if input[0] == '!' {
                let m = choose|m: App|
                    #![trigger crate::app::input_cleared(m, b)]
                    crate::app::status_only(a, m, "执行：!"@ + crate::app::shell_command_of(input))
                        && crate::app::input_cleared(m, b);
            } else if input[0] == '/' {
                let cmd = crate::app::internal_command_of(input);
                let m = choose|m: App|
                    #![trigger crate::app::command_done(a, m, cmd, e)]
                    crate::app::command_done(a, m, cmd, e) && crate::app::input_cleared(m, b);
                assert forall|i: int|
                    0 <= i < a.projects@.len() && i != a.active_project implies #[trigger] b.projects@[i]
                    == a.projects@[i] by {
                    assert(m.projects@[i] == a.projects@[i]) by {
                        if m.projects@.len() > a.projects@.len() {
                            assert(m.projects@.take(a.projects@.len() as int)[i] == m.projects@[i]);
                        }
                    }
                    if m.projects@.len() > a.projects@.len() {
                        assert(i != m.active_project);
                    }
                }
            } else {
                let m = choose|m: App|
                    #![trigger crate::app::sent(a, m, input, e)]
                    crate::app::sent(a, m, input, e) && crate::app::input_cleared(m, b);
            }
        },
        _ => {},
    }
}


/// A config line `key = "value"` is read back as `value`, for a key without `=`
/// and line breaks and a non-empty value without line breaks that neither
/// begins nor ends with white space or a double quote.
pub proof fn law_config_line_read_back(key: Seq<char>, value: Seq<char>)
    requires
        forall|i: int| 0 <= i < key.len() ==> #[trigger] key[i] != '=' && key[i] != '\n',
        forall|i: int| 0 <= i < value.len() ==> #[trigger] value[i] != '\n',
        value.len() > 0,
        !is_ws(value[0]) && value[0] != '"',
        !is_ws(value.last()) && value.last() != '"',
    ensures
        config_value(key + " = \""@ + value + "\""@, key) == Some(value),
{
    reveal_strlit(" = \"");
    reveal_strlit("\"");
    let q1 = " = \""@;
    let q2 = "\""@;
    let c = key + q1 + value + q2;
    assert(q1 =~= seq![' ', '=', ' ', '"']);
    assert(q2 =~= seq!['"']);
    // the content is one line
    assert forall|i: int| 0 <= i < c.len() implies pat_holds(Pat::AnyBut('\n'), #[trigger] c[i]) by {
        if i < key.len() {
            assert(c[i] == key[i]);
        } else if i < key.len() + 4 {
            assert(c[i] == q1[i - key.len()]);
        } else if i < key.len() + 4 + value.len() {
            assert(c[i] == value[i - key.len() - 4]);
        } else {
            assert(c[i] == '"');
        }
    }
    lemma_count_leading_concat(c, Seq::<char>::empty(), Pat::AnyBut('\n'));
    assert(c + Seq::<char>::empty() =~= c);
    assert(lines_of(c) =~= seq![c]);
    // it starts with the key, and its first '=' follows the key and a space
    assert(c.take(key.len() as int) =~= key);
    let rest = q1 + value + q2;
    assert(c =~= key + rest);
    assert forall|i: int| 0 <= i < key.len() implies pat_holds(Pat::AnyBut('='), #[trigger] key[i]) by {}
    lemma_count_leading_concat(key, rest, Pat::AnyBut('='));
    assert(rest[0] == ' ' && rest[1] == '=');
    assert(rest.drop_first()[0] == '=');
    assert(rest.drop_first().len() > 0);
    assert(!pat_holds(Pat::AnyBut('='), rest.drop_first()[0]));
    assert(count_leading(rest.drop_first(), Pat::AnyBut('=')) == 0);
    assert(pat_holds(Pat::AnyBut('='), rest[0]));
    assert(count_leading(rest, Pat::AnyBut('=')) == 1);
    let e = key.len() + 1;
    let after = c.skip(e + 1int);
    assert(after =~= seq![' ', '"'] + value + q2);
    // white space: one space in front, none at the end
    let quoted = seq!['"'] + value + q2;
    assert(after =~= seq![' '] + quoted);
    lemma_count_leading_concat(seq![' '], quoted, Pat::Space);
    assert(quoted[0] == '"');
    assert(count_leading(quoted, Pat::Space) == 0);
    assert(trim_start_by(after, Pat::Space) =~= quoted);
    assert(quoted.last() == '"');
    assert(count_trailing(quoted, Pat::Space) == 0);
    assert(trim_by(after, Pat::Space) =~= quoted);
    // quotes: one at each end
    let inner = value + q2;
    assert(quoted =~= seq!['"'] + inner);
    lemma_count_leading_concat(seq!['"'], inner, Pat::Exactly('"'));
    assert(inner[0] == value[0]);
    assert(count_leading(inner, Pat::Exactly('"')) == 0);
    assert(trim_start_by(quoted, Pat::Exactly('"')) =~= inner);
    lemma_count_trailing_concat(value, q2, Pat::Exactly('"'));
    assert(value.last() == value[value.len() - 1]);
    assert(count_trailing(value, Pat::Exactly('"')) == 0);
    assert(trim_by(quoted, Pat::Exactly('"')) =~= value);
    assert(line_value(c, key) == Some(value));
}


/// Every project of `a` is in `b` at its place, with its conversation so far
/// kept as the start of its conversation in `b`.
pub open spec fn history_kept(a: App, b: App) -> bool {
    &&& a.projects@.len() <= b.projects@.len()
    &&& forall|i: int|
        0 <= i < a.projects@.len() ==> a.projects@[i].messages@.len() <= (
        #[trigger] b.projects@[i]).messages@.len() && b.projects@[i].messages@.take(
            a.projects@[i].messages@.len() as int,
        ) == a.projects@[i].messages@
}

proof fn lemma_kept_same_projects(a: App, b: App)
    requires
        b.projects@ == a.projects@,
    ensures
        history_kept(a, b),
{
    assert forall|i: int| 0 <= i < a.projects@.len() implies a.projects@[i].messages@.len() <= (
        #[trigger] b.projects@[i]).messages@.len() && b.projects@[i].messages@.take(
        a.projects@[i].messages@.len() as int,
    ) == a.projects@[i].messages@ by {
        assert(a.projects@[i].messages@.take(a.projects@[i].messages@.len() as int)
            =~= a.projects@[i].messages@);
    }
}

/// Only the shown project changed, and its conversation grew by `added` or
/// stayed (`added` empty).
proof fn lemma_kept_active_grew(a: App, b: App)
    requires
        a.wf(),
        others_kept(a, b),
        a.projects@[a.active_project as int].messages@.len() <= b.projects@[
            a.active_project as int].messages@.len(),
        b.projects@[a.active_project as int].messages@.take(
            a.projects@[a.active_project as int].messages@.len() as int,
        ) == a.projects@[a.active_project as int].messages@,
    ensures
        history_kept(a, b),
{
    assert forall|i: int| 0 <= i < a.projects@.len() implies a.projects@[i].messages@.len() <= (
        #[trigger] b.projects@[i]).messages@.len() && b.projects@[i].messages@.take(
        a.projects@[i].messages@.len() as int,
    ) == a.projects@[i].messages@ by {
        if i != a.active_project {
            assert(b.projects@[i] == a.projects@[i]);
            assert(a.projects@[i].messages@.take(a.projects@[i].messages@.len() as int)
                =~= a.projects@[i].messages@);
        }
    }
}

proof fn lemma_kept_posted(a: App, b: App, added: Seq<(MessageRole, Seq<char>)>)
    requires
        a.wf(),
        posted(a, b, added),
    ensures
        history_kept(a, b),
{
    lemma_kept_active_grew(a, b);
}

proof fn lemma_kept_messages_same(a: App, b: App)
    requires
        a.wf(),
        others_kept(a, b),
        b.projects@[a.active_project as int].messages == a.projects@[a.active_project as int].messages,
    ensures
        history_kept(a, b),
{
    let ms = a.projects@[a.active_project as int].messages@;
    assert(ms.take(ms.len() as int) =~= ms);
    lemma_kept_active_grew(a, b);
}

proof fn lemma_kept_created(a: App, b: App, name: Seq<char>)
    requires
        project_created(a, b, name),
    ensures
        history_kept(a, b),
{
    assert forall|i: int| 0 <= i < a.projects@.len() implies a.projects@[i].messages@.len() <= (
        #[trigger] b.projects@[i]).messages@.len() && b.projects@[i].messages@.take(
        a.projects@[i].messages@.len() as int,
    ) == a.projects@[i].messages@ by {
        assert(b.projects@.take(a.projects@.len() as int)[i] == b.projects@[i]);
        assert(a.projects@[i].messages@.take(a.projects@[i].messages@.len() as int)
            =~= a.projects@[i].messages@);
    }
}

proof fn lemma_kept_trans(a: App, m: App, b: App)
    requires
        history_kept(a, m),
        history_kept(m, b),
    ensures
        history_kept(a, b),
{
    assert forall|i: int| 0 <= i < a.projects@.len() implies a.projects@[i].messages@.len() <= (
        #[trigger] b.projects@[i]).messages@.len() && b.projects@[i].messages@.take(
        a.projects@[i].messages@.len() as int,
    ) == a.projects@[i].messages@ by {
        let x = a.projects@[i].messages@;
        let y = m.projects@[i].messages@;
        let z = b.projects@[i].messages@;
        assert(y.take(x.len() as int) == x);
        assert(z.take(y.len() as int) == y);
        assert(z.take(x.len() as int) =~= y.take(x.len() as int));
    }
}

proof fn lemma_kept_command(a: App, b: App, cmd: Seq<char>, e: Effect)
    requires
        a.wf(),
        command_done(a, b, cmd, e),
        command_word(cmd) != "clear"@,
    ensures
        history_kept(a, b),
{
    let w = command_word(cmd);
    if w == "help"@ || w == "?"@ {
        lemma_kept_same_projects(a, b);
    } else if w == "monitor"@ {
        lemma_kept_same_projects(a, b);
    } else if w == "new"@ || w == "create"@ {
        if words(cmd).len() > 1 {
            lemma_kept_created(a, b, words(cmd)[1]);
        } else {
            lemma_kept_same_projects(a, b);
        }
    } else if w == "list"@ {
        lemma_kept_posted(a, b, seq![(MessageRole::System, list_text(a))]);
    } else if w == "config"@ {
        lemma_kept_posted(a, b, seq![(MessageRole::System, config_text(a.config))]);
    } else {
        lemma_kept_same_projects(a, b);
    }
}

/// The key press submits a `/clear` command.
pub open spec fn submits_clear(a: App, key: Key) -> bool {
    let input = a.shown().input@;
    &&& key_action(key, a.show_monitor) is Submit
    &&& input.len() > 0
    &&& input[0] == '/'
    &&& command_word(internal_command_of(input)) == "clear"@
}

/// No key press but one that submits `/clear` takes anything out of a
/// conversation: every project stays, and what it held is kept as the start of
/// what it holds afterwards.
pub proof fn law_history_kept(a: App, b: App, key: Key, e: Effect)
    requires
        a.wf(),
        key_handled(a, b, key, e),
        !submits_clear(a, key),
    ensures
        history_kept(a, b),
{
    let n = a.projects@.len();
    let input = a.shown().input@;
    match key_action(key, a.show_monitor) {
        KeyAction::NewProject => lemma_kept_created(a, b, numbered_name(n)),
        KeyAction::Insert(_) => lemma_kept_messages_same(a, b),
        KeyAction::Backspace => lemma_kept_messages_same(a, b),
        KeyAction::CursorLeft => lemma_kept_messages_same(a, b),
        KeyAction::CursorRight => lemma_kept_messages_same(a, b),
        KeyAction::Submit => {
            if input.len() == 0 {
                lemma_kept_same_projects(a, b);
            } else if input[0] == '!' {
                let m = choose|m: App|
                    #![trigger input_cleared(m, b)]
                    status_only(a, m, "执行：!"@ + shell_command_of(input)) && input_cleared(m, b);
                lemma_kept_same_projects(a, m);
                lemma_kept_messages_same(m, b);
                lemma_kept_trans(a, m, b);
            } else if input[0] == '/' {
                let cmd = internal_command_of(input);
                let m = choose|m: App|
                    #![trigger command_done(a, m, cmd, e)]
                    command_done(a, m, cmd, e) && input_cleared(m, b);
                lemma_kept_command(a, m, cmd, e);
                assert(m.wf()) by {
                    let w = command_word(cmd);
                    if (w == "new"@ || w == "create"@) && words(cmd).len() > 1 {
                    }
                }
                lemma_kept_messages_same(m, b);
                lemma_kept_trans(a, m, b);
            } else {
                let m = choose|m: App| #![trigger sent(a, m, input, e)] sent(a, m, input, e) && input_cleared(m, b);
                lemma_kept_active_grew(a, m);
                lemma_kept_messages_same(m, b);
                lemma_kept_trans(a, m, b);
            }
        },
        _ => lemma_kept_same_projects(a, b),
    }
}

/// Every project's cursor lies within its input line.
pub open spec fn cursors_within(a: App) -> bool {
    forall|i: int|
        0 <= i < a.projects@.len() ==> (#[trigger] a.projects@[i]).cursor_pos <= byte_len(
            a.projects@[i].input@,
        )
}

/// Every project of `a` is in `b` at its place, under its name.
pub open spec fn names_kept(a: App, b: App) -> bool {
    &&& a.projects@.len() <= b.projects@.len()
    &&& forall|i: int| 0 <= i < a.projects@.len() ==> (#[trigger] b.projects@[i]).name == a.projects@[i].name
}

proof fn lemma_sound_same(a: App, b: App)
    requires
        b.projects@ == a.projects@,
        cursors_within(a),
    ensures
        cursors_within(b),
        names_kept(a, b),
{
}

/// Only the shown project changed, keeping its name and a cursor within its line.
proof fn lemma_sound_active(a: App, b: App)
    requires
        a.wf(),
        cursors_within(a),
        others_kept(a, b),
        b.projects@[a.active_project as int].name == a.projects@[a.active_project as int].name,
        b.projects@[a.active_project as int].cursor_pos <= byte_len(
            b.projects@[a.active_project as int].input@,
        ),
    ensures
        cursors_within(b),
        names_kept(a, b),
{
    assert forall|i: int| 0 <= i < b.projects@.len() implies (#[trigger] b.projects@[i]).cursor_pos
        <= byte_len(b.projects@[i].input@) by {
        if i != a.active_project {
            assert(b.projects@[i] == a.projects@[i]);
        }
    }
    assert forall|i: int| 0 <= i < a.projects@.len() implies (#[trigger] b.projects@[i]).name
        == a.projects@[i].name by {
        if i != a.active_project {
            assert(b.projects@[i] == a.projects@[i]);
        }
    }
}

proof fn lemma_sound_created(a: App, b: App, name: Seq<char>)
    requires
        cursors_within(a),
        project_created(a, b, name),
    ensures
        cursors_within(b),
        names_kept(a, b),
{
    assert forall|i: int| 0 <= i < b.projects@.len() implies (#[trigger] b.projects@[i]).cursor_pos
        <= byte_len(b.projects@[i].input@) by {
        if i < a.projects@.len() {
            assert(b.projects@.take(a.projects@.len() as int)[i] == b.projects@[i]);
        }
    }
    assert forall|i: int| 0 <= i < a.projects@.len() implies (#[trigger] b.projects@[i]).name
        == a.projects@[i].name by {
        assert(b.projects@.take(a.projects@.len() as int)[i] == b.projects@[i]);
    }
}

proof fn lemma_sound_trans(a: App, m: App, b: App)
    requires
        names_kept(a, m),
        names_kept(m, b),
    ensures
        names_kept(a, b),
{
    assert forall|i: int| 0 <= i < a.projects@.len() implies (#[trigger] b.projects@[i]).name
        == a.projects@[i].name by {
        assert(m.projects@[i].name == a.projects@[i].name);
    }
}

proof fn lemma_sound_command(a: App, b: App, cmd: Seq<char>, e: Effect)
    requires
        a.wf(),
        cursors_within(a),
        command_done(a, b, cmd, e),
    ensures
        cursors_within(b),
        names_kept(a, b),
        b.wf(),
{
    let w = command_word(cmd);
    if w == "help"@ || w == "?"@ {
        lemma_sound_same(a, b);
    } else if w == "clear"@ {
        lemma_sound_active(a, b);
    } else if w == "monitor"@ {
        lemma_sound_same(a, b);
    } else if w == "new"@ || w == "create"@ {
        if words(cmd).len() > 1 {
            lemma_sound_created(a, b, words(cmd)[1]);
        } else {
            lemma_sound_same(a, b);
        }
    } else if w == "list"@ || w == "config"@ {
        lemma_sound_active(a, b);
    } else {
        lemma_sound_same(a, b);
    }
}

/// Whatever key is pressed, the workbench keeps its projects under their names,
/// and every cursor that lay within its input line still does.
pub proof fn law_cursors_within(a: App, b: App, key: Key, e: Effect)
    requires
        a.wf(),
        cursors_within(a),
        key_handled(a, b, key, e),
    ensures
        cursors_within(b),
        names_kept(a, b),
{
    let n = a.projects@.len();
    let s = a.shown().input@;
    let cur = a.shown().cursor_pos as int;
    let k = chars_within(s, cur) as int;
    lemma_chars_within(s, cur);
    lemma_byte_offset_end(s);
    match key_action(key, a.show_monitor) {
        KeyAction::NewProject => lemma_sound_created(a, b, numbered_name(n)),
        KeyAction::Insert(c) => {
            let t = s.insert(k, c);
            assert(t.take(k) =~= s.take(k));
            lemma_byte_offset_step(t, k);
            lemma_byte_offset_grows(t, k + 1, t.len() as int);
            lemma_byte_offset_end(t);
            lemma_sound_active(a, b);
        },
        KeyAction::Backspace => {
            if k > 0 {
                let t = s.remove(k - 1);
                assert(t.take(k - 1) =~= s.take(k - 1));
                lemma_byte_offset_grows(t, k - 1, t.len() as int);
                lemma_byte_offset_end(t);
            }
            lemma_sound_active(a, b);
        },
        KeyAction::CursorLeft => {
            if k > 0 {
                lemma_byte_offset_grows(s, k - 1, s.len() as int);
            }
            lemma_sound_active(a, b);
        },
        KeyAction::CursorRight => {
            if k < s.len() {
                lemma_byte_offset_grows(s, k + 1, s.len() as int);
            }
            lemma_sound_active(a, b);
        },
        KeyAction::Submit => {
            if s.len() == 0 {
                lemma_sound_same(a, b);
            } else if s[0] == '!' {
                let m = choose|m: App|
                    #![trigger input_cleared(m, b)]
                    status_only(a, m, "执行：!"@ + shell_command_of(s)) && input_cleared(m, b);
                lemma_sound_same(a, m);
                lemma_sound_active(m, b);
                lemma_sound_trans(a, m, b);
            } else if s[0] == '/' {
                let cmd = internal_command_of(s);
                let m = choose|m: App|
                    #![trigger command_done(a, m, cmd, e)]
                    command_done(a, m, cmd, e) && input_cleared(m, b);
                lemma_sound_command(a, m, cmd, e);
                lemma_sound_active(m, b);
                lemma_sound_trans(a, m, b);
            } else {
                let m = choose|m: App| #![trigger sent(a, m, s, e)] sent(a, m, s, e) && input_cleared(m, b);
                lemma_sound_active(a, m);
                lemma_sound_active(m, b);
                lemma_sound_trans(a, m, b);
            }
        },
        _ => lemma_sound_same(a, b),
    }
}

/// `s` ends with `t`.
pub open spec fn ends_with(s: Seq<char>, t: Seq<char>) -> bool {
    t.len() <= s.len() && s.skip(s.len() - t.len()) == t
}

/// A finished shell command posts one message: the command, then its standard
/// output whenever it printed any, whatever its error output holds; its error
/// output only where it printed nothing on standard output; and where it printed
/// nothing at all, a note saying so.
pub proof fn law_shell_output_shown(
    a: App,
    b: App,
    cmd: Seq<char>,
    stdout: Vec<u8>,
    stderr: Vec<u8>,
)
    requires
        a.wf(),
        shell_finished(a, b, cmd, ShellOutcome::Completed { stdout, stderr }),
    ensures
        b.active_project == a.active_project,
        b.shown().messages@.len() == a.shown().messages@.len() + 1,
        b.shown().messages@.last().role == MessageRole::ShellOutput,
        stdout@.len() > 0 ==> b.shown().messages@.last().content@ == "$ "@ + cmd + "\n"@
            + utf8_lossy(stdout@),
        stdout@.len() == 0 && stderr@.len() > 0 ==> b.shown().messages@.last().content@ == "$ "@
            + cmd + "\n"@ + utf8_lossy(stderr@),
        stdout@.len() == 0 && stderr@.len() == 0 ==> b.shown().messages@.last().content@ == "$ "@
            + cmd + "\n"@ + "命令执行成功（无输出）"@,
{
    let old_ms = a.shown().messages@;
    let new_ms = b.shown().messages@;
    assert(new_ms[old_ms.len() + 0int] == new_ms.last());
}

/// The `/config` message tells by its last line whether the second key is set,
/// and by the line before it whether the first key is set; it depends on
/// nothing else of the configuration.
pub proof fn law_config_reports_keys(c: ApiConfig, d: ApiConfig)
    ensures
        ends_with(config_text(c), "\nOpenAI API: "@ + "已配置"@) <==> c.openai_api_key is Some,
        ends_with(config_text(c), "\nOpenAI API: "@ + "未配置"@) <==> c.openai_api_key is None,
        config_text(c).take(
            ("配置文件：~/.config/tabby/config.toml\nClaude API: "@ + "已配置"@).len() as int,
        ) == "配置文件：~/.config/tabby/config.toml\nClaude API: "@ + "已配置"@ <==> c.claude_api_key
            is Some,
        (c.claude_api_key is Some) == (d.claude_api_key is Some) && (c.openai_api_key is Some) == (
        d.openai_api_key is Some) ==> config_text(c) == config_text(d),
{
    reveal_strlit("已配置");
    reveal_strlit("未配置");
    let yes = "已配置"@;
    let no = "未配置"@;
    assert(yes[0] != no[0]);
    let head = "配置文件：~/.config/tabby/config.toml\nClaude API: "@;
    let mid = "\nOpenAI API: "@;
    let t = config_text(c);
    let cl = configured(c.claude_api_key is Some);
    let op = configured(c.openai_api_key is Some);
    assert(t =~= head + cl + mid + op);
    assert(cl.len() == 3 && op.len() == 3);
    assert(t.skip(t.len() - (mid + op).len()) =~= mid + op);
    if c.openai_api_key is None {
        assert((mid + op)[mid.len() as int] != (mid + yes)[mid.len() as int]);
    } else {
        assert((mid + op)[mid.len() as int] != (mid + no)[mid.len() as int]);
    }
    assert(t.take((head + yes).len() as int) =~= head + cl);
    if c.claude_api_key is None {
        assert((head + cl)[head.len() as int] != (head + yes)[head.len() as int]);
    }
}

/// With the monitor panel open, `q`, Esc and Enter close it and change nothing
/// else; no key in the panel touches a project or quits.
pub proof fn law_monitor_keys(a: App, b: App, key: Key, e: Effect)
    requires
        a.wf(),
        a.show_monitor,
        key_handled(a, b, key, e),
    ensures
        e is Nothing,
        b.projects == a.projects,
        b.should_quit == a.should_quit,
        b.status_message == a.status_message,
        key.code == KeyCode::Esc || key.code == KeyCode::Char('q') || key.code == KeyCode::Enter
            ==> !b.show_monitor && b.active_project == a.active_project,
        key.code == KeyCode::Down || key.code == KeyCode::Char('j') ==> b.show_monitor
            && b.active_project == if a.active_project + 1 < a.projects@.len() {
            a.active_project + 1
        } else {
            a.active_project as int
        },
        key.code == KeyCode::Up || key.code == KeyCode::Char('k') ==> b.show_monitor
            && b.active_project == if a.active_project > 0 {
            a.active_project - 1
        } else {
            a.active_project as int
        },
{
    broadcast use vstd::std_specs::vec::axiom_spec_len;

    assert(a.projects.len() == a.projects@.len());
}

/// The value of a run of decimal digits.
pub open spec fn decimal_value(s: Seq<char>) -> int
    decreases s.len(),
{
    if s.len() == 0 {
        0
    } else {
        10 * decimal_value(s.drop_last()) + ((s.last() as int) - ('0' as int))
    }
}

/// Every character of `s` is a decimal digit.
pub open spec fn all_digits(s: Seq<char>) -> bool {
    forall|i: int| 0 <= i < s.len() ==> '0' <= #[trigger] s[i] <= '9'
}

proof fn lemma_decimal_value(m: nat)
    ensures
        decimal(m).len() > 0,
        all_digits(decimal(m)),
        decimal_value(decimal(m)) == m,
        m > 0 ==> decimal(m)[0] != '0',
    decreases m,
{
    if m < 10 {
        assert(decimal(m) =~= seq![digit_char(m)]);
        assert(decimal(m).drop_last() =~= Seq::<char>::empty());
        assert((digit_char(m) as int) - ('0' as int) == m) by {
            if m == 0 {
            } else if m == 1 {
            } else if m == 2 {
            } else if m == 3 {
            } else if m == 4 {
            } else if m == 5 {
            } else if m == 6 {
            } else if m == 7 {
            } else if m == 8 {
            } else {
                assert(m == 9);
            }
        }
        assert(decimal(m).last() == digit_char(m));
        assert(decimal_value(Seq::<char>::empty()) == 0);
        assert(decimal_value(decimal(m)) == 10 * decimal_value(decimal(m).drop_last()) + ((
        decimal(m).last() as int) - ('0' as int)));
    } else {
        lemma_decimal_value(m / 10);
        let d = decimal(m);
        assert(d.drop_last() =~= decimal(m / 10));
        assert(d.last() == digit_char(m % 10));
        assert(m == 10 * (m / 10) + m % 10);
        let r = m % 10;
        assert((digit_char(r) as int) - ('0' as int) == r) by {
            if r == 0 {
            } else if r == 1 {
            } else if r == 2 {
            } else if r == 3 {
            } else if r == 4 {
            } else if r == 5 {
            } else if r == 6 {
            } else if r == 7 {
            } else if r == 8 {
            } else {
                assert(r == 9);
            }
        }
        assert(decimal_value(d) == 10 * decimal_value(d.drop_last()) + ((d.last() as int) - (
        '0' as int)));
        assert(d[0] == decimal(m / 10)[0]);
        assert forall|i: int| 0 <= i < d.len() implies '0' <= #[trigger] d[i] <= '9' by {
            if i < d.len() - 1 {
                assert(d[i] == decimal(m / 10)[i]);
            }
        }
    }
}

/// Ctrl+n names the project it makes `项目` followed by the number of projects
/// there are then, in decimal without leading zeros.
pub proof fn law_ctrl_n_numbers(a: App, b: App, key: Key, e: Effect)
    requires
        a.wf(),
        !a.show_monitor,
        key.code == KeyCode::Char('n'),
        key.control,
        key_handled(a, b, key, e),
    ensures
        b.projects@.len() == a.projects@.len() + 1,
        b.active_project == a.projects@.len(),
        ({
            let name = b.projects@.last().name@;
            &&& name.take(2) == "项目"@
            &&& all_digits(name.skip(2))
            &&& decimal_value(name.skip(2)) == b.projects@.len()
            &&& name.skip(2)[0] != '0'
        }),
{
    reveal_strlit("项目");
    let n = a.projects@.len();
    lemma_decimal_value(n + 1);
    let name = b.projects@.last().name@;
    assert(name == "项目"@ + decimal(n + 1));
    assert(name.take(2) =~= "项目"@);
    assert(name.skip(2) =~= decimal(n + 1));
}

} // verus!
