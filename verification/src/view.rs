//! What the screen shows: the texts of the tabs, the conversation, the input
//! line, the status bar and the monitor panel, and where the panels go.
use ratatui::layout::{Constraint, Direction, Layout};
use vstd::prelude::*;

use crate::app::{list_entries, marker, App};
use crate::clock::unix_time_now;
use crate::project::{DailySummary, MessageRole, Project, ProjectStatus};
use crate::text::{
    boundary_at_or_before, byte_len, byte_offset, chars_of, chars_within, join, lemma_views_push,
    push_range, push_str, string_of_range, utf8_len, views,
};

verus! {

/// A rectangle of terminal cells.
#[derive(Clone, Copy, Debug, PartialEq, Eq, Structural)]
pub struct Rect {
    pub x: u16,
    pub y: u16,
    pub width: u16,
    pub height: u16,
}

/// `r` lies inside `area`: stacked in it top to bottom (`vertical`), it spans
/// the area's full width; side by side, its full height.
pub open spec fn inside_along(r: Rect, area: Rect, vertical: bool) -> bool {
    if vertical {
        &&& r.x == area.x
        &&& r.width == area.width
        &&& area.y <= r.y
        &&& r.y + r.height <= area.y + area.height
    } else {
        &&& r.y == area.y
        &&& r.height == area.height
        &&& area.x <= r.x
        &&& r.x + r.width <= area.x + area.width
    }
}

/// `r` lies inside `area`.
pub open spec fn inside(r: Rect, area: Rect) -> bool {
    &&& area.x <= r.x
    &&& r.x + r.width <= area.x + area.width
    &&& area.y <= r.y
    &&& r.y + r.height <= area.y + area.height
}

/// `r` is a middle area that ratatui's `Layout::split` may give when it splits
/// `area`, top to bottom if `vertical` and left to right otherwise, by the
/// constraints `Percentage(side)`, `Percentage(middle)`, `Percentage(side)`.
/// This is a relation, not a function: where the constraints leave the solver
/// a choice, which optimum it reaches depends on the order in which its hash
/// maps are walked, so one call may differ from another.
pub uninterp spec fn split_middle_gives(
    area: Rect,
    vertical: bool,
    side: u16,
    middle: u16,
    r: Rect,
) -> bool;

/// `r` holds bands that ratatui's `Layout::split` may give when it splits
/// `area` top to bottom by `Length(top)`, `Min(least)`, `Length(input)`,
/// `Length(status)`. A relation, for the reason given at `split_middle_gives`.
pub uninterp spec fn split_screen_gives(
    area: Rect,
    top: u16,
    least: u16,
    input: u16,
    status: u16,
    r: Seq<Rect>,
) -> bool;

/// ratatui's `Layout::split` of `area` into three areas by the constraints
/// `Percentage(side)`, `Percentage(middle)`, `Percentage(side)`, top to bottom if
/// `vertical` and left to right otherwise; the middle one is returned. It is an
/// outcome of that split (`split_middle_gives`); the solver keeps every area
/// between the start and the end of `area` along the split and gives it
/// `area`'s extent across. Which sizes it picks is not stated: where the
/// constraints leave a choice it rests on the order in which the solver walks
/// its hash maps.
#[verifier::external_body]
fn split_middle(area: Rect, vertical: bool, side: u16, middle: u16) -> (r: Rect)
    ensures
        split_middle_gives(area, vertical, side, middle, r),
        inside_along(r, area, vertical),
{
    let area = ratatui::layout::Rect { x: area.x, y: area.y, width: area.width, height: area.height };
    let direction = if vertical { Direction::Vertical } else { Direction::Horizontal };
    let parts = Layout::default().direction(direction).constraints(
        [Constraint::Percentage(side), Constraint::Percentage(middle), Constraint::Percentage(side)],
    ).split(area);
    Rect { x: parts[1].x, y: parts[1].y, width: parts[1].width, height: parts[1].height }
}

/// ratatui's `Layout::split` of an area, top to bottom, into four bands by the
/// constraints `Length(top)`, `Min(least)`, `Length(input)`, `Length(status)`:
/// an outcome of that split (`split_screen_gives`), one band per constraint,
/// each between the top and the bottom of `area` and as wide as it. Which
/// heights the solver picks is not stated, for the reason given at
/// `split_middle`.
#[verifier::external_body]
fn split_screen(area: Rect, top: u16, least: u16, input: u16, status: u16) -> (r: Vec<Rect>)
    ensures
        split_screen_gives(area, top, least, input, status, r@),
        r@.len() == 4,
        forall|i: int| 0 <= i < 4 ==> inside_along(#[trigger] r@[i], area, true),
{
    let area = ratatui::layout::Rect { x: area.x, y: area.y, width: area.width, height: area.height };
    let parts = Layout::default().direction(Direction::Vertical).margin(0).constraints(
        [Constraint::Length(top), Constraint::Min(least), Constraint::Length(input), Constraint::Length(status)],
    ).split(area);
    parts.iter().map(|q| Rect { x: q.x, y: q.y, width: q.width, height: q.height }).collect()
}

/// The areas of the tab bar (3 rows), the conversation (the rest), the input
/// line (3 rows) and the status bar (1 row), each as wide as the screen.
pub fn screen_areas(area: Rect) -> (r: Vec<Rect>)
    ensures
        split_screen_gives(area, 3, 0, 3, 1, r@),
        r@.len() == 4,
        forall|i: int| 0 <= i < 4 ==> inside_along(#[trigger] r@[i], area, true),
{
    split_screen(area, 3, 0, 3, 1)
}

/// A rectangle of about `percent_x` by `percent_y` percent of `r`, centred in it:
/// the middle of three bands of `r`, split across the middle of three bands.
pub fn centered_rect(percent_x: u16, percent_y: u16, r: Rect) -> (c: Rect)
    requires
        percent_x <= 100,
        percent_y <= 100,
    ensures
        exists|band: Rect|
            #[trigger] split_middle_gives(r, true, ((100 - percent_y) / 2) as u16, percent_y, band)
                && split_middle_gives(band, false, ((100 - percent_x) / 2) as u16, percent_x, c),
        inside(c, r),
{
    let band = split_middle(r, true, (100 - percent_y) / 2, percent_y);
    split_middle(band, false, (100 - percent_x) / 2, percent_x)
}

/// The tab titles, one per project: a filled mark for the shown one, a hollow
/// mark for the others, then the name.
pub fn tab_titles(app: &App) -> (r: Vec<String>)
    ensures
        views(r@) == list_entries(*app),
{
    let n = app.projects.len();
    let mut out: Vec<String> = Vec::new();
    let mut i: usize = 0;
    while i < n
        invariant
            n == app.projects@.len(),
            i <= n,
            views(out@) == list_entries(*app).take(i as int),
        decreases n - i,
    {
        let mut t = String::new();
        if i == app.active_project {
            push_str(&mut t, "●");
        } else {
            push_str(&mut t, "○");
        }
        push_str(&mut t, " ");
        push_str(&mut t, app.projects[i].name.as_str());
        assert(t@ =~= list_entries(*app)[i as int]);
        let ghost before = out@;
        out.push(t);
        proof {
            lemma_views_push(before, t);
            assert(list_entries(*app).take(i + 1) =~= list_entries(*app).take(i as int).push(list_entries(*app)[i as int]));
        }
        i = i + 1;
    }
    assert(list_entries(*app).take(n as int) =~= list_entries(*app));
    out
}

/// The mark a conversation line starts with, by who wrote it.
pub open spec fn role_prefix(role: MessageRole) -> Seq<char> {
    match role {
        MessageRole::User => "> "@,
        MessageRole::Assistant => "◰ "@,
        MessageRole::System => "· "@,
        MessageRole::ShellOutput => "$ "@,
    }
}

/// The lines of the conversation of `p`: each message's mark and content.
pub open spec fn conversation(p: Project) -> Seq<Seq<char>> {
    Seq::new(
        p.messages@.len(),
        |i: int| role_prefix(p.messages@[i].role) + p.messages@[i].content@,
    )
}

/// The conversation of the shown project, one line per message.
pub fn content_lines(app: &App) -> (r: Vec<String>)
    requires
        app.wf(),
    ensures
        views(r@) == conversation(app.shown()),
{
    let p = &app.projects[app.active_project];
    let n = p.messages.len();
    let mut out: Vec<String> = Vec::new();
    let mut i: usize = 0;
    while i < n
        invariant
            *p == app.shown(),
            n == p.messages@.len(),
            i <= n,
            views(out@) == conversation(*p).take(i as int),
        decreases n - i,
    {
        let m = &p.messages[i];
        let mut t = String::new();
        match m.role {
            MessageRole::User => push_str(&mut t, "> "),
            MessageRole::Assistant => push_str(&mut t, "◰ "),
            MessageRole::System => push_str(&mut t, "· "),
            MessageRole::ShellOutput => push_str(&mut t, "$ "),
        }
        push_str(&mut t, m.content.as_str());
        assert(t@ =~= conversation(*p)[i as int]);
        let ghost before = out@;
        out.push(t);
        proof {
            lemma_views_push(before, t);
            assert(conversation(*p).take(i + 1) =~= conversation(*p).take(i as int).push(conversation(*p)[i as int]));
        }
        i = i + 1;
    }
    assert(conversation(*p).take(n as int) =~= conversation(*p));
    out
}

/// The title above the conversation: the shown project's name in brackets.
pub fn content_title(app: &App) -> (t: String)
    requires
        app.wf(),
    ensures
        t@ == "  ["@ + app.shown().name@ + "]"@,
{
    let mut t = String::new();
    push_str(&mut t, "  [");
    push_str(&mut t, app.projects[app.active_project].name.as_str());
    push_str(&mut t, "]");
    t
}

/// The text of the status bar: the key hints and the status message.
pub fn status_line(app: &App) -> (t: String)
    ensures
        t@ == "  Ctrl+q：退出  │  Tab：切换  │  Ctrl+n：新建  │  Ctrl+m：监测  │  "@
            + app.status_message@,
{
    let mut t = String::new();
    push_str(&mut t, "  Ctrl+q：退出  │  Tab：切换  │  Ctrl+n：新建  │  Ctrl+m：监测  │  ");
    push_str(&mut t, app.status_message.as_str());
    t
}

/// What the input line is about to do, by its first character.
#[derive(Clone, Copy, Debug, PartialEq, Eq, Structural)]
pub enum InputMode {
    /// It starts with `!`: a shell command.
    Shell,
    /// It starts with `/`: an internal command.
    Command,
    /// Anything else: a message to the assistant.
    Chat,
}

/// The input line as drawn: its mode, the text before and after the cursor, and
/// the byte offset at which it is split.
pub struct InputLine {
    pub mode: InputMode,
    pub before: String,
    pub after: String,
    pub cursor: usize,
}

/// The mode of an input line.
pub open spec fn input_mode(input: Seq<char>) -> InputMode {
    if input.len() > 0 && input[0] == '!' {
        InputMode::Shell
    } else if input.len() > 0 && input[0] == '/' {
        InputMode::Command
    } else {
        InputMode::Chat
    }
}

/// Where the cursor is drawn: at least at byte offset 1, at most at the end.
pub open spec fn drawn_cursor(input: Seq<char>, cursor: usize) -> int {
    let at_least_one: int = if cursor < 1 {
        1
    } else {
        cursor as int
    };
    if at_least_one < byte_len(input) {
        at_least_one
    } else {
        byte_len(input) as int
    }
}

/// The shown project's input line, split at the character boundary at or before
/// where the cursor is drawn.
pub fn input_line(app: &App) -> (l: InputLine)
    requires
        app.wf(),
    ensures
        ({
            let input = app.shown().input@;
            let k = chars_within(input, drawn_cursor(input, app.shown().cursor_pos)) as int;
            &&& l.mode == input_mode(input)
            &&& l.cursor == byte_offset(input, k)
            &&& l.before@ == input.take(k)
            &&& l.after@ == input.skip(k)
        }),
{
    let p = &app.projects[app.active_project];
    let v = chars_of(p.input.as_str());
    let len = utf8_len(p.input.as_str());
    let at_least_one = if p.cursor_pos < 1 {
        1
    } else {
        p.cursor_pos
    };
    let c = if at_least_one < len {
        at_least_one
    } else {
        len
    };
    let (k, off) = boundary_at_or_before(&v, c);
    let mode = if v.len() > 0 && v[0] == '!' {
        InputMode::Shell
    } else if v.len() > 0 && v[0] == '/' {
        InputMode::Command
    } else {
        InputMode::Chat
    };
    let before = string_of_range(&v, 0, k);
    let after = string_of_range(&v, k, v.len());
    assert(v@.subrange(0, k as int) =~= v@.take(k as int));
    assert(v@.subrange(k as int, v@.len() as int) =~= v@.skip(k as int));
    InputLine { mode, before, after, cursor: off }
}

/// The events of the day `today` in `sums`, in order.
pub open spec fn events_on(sums: Seq<DailySummary>, today: Seq<char>) -> Seq<Seq<char>>
    decreases sums.len(),
{
    if sums.len() == 0 {
        seq![]
    } else {
        events_on(sums.drop_last(), today) + if sums.last().date@ == today {
            views(sums.last().events@)
        } else {
            seq![]
        }
    }
}

/// The mark of a project's status in the monitor panel.
pub open spec fn status_icon(s: ProjectStatus) -> Seq<char> {
    match s {
        ProjectStatus::Active => "●"@,
        ProjectStatus::Paused => "○"@,
        ProjectStatus::Archived => "◎"@,
    }
}

/// The entry of the monitor panel for project `p`: status mark, a pointer if it
/// is shown, the name, and below it today's events or a note that there are none.
pub open spec fn monitor_entry(p: Project, shown: bool, today: Seq<char>) -> Seq<char> {
    let events = events_on(p.daily_summaries@, today);
    status_icon(p.status) + (if shown {
        " ►"@
    } else {
        ""@
    }) + " "@ + p.name@ + "\n"@ + if events.len() == 0 {
        "  今日无记录"@
    } else {
        join(events.map_values(|e: Seq<char>| "  · "@ + e), "\n"@)
    }
}

/// The entries of the monitor panel for the day `today`.
pub open spec fn monitor_entries_on(app: App, today: Seq<char>) -> Seq<Seq<char>> {
    Seq::new(
        app.projects@.len(),
        |i: int| monitor_entry(app.projects@[i], i == app.active_project, today),
    )
}

/// Appends the events of `today` in `sums` to `out`.
fn collect_events(sums: &Vec<DailySummary>, today: &str, out: &mut Vec<String>)
    ensures
        views(final(out)@) == views(old(out)@) + events_on(sums@, today@),
{
    let ghost start = views(out@);
    let mut i: usize = 0;
    assert(sums@.take(0) =~= Seq::<DailySummary>::empty());
    while i < sums.len()
        invariant
            i <= sums@.len(),
            views(out@) == start + events_on(sums@.take(i as int), today@),
        decreases sums@.len() - i,
    {
        let s = &sums[i];
        let ghost before = views(out@);
        let mut j: usize = 0;
        if crate::text::same_text(s.date.as_str(), today) {
            while j < s.events.len()
                invariant
                    j <= s.events@.len(),
                    views(out@) == before + views(s.events@).take(j as int),
                decreases s.events@.len() - j,
            {
                let mut e = String::new();
                push_str(&mut e, s.events[j].as_str());
                assert(e@ =~= views(s.events@)[j as int]);
                let ghost prev = out@;
                out.push(e);
                proof {
                    lemma_views_push(prev, e);
                    assert(views(s.events@).take(j + 1) =~= views(s.events@).take(j as int).push(
                        views(s.events@)[j as int],
                    ));
                    assert(views(out@) =~= before + views(s.events@).take(j + 1));
                }
                j = j + 1;
            }
            assert(views(s.events@).take(s.events@.len() as int) =~= views(s.events@));
        }
        proof {
            let t = sums@.take(i + 1);
            assert(t.drop_last() =~= sums@.take(i as int));
            assert(t.last() == sums@[i as int]);
            assert(views(out@) =~= start + events_on(t, today@));
        }
        i = i + 1;
    }
    assert(sums@.take(sums@.len() as int) =~= sums@);
}

/// The monitor panel's entry for project `p`.
fn monitor_entry_text(p: &Project, shown: bool, today: &str) -> (t: String)
    ensures
        t@ == monitor_entry(*p, shown, today@),
{
    let mut t = String::new();
    match p.status {
        ProjectStatus::Active => push_str(&mut t, "●"),
        ProjectStatus::Paused => push_str(&mut t, "○"),
        ProjectStatus::Archived => push_str(&mut t, "◎"),
    }
    if shown {
        push_str(&mut t, " ►");
    } else {
        push_str(&mut t, "");
    }
    push_str(&mut t, " ");
    push_str(&mut t, p.name.as_str());
    push_str(&mut t, "\n");
    let mut events: Vec<String> = Vec::new();
    collect_events(&p.daily_summaries, today, &mut events);
    let ghost ev = events_on(p.daily_summaries@, today@);
    assert(views(events@) =~= ev);
    if events.len() == 0 {
        push_str(&mut t, "  今日无记录");
    } else {
        let ghost head = t@;
        let ghost items = ev.map_values(|e: Seq<char>| "  · "@ + e);
        let n = events.len();
        let mut i: usize = 0;
        while i < n
            invariant
                n == events@.len(),
                views(events@) == ev,
                items == ev.map_values(|e: Seq<char>| "  · "@ + e),
                i <= n,
                t@ == head + join(items.take(i as int), "\n"@),
            decreases n - i,
        {
            if i > 0 {
                push_str(&mut t, "\n");
            }
            push_str(&mut t, "  · ");
            push_str(&mut t, events[i].as_str());
            proof {
                let s = items.take(i + 1);
                assert(s.drop_last() =~= items.take(i as int));
                assert(s.last() == items[i as int]);
                assert(views(events@)[i as int] == events@[i as int]@);
                if i == 0 {
                    assert(items.take(0) =~= Seq::<Seq<char>>::empty());
                }
                assert(t@ =~= head + join(s, "\n"@));
            }
            i = i + 1;
        }
        assert(items.take(n as int) =~= items);
    }
    t
}

/// The entries of the monitor panel for the day `today` (as `YYYY-MM-DD`).
pub fn monitor_entries(app: &App, today: &str) -> (r: Vec<String>)
    ensures
        views(r@) == monitor_entries_on(*app, today@),
{
    let n = app.projects.len();
    let mut out: Vec<String> = Vec::new();
    let mut i: usize = 0;
    while i < n
        invariant
            n == app.projects@.len(),
            i <= n,
            views(out@) == monitor_entries_on(*app, today@).take(i as int),
        decreases n - i,
    {
        let t = monitor_entry_text(&app.projects[i], i == app.active_project, today);
        assert(t@ == monitor_entries_on(*app, today@)[i as int]);
        let ghost before = out@;
        out.push(t);
        proof {
            lemma_views_push(before, t);
            assert(monitor_entries_on(*app, today@).take(i + 1) =~= monitor_entries_on(*app, today@).take(i as int).push(monitor_entries_on(*app, today@)[i as int]));
        }
        i = i + 1;
    }
    assert(monitor_entries_on(*app, today@).take(n as int) =~= monitor_entries_on(*app, today@));
    out
}

/// chrono's `DateTime::from_timestamp(secs, 0)`, taken to the local time zone
/// (`with_timezone(&Local)`) and written out by `format(fmt)`; `None` where
/// `secs` lies beyond chrono's range. Nothing is stated of the text: it rests on
/// the machine's time zone. chrono panics on an invalid format, so only the
/// date format used here is admitted; it also expects its time-zone data to
/// cover any time in its range, which is not a matter of the arguments.
#[verifier::external_body]
fn local_date_of(secs: u64, fmt: &str) -> Option<String>
    requires
        fmt@ == "%Y-%m-%d"@,
{
    i64::try_from(secs).ok().and_then(|t| chrono::DateTime::from_timestamp(t, 0)).map(
        |t| t.with_timezone(&chrono::Local).format(fmt).to_string(),
    )
}

/// The entries of the monitor panel for today by the local clock, the date
/// written as year-month-day (`%Y-%m-%d`); where no date can be had for the
/// clock's reading, the entries for the empty date, which show no events.
pub fn monitor_entries_today(app: &App) -> (r: Vec<String>)
    ensures
        exists|today: Seq<char>| views(r@) == #[trigger] monitor_entries_on(*app, today),
{
    let secs = unix_time_now();
    match local_date_of(secs, "%Y-%m-%d") {
        Some(today) => monitor_entries(app, today.as_str()),
        None => monitor_entries(app, ""),
    }
}

} // verus!
