//! Navigation state machine for the interactive session picker: the
//! in-memory session list, the current mode, selection and scroll
//! cursors, the detail sub-state, and the transitions that key input
//! drives. The surrounding program owns the terminal, the clock and
//! the file system; every decision lives here.

use vstd::prelude::*;

use crate::filter::{ranked_index_list, ranking_of};
use crate::session::{resume_command_spec, Session, UserPrompt};
use crate::textops::{dec_spec, fmt_usize, pop_last_char, push_char};

verus! {

/// How long a transient status message stays visible.
pub const STATUS_TIMEOUT_MILLIS: i64 = 3000;

/// How many recent prompts the detail view loads.
pub const DETAIL_PROMPT_COUNT: usize = 20;

/// Interaction mode of the picker.
#[derive(Debug, Clone, Copy, PartialEq, Eq, Structural)]
pub enum Mode {
    Browsing,
    Filtering,
    Detail,
}

/// What the input handler tells the surrounding loop to do.
#[derive(Debug)]
pub enum Action {
    Continue,
    Quit,
    EnterDetail(usize),
    CopyCommand(String),
    BackToList,
    DeepSearch(String),
}

/// Which button is focused in the detail view.
#[derive(Debug, Clone, Copy, PartialEq, Eq, Structural)]
pub enum DetailButton {
    CopyAndExit,
    Back,
}

/// A key event, reduced to what the state machine distinguishes.
#[derive(Debug, Clone, Copy)]
pub enum Key {
    Char(char),
    Up,
    Down,
    Enter,
    Esc,
    Backspace,
    CtrlC,
    CtrlG,
    Other,
}

/// State for the detail view of a single session.
#[derive(Debug)]
pub struct DetailState {
    pub session_idx: usize,
    pub prompts: Vec<UserPrompt>,
    pub scroll_offset: usize,
    pub focused_button: DetailButton,
}

/// Application state for the picker.
///
/// The fields are public so that a renderer can read them; mutate
/// them only through the methods below, which keep [`App::wf`].
#[derive(Debug)]
pub struct App {
    pub sessions: Vec<Session>,
    pub filtered_indices: Vec<usize>,
    pub selected: usize,
    pub scroll_offset: usize,
    pub mode: Mode,
    pub filter_query: String,
    pub status_message: Option<(String, i64)>,
    pub detail: Option<DetailState>,
}

/// The visible order is the whole session list, unfiltered.
pub open spec fn identity_filter(app: App) -> bool {
    &&& app.filtered_indices@.len() == app.sessions@.len()
    &&& forall|k: int|
        0 <= k < app.filtered_indices@.len() ==> (#[trigger] app.filtered_indices@[k] as int) == k
}

/// The visible order ranks exactly the sessions the oracle matches,
/// best score first.
pub open spec fn ranked_filter(app: App) -> bool {
    ranking_of(app.sessions@, app.filter_query@, app.filtered_indices@)
}

/// The visible order is up to date for the live query: the identity
/// for an empty query (the oracle is never invoked then), the ranked
/// order otherwise, with both cursors reset.
pub open spec fn filter_applied(app: App) -> bool {
    &&& app.selected == 0
    &&& app.scroll_offset == 0
    &&& if app.filter_query@.len() == 0 {
        identity_filter(app)
    } else {
        ranked_filter(app)
    }
}

impl App {
    /// Well-formedness: every visible index points into the session
    /// list, the selection cursor stays in `[0, len)` (0 when the
    /// visible list is empty), and a detail sub-state points at a
    /// real session.
    pub open spec fn wf(self) -> bool {
        &&& forall|k: int|
            0 <= k < self.filtered_indices@.len() ==> (#[trigger] self.filtered_indices@[k] as int)
                < self.sessions@.len()
        &&& (self.filtered_indices@.len() == 0 ==> self.selected == 0)
        &&& (self.filtered_indices@.len() > 0 ==> (self.selected as int)
            < self.filtered_indices@.len())
        &&& match self.detail {
            Some(d) => (d.session_idx as int) < self.sessions@.len(),
            None => true,
        }
    }

    /// Initial state: browsing the full list, nothing selected yet
    /// beyond the first row.
    pub fn new(sessions: Vec<Session>) -> (r: App)
        ensures
            r.wf(),
            r.sessions == sessions,
            identity_filter(r),
            r.selected == 0,
            r.scroll_offset == 0,
            r.mode == Mode::Browsing,
            r.filter_query@.len() == 0,
            r.status_message is None,
            r.detail is None,
    {
        let mut filtered_indices: Vec<usize> = Vec::new();
        let mut k: usize = 0;
        while k < sessions.len()
            invariant
                k <= sessions@.len(),
                filtered_indices@.len() == k,
                forall|j: int|
                    0 <= j < k ==> (#[trigger] filtered_indices@[j] as int) == j,
            decreases sessions@.len() - k,
        {
            filtered_indices.push(k);
            k = k + 1;
        }
        App {
            sessions,
            filtered_indices,
            selected: 0,
            scroll_offset: 0,
            mode: Mode::Browsing,
            filter_query: String::new(),
            status_message: None,
            detail: None,
        }
    }

    /// Re-run the ranking layer for the live query and reset both
    /// cursors.
    pub fn apply_filter(&mut self)
        requires
            old(self).wf(),
        ensures
            final(self).wf(),
            final(self).sessions == old(self).sessions,
            final(self).mode == old(self).mode,
            final(self).filter_query == old(self).filter_query,
            final(self).status_message == old(self).status_message,
            final(self).detail == old(self).detail,
            filter_applied(*final(self)),
    {
        if self.filter_query.as_str().is_empty() {
            let mut filtered_indices: Vec<usize> = Vec::new();
            let mut k: usize = 0;
            while k < self.sessions.len()
                invariant
                    k <= self.sessions@.len(),
                    filtered_indices@.len() == k,
                    forall|j: int|
                        0 <= j < k ==> (#[trigger] filtered_indices@[j] as int) == j,
                decreases self.sessions@.len() - k,
            {
                filtered_indices.push(k);
                k = k + 1;
            }
            self.filtered_indices = filtered_indices;
            self.selected = 0;
            self.scroll_offset = 0;
        } else {
            self.filtered_indices = ranked_index_list(&self.sessions, self.filter_query.as_str());
            self.selected = 0;
            self.scroll_offset = 0;
        }
    }

    /// Move the selection cursor down one row, saturating at the end.
    pub fn move_down(&mut self)
        requires
            old(self).wf(),
        ensures
            final(self).wf(),
            moved_down(*old(self), *final(self)),
    {
        if self.filtered_indices.len() > 0 {
            if self.selected + 1 < self.filtered_indices.len() {
                self.selected = self.selected + 1;
            } else {
                self.selected = self.filtered_indices.len() - 1;
            }
        }
    }

    /// Move the selection cursor up one row, saturating at the top.
    pub fn move_up(&mut self)
        requires
            old(self).wf(),
        ensures
            final(self).wf(),
            moved_up(*old(self), *final(self)),
    {
        if self.selected > 0 {
            self.selected = self.selected - 1;
        }
    }

    /// Keep the selection inside the visible window, moving the
    /// window as little as possible; in detail mode, pin the window
    /// to the newest prompts instead.
    pub fn ensure_visible(&mut self, visible_items: usize)
        requires
            old(self).wf(),
        ensures
            final(self).wf(),
            visible_items == 0 ==> *final(self) == *old(self),
            visible_items > 0 && old(self).mode != Mode::Detail ==> *final(self) == (App {
                scroll_offset: final(self).scroll_offset,
                ..*old(self)
            }) && (final(self).scroll_offset as int) == ({
                let sel = old(self).selected as int;
                let sc = old(self).scroll_offset as int;
                if sel < sc {
                    sel
                } else if sel >= sc + visible_items {
                    sel - visible_items + 1
                } else {
                    sc
                }
            }),
            visible_items > 0 && old(self).mode != Mode::Detail ==> final(self).scroll_offset
                <= final(self).selected < final(self).scroll_offset + visible_items,
            visible_items > 0 && old(self).mode == Mode::Detail ==> *final(self) == (App {
                detail: final(self).detail,
                ..*old(self)
            }) && match old(self).detail {
                Some(d) => final(self).detail matches Some(d2) && d2 == (DetailState {
                    scroll_offset: d2.scroll_offset,
                    ..d
                }) && (d2.scroll_offset as int) == (if d.prompts@.len() > visible_items {
                    d.prompts@.len() - visible_items
                } else {
                    d.scroll_offset as int
                }),
                None => final(self).detail is None,
            },
    {
        if visible_items == 0 {
            return ;
        }
        if matches!(self.mode, Mode::Detail) {
            match &mut self.detail {
                Some(d) => {
                    let total = d.prompts.len();
                    if total > visible_items {
                        d.scroll_offset = total - visible_items;
                    }
                },
                None => {},
            }
        } else {
            if self.selected < self.scroll_offset {
                self.scroll_offset = self.selected;
            } else {
                if self.selected - self.scroll_offset >= visible_items {
                    self.scroll_offset = self.selected - visible_items + 1;
                }
            }
        }
    }

    /// Enter detail mode for session `session_idx`, showing the
    /// prompts the caller loaded for it.
    pub fn enter_detail(&mut self, session_idx: usize, prompts: Vec<UserPrompt>)
        requires
            old(self).wf(),
            (session_idx as int) < old(self).sessions@.len(),
        ensures
            final(self).wf(),
            *final(self) == (App {
                mode: Mode::Detail,
                detail: final(self).detail,
                ..*old(self)
            }),
            final(self).detail matches Some(d) && d.session_idx == session_idx && d.prompts
                == prompts && d.scroll_offset == 0 && d.focused_button == DetailButton::CopyAndExit,
    {
        self.detail = Some(
            DetailState {
                session_idx,
                prompts,
                scroll_offset: 0,
                focused_button: DetailButton::CopyAndExit,
            },
        );
        self.mode = Mode::Detail;
    }

    /// Leave detail mode and return to the list, which is unchanged.
    pub fn leave_detail(&mut self)
        requires
            old(self).wf(),
        ensures
            final(self).wf(),
            *final(self) == (App { mode: Mode::Browsing, detail: None, ..*old(self) }),
    {
        self.detail = None;
        self.mode = Mode::Browsing;
    }

    /// Show a transient status message, stamped with the current
    /// time.
    pub fn set_status(&mut self, msg: String, now_millis: i64)
        requires
            old(self).wf(),
        ensures
            final(self).wf(),
            *final(self) == (App {
                status_message: Some((msg, now_millis)),
                ..*old(self)
            }),
    {
        self.status_message = Some((msg, now_millis));
    }

    /// Clear the status message once it has outlived its timeout.
    pub fn tick_status(&mut self, now_millis: i64)
        requires
            old(self).wf(),
        ensures
            final(self).wf(),
            *final(self) == (App {
                status_message: final(self).status_message,
                ..*old(self)
            }),
            final(self).status_message == match old(self).status_message {
                Some((m, t)) => if now_millis - t > STATUS_TIMEOUT_MILLIS {
                    None
                } else {
                    Some((m, t))
                },
                None => None::<(String, i64)>,
            },
    {
        let expired = match &self.status_message {
            Some(p) => (now_millis as i128) - (p.1 as i128) > (STATUS_TIMEOUT_MILLIS as i128),
            None => false,
        };
        if expired {
            self.status_message = None;
        }
    }
}

/// The status text set when a deep search found nothing.
pub open spec fn no_match_status(pattern: Seq<char>) -> Seq<char> {
    "No sessions match \""@ + pattern + "\""@
}

/// The status text set when a deep search replaced the list,
/// reporting the match count.
pub open spec fn match_count_status(count: int, pattern: Seq<char>) -> Seq<char> {
    "Deep search: "@ + dec_spec(count) + " sessions match \""@ + pattern + "\""@
}

impl App {
    /// Take a deep search's outcome: a non-empty result replaces the
    /// session list wholesale and resets the view; an empty one
    /// leaves the list untouched. Either way the picker returns to
    /// browsing with a cleared query and a status message.
    pub fn apply_search_results(&mut self, results: Vec<Session>, pattern: &str, now_millis: i64)
        requires
            old(self).wf(),
        ensures
            final(self).wf(),
            final(self).mode == Mode::Browsing,
            final(self).filter_query@.len() == 0,
            results@.len() == 0 ==> ({
                let pre = *old(self);
                let post = *final(self);
                &&& post.sessions == pre.sessions
                &&& post.filtered_indices == pre.filtered_indices
                &&& post.selected == pre.selected
                &&& post.scroll_offset == pre.scroll_offset
                &&& post.detail == pre.detail
                &&& (post.status_message matches Some((m, t)) && t == now_millis && m@
                    == no_match_status(pattern@))
            }),
            results@.len() > 0 ==> ({
                let post = *final(self);
                &&& post.sessions == results
                &&& identity_filter(post)
                &&& post.selected == 0
                &&& post.scroll_offset == 0
                &&& post.detail is None
                &&& (post.status_message matches Some((m, t)) && t == now_millis && m@
                    == match_count_status(results@.len() as int, pattern@))
            }),
    {
        if results.len() == 0 {
            let mut msg = String::from_str("No sessions match \"");
            msg.append(pattern);
            msg.append("\"");
            self.mode = Mode::Browsing;
            self.filter_query = String::new();
            self.status_message = Some((msg, now_millis));
        } else {
            let count = results.len();
            self.sessions = results;
            let mut filtered_indices: Vec<usize> = Vec::new();
            let mut k: usize = 0;
            while k < self.sessions.len()
                invariant
                    k <= self.sessions@.len(),
                    filtered_indices@.len() == k,
                    forall|j: int|
                        0 <= j < k ==> (#[trigger] filtered_indices@[j] as int) == j,
                decreases self.sessions@.len() - k,
            {
                filtered_indices.push(k);
                k = k + 1;
            }
            self.filtered_indices = filtered_indices;
            self.selected = 0;
            self.scroll_offset = 0;
            self.mode = Mode::Browsing;
            self.filter_query = String::new();
            self.detail = None;
            let mut msg = String::from_str("Deep search: ");
            let cnt = fmt_usize(count);
            msg.append(cnt.as_str());
            msg.append(" sessions match \"");
            msg.append(pattern);
            msg.append("\"");
            self.status_message = Some((msg, now_millis));
        }
    }
}

/// One browsing-mode transition: cursor moves, entering the filter,
/// drilling into the selection, or quitting.
pub open spec fn browse_step(pre: App, post: App, key: Key, r: Action) -> bool {
    match key {
        Key::Char(c) => if c == 'q' {
            r is Quit && post == pre
        } else if c == 'j' {
            r is Continue && moved_down(pre, post)
        } else if c == 'k' {
            r is Continue && moved_up(pre, post)
        } else if c == '/' {
            r is Continue && entered_filtering(pre, post)
        } else {
            r is Continue && post == pre
        },
        Key::Esc => r is Quit && post == pre,
        Key::Down => r is Continue && moved_down(pre, post),
        Key::Up => r is Continue && moved_up(pre, post),
        Key::Enter => if (pre.selected as int) < pre.filtered_indices@.len() {
            (r matches Action::EnterDetail(idx) && idx == pre.filtered_indices@[pre.selected as int])
                && post == pre
        } else {
            r is Continue && post == pre
        },
        _ => r is Continue && post == pre,
    }
}

/// One filtering-mode transition: query edits re-rank, a deep search
/// is requested only for a non-empty query, cancel restores the
/// identity order, confirm drills into the selection.
pub open spec fn filter_step(pre: App, post: App, key: Key, r: Action) -> bool {
    match key {
        Key::CtrlG => if pre.filter_query@.len() > 0 {
            (r matches Action::DeepSearch(p) && p == pre.filter_query) && post == pre
        } else {
            r is Continue && post == pre
        },
        Key::Esc => {
            &&& r is Continue
            &&& post == (App {
                mode: Mode::Browsing,
                filter_query: post.filter_query,
                filtered_indices: post.filtered_indices,
                selected: post.selected,
                scroll_offset: post.scroll_offset,
                ..pre
            })
            &&& post.filter_query@.len() == 0
            &&& filter_applied(post)
        },
        Key::Enter => if (pre.selected as int) < pre.filtered_indices@.len() {
            (r matches Action::EnterDetail(idx) && idx == pre.filtered_indices@[pre.selected as int])
                && post == (App { mode: Mode::Browsing, ..pre })
        } else {
            r is Continue && post == pre
        },
        Key::Backspace => {
            &&& r is Continue
            &&& post == (App {
                filter_query: post.filter_query,
                filtered_indices: post.filtered_indices,
                selected: post.selected,
                scroll_offset: post.scroll_offset,
                ..pre
            })
            &&& post.filter_query@ == (if pre.filter_query@.len() > 0 {
                pre.filter_query@.drop_last()
            } else {
                pre.filter_query@
            })
            &&& filter_applied(post)
        },
        Key::Char(c) => {
            &&& r is Continue
            &&& post == (App {
                filter_query: post.filter_query,
                filtered_indices: post.filtered_indices,
                selected: post.selected,
                scroll_offset: post.scroll_offset,
                ..pre
            })
            &&& post.filter_query@ == pre.filter_query@.push(c)
            &&& filter_applied(post)
        },
        Key::Down => r is Continue && moved_down(pre, post),
        Key::Up => r is Continue && moved_up(pre, post),
        _ => r is Continue && post == pre,
    }
}

/// One detail-mode transition: back to the list, or emit the resume
/// command of the shown session for the clipboard. The state itself
/// never changes here.
pub open spec fn detail_step(app: App, key: Key, r: Action) -> bool {
    match key {
        Key::Esc => r is BackToList,
        Key::Char(c) => if c == 'q' {
            r is BackToList
        } else {
            r is Continue
        },
        Key::Enter => match app.detail {
            Some(d) => (r matches Action::CopyCommand(cmd) && cmd@ == resume_command_spec(
                app.sessions@[d.session_idx as int].cwd@,
                app.sessions@[d.session_idx as int].id@,
            )),
            None => r is Continue,
        },
        _ => r is Continue,
    }
}

/// The picker switched to filtering mode with an empty query; the
/// visible order is untouched until the first keystroke re-ranks it.
pub open spec fn entered_filtering(pre: App, post: App) -> bool {
    &&& post == (App { mode: Mode::Filtering, filter_query: post.filter_query, ..pre })
    &&& post.filter_query@.len() == 0
}

fn handle_browse(app: &mut App, key: Key) -> (r: Action)
    requires
        old(app).wf(),
    ensures
        final(app).wf(),
        browse_step(*old(app), *final(app), key, r),
{
    match key {
        Key::Char(c) => {
            if c == 'q' {
                Action::Quit
            } else if c == 'j' {
                app.move_down();
                Action::Continue
            } else if c == 'k' {
                app.move_up();
                Action::Continue
            } else if c == '/' {
                app.mode = Mode::Filtering;
                app.filter_query = String::new();
                Action::Continue
            } else {
                Action::Continue
            }
        },
        Key::Esc => Action::Quit,
        Key::Down => {
            app.move_down();
            Action::Continue
        },
        Key::Up => {
            app.move_up();
            Action::Continue
        },
        Key::Enter => {
            if app.selected < app.filtered_indices.len() {
                Action::EnterDetail(app.filtered_indices[app.selected])
            } else {
                Action::Continue
            }
        },
        _ => Action::Continue,
    }
}

fn handle_filter(app: &mut App, key: Key) -> (r: Action)
    requires
        old(app).wf(),
    ensures
        final(app).wf(),
        filter_step(*old(app), *final(app), key, r),
{
    match key {
        Key::CtrlG => {
            if app.filter_query.as_str().is_empty() {
                Action::Continue
            } else {
                Action::DeepSearch(app.filter_query.clone())
            }
        },
        Key::Esc => {
            app.mode = Mode::Browsing;
            app.filter_query = String::new();
            app.apply_filter();
            Action::Continue
        },
        Key::Enter => {
            if app.selected < app.filtered_indices.len() {
                let idx = app.filtered_indices[app.selected];
                app.mode = Mode::Browsing;
                Action::EnterDetail(idx)
            } else {
                Action::Continue
            }
        },
        Key::Backspace => {
            app.filter_query = pop_last_char(&app.filter_query);
            app.apply_filter();
            Action::Continue
        },
        Key::Char(c) => {
            push_char(&mut app.filter_query, c);
            app.apply_filter();
            Action::Continue
        },
        Key::Down => {
            app.move_down();
            Action::Continue
        },
        Key::Up => {
            app.move_up();
            Action::Continue
        },
        _ => Action::Continue,
    }
}

fn handle_detail(app: &App, key: Key) -> (r: Action)
    requires
        app.wf(),
    ensures
        detail_step(*app, key, r),
{
    match key {
        Key::Esc => Action::BackToList,
        Key::Char(c) => {
            if c == 'q' {
                Action::BackToList
            } else {
                Action::Continue
            }
        },
        Key::Enter => {
            match &app.detail {
                Some(d) => {
                    let session = &app.sessions[d.session_idx];
                    Action::CopyCommand(session.resume_command())
                },
                None => Action::Continue,
            }
        },
        _ => Action::Continue,
    }
}

/// Turn one key event into an action, updating the picker state.
///
/// The global interrupt key quits from any mode; otherwise the
/// transition is the current mode's step relation.
pub fn handle_input(app: &mut App, key: Key) -> (r: Action)
    requires
        old(app).wf(),
    ensures
        final(app).wf(),
        key is CtrlC ==> r is Quit && *final(app) == *old(app),
        !(key is CtrlC) ==> match old(app).mode {
            Mode::Browsing => browse_step(*old(app), *final(app), key, r),
            Mode::Filtering => filter_step(*old(app), *final(app), key, r),
            Mode::Detail => detail_step(*old(app), key, r) && *final(app) == *old(app),
        },
{
    if matches!(key, Key::CtrlC) {
        return Action::Quit;
    }
    let mode = app.mode;
    match mode {
        Mode::Browsing => handle_browse(app, key),
        Mode::Filtering => handle_filter(app, key),
        Mode::Detail => handle_detail(app, key),
    }
}

/// The selection moved one row down, saturating at the end; nothing
/// else changed.
pub open spec fn moved_down(pre: App, post: App) -> bool {
    &&& post == (App { selected: post.selected, ..pre })
    &&& (post.selected as int) == (if pre.filtered_indices@.len() == 0 {
        0int
    } else if pre.selected as int + 1 < pre.filtered_indices@.len() {
        pre.selected as int + 1
    } else {
        pre.filtered_indices@.len() - 1
    })
}

/// The selection moved one row up, saturating at the top; nothing
/// else changed.
pub open spec fn moved_up(pre: App, post: App) -> bool {
    &&& post == (App { selected: post.selected, ..pre })
    &&& (post.selected as int) == (if pre.selected as int > 0 {
        pre.selected as int - 1
    } else {
        0int
    })
}

} // verus!
