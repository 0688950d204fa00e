//! The key-driven session: from a key event to the next state and to the text
//! to write, with the terminal restored exactly once when the session ends.
use vstd::prelude::*;
use crate::tui_selector::{frame_seq, indices_of, next_scroll, quit_seq, SelectorModel, SelectorTUI};

verus! {

/// A key press, as the session reads it.
#[derive(Clone, Copy, PartialEq, Eq, Debug)]
pub enum Key {
    Up,
    Down,
    Left,
    Right,
    Char(char),
    Other,
}

/// What a key asks the selector to do.
#[derive(Clone, Copy, PartialEq, Eq, Structural, Debug)]
pub enum Command {
    Quit,
    MoveUp,
    MoveDown,
    Toggle,
    SelectAll,
    SelectNone,
    Confirm,
    Ignore,
}

/// The key bindings.
pub open spec fn key_command(key: Key) -> Command {
    match key {
        Key::Up => Command::MoveUp,
        Key::Down => Command::MoveDown,
        Key::Left => Command::Quit,
        Key::Right => Command::Toggle,
        Key::Char(c) => {
            if c == 'q' || c == 'h' {
                Command::Quit
            } else if c == 'k' {
                Command::MoveUp
            } else if c == 'j' {
                Command::MoveDown
            } else if c == 'l' {
                Command::Toggle
            } else if c == 'a' {
                Command::SelectAll
            } else if c == 'n' {
                Command::SelectNone
            } else if c == '\n' {
                Command::Confirm
            } else {
                Command::Ignore
            }
        },
        Key::Other => Command::Ignore,
    }
}

/// The command bound to `key`.
pub fn command_for(key: Key) -> (r: Command)
    ensures
        r == key_command(key),
{
    match key {
        Key::Up => Command::MoveUp,
        Key::Down => Command::MoveDown,
        Key::Left => Command::Quit,
        Key::Right => Command::Toggle,
        Key::Char(c) => {
            if c == 'q' || c == 'h' {
                Command::Quit
            } else if c == 'k' {
                Command::MoveUp
            } else if c == 'j' {
                Command::MoveDown
            } else if c == 'l' {
                Command::Toggle
            } else if c == 'a' {
                Command::SelectAll
            } else if c == 'n' {
                Command::SelectNone
            } else if c == '\n' {
                Command::Confirm
            } else {
                Command::Ignore
            }
        },
        Key::Other => Command::Ignore,
    }
}

/// The state that a command leaves the selector in (before rendering).
pub open spec fn apply_command(m: SelectorModel, c: Command) -> SelectorModel {
    match c {
        Command::MoveUp => m.move_up(),
        Command::MoveDown => m.move_down(),
        Command::Toggle => m.toggle(),
        Command::SelectAll => m.select_all(),
        Command::SelectNone => m.select_none(),
        _ => m,
    }
}

/// The selector after a render on a terminal of `term_rows` rows.
pub open spec fn rendered(m: SelectorModel, term_rows: int) -> SelectorModel {
    SelectorModel { scroll_top: next_scroll(m.scroll_top, m.cursor + 1, term_rows - 1), ..m }
}

/// What happened at the terminal.
#[derive(Clone, Copy, PartialEq, Eq, Debug)]
pub enum Event {
    /// A key was read.
    Key(Key),
    /// Reading a key or writing to the terminal failed.
    Failure,
    /// The terminal has no more keys to give.
    Closed,
}

/// Where a session stands.
#[derive(Clone, Copy, PartialEq, Eq, Structural, Debug)]
pub enum Phase {
    Running,
    Confirmed,
    Cancelled,
    Failed,
}

/// The phase after `event`: a finished session stays as it is.
pub open spec fn next_phase(p: Phase, event: Event) -> Phase {
    if p != Phase::Running {
        p
    } else {
        match event {
            Event::Key(k) => match key_command(k) {
                Command::Quit => Phase::Cancelled,
                Command::Confirm => Phase::Confirmed,
                _ => Phase::Running,
            },
            Event::Failure => Phase::Failed,
            Event::Closed => Phase::Cancelled,
        }
    }
}

/// `event` ends a running session, so the terminal is restored.
pub open spec fn restores(p: Phase, event: Event) -> bool {
    p == Phase::Running && next_phase(p, event) != Phase::Running
}

/// What to write to the terminal after an event.
pub enum Step {
    /// The session goes on: redraw the screen with this text.
    Draw(String),
    /// The session has ended: write this text, which restores the terminal, and stop.
    Finish(String),
    /// The session had already ended: write nothing.
    Idle,
}

/// The abstract state of a session.
pub struct SessionModel {
    pub selector: SelectorModel,
    pub phase: Phase,
    pub selection: Option<Seq<int>>,
}

impl SessionModel {
    /// The selector is well formed; a selection is kept only once the session
    /// is confirmed, and it is non-empty and holds valid entry indices only.
    pub open spec fn wf(self) -> bool {
        &&& self.selector.wf()
        &&& self.phase != Phase::Confirmed ==> self.selection is None
        &&& self.selection matches Some(v) ==> v.len() > 0 && forall|k: int|
            0 <= k < v.len() ==> 0 <= #[trigger] v[k] < self.selector.count()
    }
}

/// One selection session over a list of display lines.
pub struct Session {
    tui: SelectorTUI,
    phase: Phase,
    selection: Option<Vec<usize>>,
}

impl View for Session {
    type V = SessionModel;

    closed spec fn view(&self) -> SessionModel {
        SessionModel {
            selector: self.tui@,
            phase: self.phase,
            selection: match self.selection {
                Some(v) => Some(indices_of(v@)),
                None => None,
            },
        }
    }
}

impl Session {
    /// A running session over `entry_list`, nothing selected yet.
    pub fn new(entry_list: Vec<String>) -> (r: Session)
        requires
            1 <= entry_list@.len() < usize::MAX,
        ensures
            r@.wf(),
            r@.selector.entries == entry_list@.map_values(|s: String| s@),
            r@.selector.cursor == 1,
            r@.selector.selected == Seq::<int>::empty(),
            r@.selector.scroll_top == 0,
            r@.phase == Phase::Running,
            r@.selection is None,
    {
        Session { tui: SelectorTUI::new(entry_list), phase: Phase::Running, selection: None }
    }

    pub fn phase(&self) -> (r: Phase)
        ensures
            r == self@.phase,
    {
        self.phase
    }

    /// The selector's state.
    pub fn selector(&self) -> (r: &SelectorTUI)
        ensures
            r@ == self@.selector,
    {
        &self.tui
    }

    /// The text that draws the screen for a terminal of `term_rows` rows.
    pub fn render(&mut self, term_rows: u16) -> (r: String)
        requires
            old(self)@.wf(),
            term_rows >= 1,
        ensures
            final(self)@.wf(),
            final(self)@ == (SessionModel {
                selector: rendered(old(self)@.selector, term_rows as int),
                ..old(self)@
            }),
            r@ == frame_seq(old(self)@.selector, term_rows - 1),
    {
        self.tui.refresh_content(term_rows)
    }

    /// Takes one event. While running, a key runs its command and the screen is
    /// redrawn; quit, confirm, a failure or the end of the keys end the session
    /// and restore the terminal; confirm keeps the selection first. A session
    /// that has ended takes no more events.
    pub fn step(&mut self, event: Event, term_rows: u16) -> (r: Step)
        requires
            old(self)@.wf(),
            term_rows >= 1,
        ensures
            final(self)@.wf(),
            final(self)@.phase == next_phase(old(self)@.phase, event),
            r is Finish <==> restores(old(self)@.phase, event),
            r is Idle <==> old(self)@.phase != Phase::Running,
            r matches Step::Finish(t) ==> t@ == quit_seq(),
            old(self)@.phase != Phase::Running ==> final(self)@ == old(self)@,
            old(self)@.phase == Phase::Running ==> match event {
                Event::Key(k) => {
                    let m = apply_command(old(self)@.selector, key_command(k));
                    if key_command(k) == Command::Confirm {
                        final(self)@.selector == old(self)@.selector
                            && final(self)@.selection == old(self)@.selector.retrieved()
                    } else if key_command(k) == Command::Quit {
                        final(self)@.selector == old(self)@.selector
                            && final(self)@.selection == old(self)@.selection
                    } else {
                        &&& final(self)@.selector == rendered(m, term_rows as int)
                        &&& final(self)@.selection == old(self)@.selection
                        &&& r matches Step::Draw(t) && t@ == frame_seq(m, term_rows - 1)
                    }
                },
                _ => final(self)@.selector == old(self)@.selector && final(self)@.selection
                    == old(self)@.selection,
            },
    {
        if self.phase != Phase::Running {
            return Step::Idle;
        }
        match event {
            Event::Key(k) => {
                let cmd = command_for(k);
                match cmd {
                    Command::Quit => {
                        self.phase = Phase::Cancelled;
                        return Step::Finish(self.tui.quit());
                    },
                    Command::Confirm => {
                        self.selection = self.tui.retrieve_selection();
                        self.phase = Phase::Confirmed;
                        return Step::Finish(self.tui.quit());
                    },
                    Command::MoveUp => self.tui.move_up(),
                    Command::MoveDown => self.tui.move_down(),
                    Command::Toggle => self.tui.toggle_selection(),
                    Command::SelectAll => self.tui.select_all(),
                    Command::SelectNone => self.tui.select_none(),
                    Command::Ignore => {},
                }
                Step::Draw(self.tui.refresh_content(term_rows))
            },
            Event::Failure => {
                self.phase = Phase::Failed;
                Step::Finish(self.tui.quit())
            },
            Event::Closed => {
                self.phase = Phase::Cancelled;
                Step::Finish(self.tui.quit())
            },
        }
    }

    /// The selection that a confirm kept: `None` unless the session was
    /// confirmed with something selected.
    pub fn into_selection(self) -> (r: Option<Vec<usize>>)
        requires
            self@.wf(),
        ensures
            r is None <==> self@.selection is None,
            r matches Some(v) ==> self@.selection == Some(indices_of(v@)),
            r matches Some(v) ==> v@.len() > 0 && forall|k: int|
                0 <= k < v@.len() ==> #[trigger] v@[k] < self@.selector.count(),
    {
        proof {
            if self.selection is Some {
                let v = self.selection->0;
                assert forall|k: int| 0 <= k < v@.len() implies #[trigger] v@[k]
                    < self@.selector.count() by {
                    assert(indices_of(v@)[k] == v@[k] as int);
                }
            }
        }
        self.selection
    }
}

/// The phase after a run of events.
pub open spec fn run_phase(p: Phase, events: Seq<Event>) -> Phase
    decreases events.len(),
{
    if events.len() == 0 {
        p
    } else {
        run_phase(next_phase(p, events[0]), events.drop_first())
    }
}

/// How many times a run of events restores the terminal.
pub open spec fn restore_count(p: Phase, events: Seq<Event>) -> nat
    decreases events.len(),
{
    if events.len() == 0 {
        0
    } else {
        (if restores(p, events[0]) {
            1nat
        } else {
            0nat
        }) + restore_count(next_phase(p, events[0]), events.drop_first())
    }
}

/// Whatever the events, a session restores the terminal exactly once if it
/// has ended, by quit, confirm, failure or the end of the keys, and never
/// while it runs. `Session::step` returns `Step::Finish`, the restoring text,
/// exactly on the events where `restores` holds, so this counts its finishes.
pub proof fn lemma_restored_once(events: Seq<Event>)
    ensures
        restore_count(Phase::Running, events) == (if run_phase(Phase::Running, events)
            == Phase::Running {
            0nat
        } else {
            1nat
        }),
    decreases events.len(),
{
    if events.len() > 0 {
        let p = next_phase(Phase::Running, events[0]);
        if p == Phase::Running {
            lemma_restored_once(events.drop_first());
        } else {
            lemma_finished_stays(p, events.drop_first());
        }
    }
}

/// A session that has ended stays in its phase and restores nothing more.
pub proof fn lemma_finished_stays(p: Phase, events: Seq<Event>)
    requires
        p != Phase::Running,
    ensures
        run_phase(p, events) == p,
        restore_count(p, events) == 0,
    decreases events.len(),
{
    if events.len() > 0 {
        lemma_finished_stays(p, events.drop_first());
    }
}

} // verus!
