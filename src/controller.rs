use vstd::prelude::*;

use crate::models::{renumbered, string_views, Priority, TaskView};
use crate::store::{done_pred, open_pred, ActionView, AppState};
use crate::text::{due_date_of, read_due_date, read_tags, tags_of};

verus! {

/// The list on screen.
#[derive(Clone, Copy, Debug, PartialEq, Eq, Structural)]
pub enum Tab {
    Active,
    Archived,
}

/// A step of the form that composes a new task, in the order they come.
#[derive(Clone, Copy, Debug, PartialEq, Eq, Structural)]
pub enum Step {
    Description,
    Tags,
    DueDate,
    Priority,
}

/// Browsing the lists, or filling in the form at a step.
#[derive(Clone, Copy, Debug, PartialEq, Eq, Structural)]
pub enum Mode {
    Browse,
    Compose(Step),
}

/// A logical input event.
#[derive(Clone, Copy, Debug, PartialEq, Eq, Structural)]
pub enum Event {
    MoveUp,
    MoveDown,
    SwitchTabLeft,
    SwitchTabRight,
    DeleteCurrent,
    MarkDone,
    AddTrigger,
    ArchiveTrigger,
    Quit,
    Confirm,
    Cancel,
    SelectPriority(Priority),
    Char(char),
    Backspace,
}

/// A key press, as the terminal reports it.
#[derive(Clone, Copy, Debug, PartialEq, Eq, Structural)]
pub enum Key {
    Char(char),
    Enter,
    Esc,
    Backspace,
    Up,
    Down,
    Other,
}

/// The event a key press stands for in a mode, if any.
pub open spec fn decoded(mode: Mode, key: Key) -> Option<Event> {
    match mode {
        Mode::Browse => match key {
            Key::Char(c) => if c == 'j' {
                Some(Event::MoveDown)
            } else if c == 'k' {
                Some(Event::MoveUp)
            } else if c == 'h' {
                Some(Event::SwitchTabLeft)
            } else if c == 'l' {
                Some(Event::SwitchTabRight)
            } else if c == 'd' {
                Some(Event::DeleteCurrent)
            } else if c == 'D' {
                Some(Event::MarkDone)
            } else if c == 'a' {
                Some(Event::AddTrigger)
            } else if c == 'r' {
                Some(Event::ArchiveTrigger)
            } else if c == 'q' {
                Some(Event::Quit)
            } else {
                None
            },
            Key::Down => Some(Event::MoveDown),
            Key::Up => Some(Event::MoveUp),
            _ => None,
        },
        Mode::Compose(step) => match key {
            Key::Enter => Some(Event::Confirm),
            Key::Esc => Some(Event::Cancel),
            Key::Backspace => Some(Event::Backspace),
            Key::Char(c) => if step == Step::Priority && c == '1' {
                Some(Event::SelectPriority(Priority::Low))
            } else if step == Step::Priority && c == '2' {
                Some(Event::SelectPriority(Priority::Medium))
            } else if step == Step::Priority && c == '3' {
                Some(Event::SelectPriority(Priority::High))
            } else {
                Some(Event::Char(c))
            },
            _ => None,
        },
    }
}

/// The text typed so far into the form, and the chosen priority.
pub struct Draft {
    pub description: String,
    pub tags: String,
    pub due_date: String,
    pub priority: Priority,
}

impl Draft {
    /// An empty form.
    pub fn new() -> (r: Draft)
        ensures
            r.is_empty(),
    {
        Draft {
            description: String::new(),
            tags: String::new(),
            due_date: String::new(),
            priority: Priority::Low,
        }
    }

    /// Every buffer is empty and the priority is `Low`.
    pub open spec fn is_empty(&self) -> bool {
        &&& self.description@.len() == 0
        &&& self.tags@.len() == 0
        &&& self.due_date@.len() == 0
        &&& self.priority == Priority::Low
    }

    /// The text buffer of a step; the priority step has none.
    pub open spec fn buffer(&self, step: Step) -> Seq<char> {
        match step {
            Step::Description => self.description@,
            Step::Tags => self.tags@,
            Step::DueDate => self.due_date@,
            Step::Priority => Seq::empty(),
        }
    }

    /// The buffers of `self` and `other` are equal but maybe for `step`'s.
    pub open spec fn same_but(&self, other: &Draft, step: Step) -> bool {
        &&& step != Step::Description ==> self.description@ == other.description@
        &&& step != Step::Tags ==> self.tags@ == other.tags@
        &&& step != Step::DueDate ==> self.due_date@ == other.due_date@
    }

    /// The task that the form describes, as the next one of a list of `n`.
    pub open spec fn task_view(&self, n: int) -> TaskView {
        TaskView {
            id: (n + 1) as u32,
            description: self.description@,
            tags: tags_of(self.tags@),
            due_date: due_date_of(self.due_date@),
            priority: self.priority,
            completed: false,
        }
    }
}

/// `i` held within the positions of a list of `len` tasks; 0 when it is empty.
pub open spec fn clamp(i: int, len: int) -> int {
    if len <= 0 || i < 0 {
        0
    } else if i >= len {
        len - 1
    } else {
        i
    }
}

/// The state of an interactive session: the tab on screen, the selected
/// position in it, the mode, the form, and whether the session goes on.
pub struct Controller {
    pub tab: Tab,
    pub selected: usize,
    pub mode: Mode,
    pub draft: Draft,
    pub running: bool,
}

/// The store is as it was.
pub open spec fn store_same(a: &AppState, b: &AppState) -> bool {
    &&& a.active_view() == b.active_view()
    &&& a.archive_view() == b.archive_view()
    &&& a.pending() == b.pending()
}

impl Controller {
    /// A session that starts browsing the active list.
    pub fn new() -> (r: Controller)
        ensures
            r.tab == Tab::Active,
            r.selected == 0,
            r.mode == Mode::Browse,
            r.draft.is_empty(),
            r.running,
    {
        Controller {
            tab: Tab::Active,
            selected: 0,
            mode: Mode::Browse,
            draft: Draft::new(),
            running: true,
        }
    }

    /// The length of the list on screen, as a value.
    pub open spec fn spec_visible_len(&self, state: &AppState) -> int {
        match self.tab {
            Tab::Active => state.tasks.len() as int,
            Tab::Archived => state.archived.len() as int,
        }
    }

    /// The length of the list on screen.
    pub fn visible_len(&self, state: &AppState) -> (r: usize)
        ensures
            r == self.spec_visible_len(state),
    {
        match self.tab {
            Tab::Active => state.tasks.len(),
            Tab::Archived => state.archived.len(),
        }
    }

    /// The event a key press stands for in the current mode, if any.
    pub fn decode_key(&self, key: Key) -> (r: Option<Event>)
        ensures
            r == decoded(self.mode, key),
    {
        match self.mode {
            Mode::Browse => match key {
                Key::Char(c) => if c == 'j' {
                    Some(Event::MoveDown)
                } else if c == 'k' {
                    Some(Event::MoveUp)
                } else if c == 'h' {
                    Some(Event::SwitchTabLeft)
                } else if c == 'l' {
                    Some(Event::SwitchTabRight)
                } else if c == 'd' {
                    Some(Event::DeleteCurrent)
                } else if c == 'D' {
                    Some(Event::MarkDone)
                } else if c == 'a' {
                    Some(Event::AddTrigger)
                } else if c == 'r' {
                    Some(Event::ArchiveTrigger)
                } else if c == 'q' {
                    Some(Event::Quit)
                } else {
                    None
                },
                Key::Down => Some(Event::MoveDown),
                Key::Up => Some(Event::MoveUp),
                _ => None,
            },
            Mode::Compose(step) => match key {
                Key::Enter => Some(Event::Confirm),
                Key::Esc => Some(Event::Cancel),
                Key::Backspace => Some(Event::Backspace),
                Key::Char(c) => if step == Step::Priority && c == '1' {
                    Some(Event::SelectPriority(Priority::Low))
                } else if step == Step::Priority && c == '2' {
                    Some(Event::SelectPriority(Priority::Medium))
                } else if step == Step::Priority && c == '3' {
                    Some(Event::SelectPriority(Priority::High))
                } else {
                    Some(Event::Char(c))
                },
                _ => None,
            },
        }
    }
}

/// The step that follows `step` in the form; the last one has none.
pub open spec fn next_step(step: Step) -> Step {
    match step {
        Step::Description => Step::Tags,
        Step::Tags => Step::DueDate,
        _ => Step::Priority,
    }
}

/// The selected position before it is held within the list: one up, one
/// down, the top after a change of tab, else where it was.
pub open spec fn moved_selection(selected: int, event: Event) -> int {
    match event {
        Event::MoveUp => selected - 1,
        Event::MoveDown => selected + 1,
        Event::SwitchTabLeft | Event::SwitchTabRight => 0,
        _ => selected,
    }
}

impl Controller {
    /// Holds the selection within the list on screen.
    fn clamp_selection(&mut self, state: &AppState, raw: usize, down: bool)
        ensures
            final(self).tab == old(self).tab,
            final(self).mode == old(self).mode,
            final(self).draft == old(self).draft,
            final(self).running == old(self).running,
            final(self).selected == clamp(
                if down {
                    raw + 1
                } else {
                    raw as int
                },
                final(self).spec_visible_len(state),
            ),
    {
        let len = self.visible_len(state);
        if len == 0 {
            self.selected = 0;
        } else if raw >= len - 1 {
            self.selected = len - 1;
        } else if down {
            self.selected = raw + 1;
        } else {
            self.selected = raw;
        }
    }

    /// One event while browsing.
    pub fn handle_browse(&mut self, state: &mut AppState, event: Event)
        requires
            old(self).mode == Mode::Browse,
            old(state).wf(),
        ensures
            browse_step(&*old(self), &*old(state), &*final(self), &*final(state), event),
    {
        let on_task = self.tab == Tab::Active && self.selected < state.tasks.len();
        let sel = self.selected;
        match event {
            Event::MoveUp => {
                if sel == 0 {
                    self.clamp_selection(state, 0, false);
                } else {
                    self.clamp_selection(state, sel - 1, false);
                }
            },
            Event::MoveDown => {
                self.clamp_selection(state, sel, true);
            },
            Event::SwitchTabLeft => {
                self.tab = Tab::Active;
                self.clamp_selection(state, 0, false);
            },
            Event::SwitchTabRight => {
                self.tab = Tab::Archived;
                self.clamp_selection(state, 0, false);
            },
            Event::DeleteCurrent => {
                if on_task {
                    proof {
                        assert(state.active_view()[sel as int].id == sel + 1);
                    }
                    let _ = state.delete((sel + 1) as u32);
                }
                self.clamp_selection(state, sel, false);
            },
            Event::MarkDone => {
                if on_task {
                    let _ = state.mark_done((sel + 1) as u32);
                }
                self.clamp_selection(state, sel, false);
            },
            Event::AddTrigger => {
                self.mode = Mode::Compose(Step::Description);
                self.draft = Draft::new();
                self.clamp_selection(state, sel, false);
            },
            Event::ArchiveTrigger => {
                let _ = state.archive();
                self.clamp_selection(state, sel, false);
            },
            Event::Quit => {
                self.running = false;
                self.clamp_selection(state, sel, false);
            },
            _ => {
                self.clamp_selection(state, sel, false);
            },
        }
    }
}

impl Controller {
    /// One event while the form is at `step`.
    pub fn handle_compose(&mut self, state: &mut AppState, step: Step, event: Event)
        requires
            old(self).mode == Mode::Compose(step),
            old(state).wf(),
            step == Step::Priority && event == Event::Confirm ==> old(state).total() + 1
                < u32::MAX,
        ensures
            compose_step(&*old(self), &*old(state), &*final(self), &*final(state), step, event),
    {
        let sel = self.selected;
        match event {
            Event::Confirm => {
                match step {
                    Step::Description => {
                        self.mode = Mode::Compose(Step::Tags);
                    },
                    Step::Tags => {
                        self.mode = Mode::Compose(Step::DueDate);
                    },
                    Step::DueDate => {
                        self.mode = Mode::Compose(Step::Priority);
                    },
                    Step::Priority => {
                        let tags = read_tags(&self.draft.tags);
                        let due = read_due_date(&self.draft.due_date);
                        let _ = state.add(
                            self.draft.description.clone(),
                            tags,
                            due,
                            self.draft.priority,
                        );
                        self.mode = Mode::Browse;
                    },
                }
            },
            Event::Cancel => {
                self.mode = Mode::Browse;
                self.draft = Draft::new();
            },
            Event::Char(c) => {
                match step {
                    Step::Description => self.draft.description.push(c),
                    Step::Tags => self.draft.tags.push(c),
                    Step::DueDate => self.draft.due_date.push(c),
                    Step::Priority => {},
                }
            },
            Event::Backspace => {
                match step {
                    Step::Description => {
                        let _ = self.draft.description.pop();
                    },
                    Step::Tags => {
                        let _ = self.draft.tags.pop();
                    },
                    Step::DueDate => {
                        let _ = self.draft.due_date.pop();
                    },
                    Step::Priority => {},
                }
            },
            Event::SelectPriority(p) => {
                if step == Step::Priority {
                    self.draft.priority = p;
                }
            },
            _ => {},
        }
        self.clamp_selection(state, sel, false);
    }

    /// One event: a step of the session's state machine. At most one change
    /// of the store is made, through the store's own operations.
    pub fn handle(&mut self, state: &mut AppState, event: Event)
        requires
            old(state).wf(),
            old(self).mode == Mode::Compose(Step::Priority) && event == Event::Confirm
                ==> old(state).total() + 1 < u32::MAX,
        ensures
            final(state).wf(),
            old(self).mode == Mode::Browse ==> browse_step(
                &*old(self),
                &*old(state),
                &*final(self),
                &*final(state),
                event,
            ),
            old(self).mode matches Mode::Compose(step) ==> compose_step(
                &*old(self),
                &*old(state),
                &*final(self),
                &*final(state),
                step,
                event,
            ),
    {
        match self.mode {
            Mode::Browse => self.handle_browse(state, event),
            Mode::Compose(step) => self.handle_compose(state, step, event),
        }
    }
}

/// What one event does while browsing: `c0` and `s0` before, `c1` and `s1`
/// after.
pub open spec fn browse_step(
    c0: &Controller,
    s0: &AppState,
    c1: &Controller,
    s1: &AppState,
    event: Event,
) -> bool {
    let sel = c0.selected as int;
    let on_task = c0.tab == Tab::Active && sel < s0.tasks.len();
    let a = s0.active_view();
    &&& s1.wf()
    &&& c1.running == (c0.running && event != Event::Quit)
    &&& c1.tab == match event {
        Event::SwitchTabLeft => Tab::Active,
        Event::SwitchTabRight => Tab::Archived,
        _ => c0.tab,
    }
    &&& c1.selected == clamp(moved_selection(sel, event), c1.spec_visible_len(s1))
    &&& event == Event::AddTrigger ==> c1.mode == Mode::Compose(Step::Description)
        && c1.draft.is_empty()
    &&& event != Event::AddTrigger ==> c1.mode == Mode::Browse && c1.draft == c0.draft
    &&& if event == Event::DeleteCurrent && on_task {
        &&& s1.active_view() == renumbered(a.remove(sel))
        &&& s1.archive_view() == s0.archive_view()
        &&& s1.pending() == Some(ActionView::Delete(a[sel]))
    } else if event == Event::MarkDone && on_task {
        &&& s1.active_view() == a.update(sel, a[sel].with_completed(true))
        &&& s1.archive_view() == s0.archive_view()
        &&& s1.pending() == Some(ActionView::Done((sel + 1) as u32))
    } else if event == Event::ArchiveTrigger {
        &&& s1.active_view() == renumbered(a.filter(open_pred()))
        &&& s1.archive_view() == renumbered(s0.archive_view() + a.filter(done_pred()))
        &&& s1.pending() == Some(ActionView::Archive(a.filter(done_pred()).len() as usize))
    } else {
        store_same(s1, s0)
    }
}

/// What one event does while the form is at `step`: `c0` and `s0` before,
/// `c1` and `s1` after. Confirming the last step adds the task the form
/// describes.
pub open spec fn compose_step(
    c0: &Controller,
    s0: &AppState,
    c1: &Controller,
    s1: &AppState,
    step: Step,
    event: Event,
) -> bool {
    let finish = step == Step::Priority && event == Event::Confirm;
    let t = c0.draft.task_view(s0.tasks.len() as int);
    &&& s1.wf()
    &&& c1.running == c0.running
    &&& c1.tab == c0.tab
    &&& c1.selected == clamp(c0.selected as int, c1.spec_visible_len(s1))
    &&& finish ==> {
        &&& c1.mode == Mode::Browse
        &&& c1.draft == c0.draft
        &&& s1.active_view() == s0.active_view().push(t)
        &&& s1.archive_view() == s0.archive_view()
        &&& s1.pending() == Some(ActionView::Add(t))
    }
    &&& !finish ==> store_same(s1, s0)
    &&& step != Step::Priority && event == Event::Confirm ==> c1.mode == Mode::Compose(
        next_step(step),
    ) && c1.draft == c0.draft
    &&& event == Event::Cancel ==> c1.mode == Mode::Browse && c1.draft.is_empty()
    &&& event matches Event::Char(c) ==> {
        &&& c1.mode == c0.mode
        &&& c1.draft.same_but(&c0.draft, step)
        &&& c1.draft.priority == c0.draft.priority
        &&& c1.draft.buffer(step) == if step == Step::Priority {
            c0.draft.buffer(step)
        } else {
            c0.draft.buffer(step).push(c)
        }
    }
    &&& event == Event::Backspace ==> {
        &&& c1.mode == c0.mode
        &&& c1.draft.same_but(&c0.draft, step)
        &&& c1.draft.priority == c0.draft.priority
        &&& c1.draft.buffer(step) == if c0.draft.buffer(step).len() == 0 {
            c0.draft.buffer(step)
        } else {
            c0.draft.buffer(step).drop_last()
        }
    }
    &&& event matches Event::SelectPriority(p) ==> {
        &&& c1.mode == c0.mode
        &&& c1.draft.same_but(&c0.draft, Step::Priority)
        &&& c1.draft.priority == if step == Step::Priority {
            p
        } else {
            c0.draft.priority
        }
    }
    &&& !(event is Confirm || event is Cancel || event is Char || event is Backspace
        || event is SelectPriority) ==> c1.mode == c0.mode && c1.draft == c0.draft
}

} // verus!
