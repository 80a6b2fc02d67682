//! What a key press does, whichever overlay is up.
use vstd::prelude::*;

use crate::app::{
    delta_fits, inspect_requests, jumped_to_end, jumped_to_start, key_action, move_requests,
    moved, prompt_text, request_views, scrolled, selections_fit, status_is, submit_post, App,
    KeyCode, KeyEvent, Request, RequestView,
};
use crate::model::{focus_after, focus_before, Action, HookPhase, PromptState};
use crate::setup::{
    install_key_fits, picker_key_fits, picker_key_post, push_post, push_request,
    run_hooks_post, treefmt_key_post,
};
use crate::text::{drop_last_char, push_char, views};
use crate::hooks::TREEFMT_INSTALL_METHOD_COUNT;

verus! {

/// The state that key handling relies on: every selection and list length
/// fits `isize`, the picker's cursor is within its rows, and the treefmt
/// install cursor names one of the install methods.
pub open spec fn app_wf(a: App) -> bool {
    &&& selections_fit(a)
    &&& a.tool_picker matches Some(p) ==> p.cursor <= p.rows@.len()
    &&& a.treefmt_install_picker matches Some(s) ==> s.cursor < TREEFMT_INSTALL_METHOD_COUNT
}

/// The state can take the key where it goes: the overlay or picker that is
/// up, or, for a key that moves the selection in the main view, lists and
/// selections that fit `isize`.
pub open spec fn key_fits(a: App, key: KeyEvent) -> bool {
    match a.hook_phase {
        Some(_) => true,
        None => match a.treefmt_install_picker {
            Some(s) => install_key_fits(s, key),
            None => match a.tool_picker {
                Some(p) => picker_key_fits(p, key),
                None => a.prompt is Some || (key_action(key.code) matches Some(
                    Action::MoveSelection(_),
                ) ==> selections_fit(a)),
            },
        },
    }
}

/// What the action does: whether the interface quits, and the requests.
pub open spec fn dispatch_post(
    old: App,
    new: App,
    action: Action,
    quit: bool,
    reqs: Seq<RequestView>,
) -> bool {
    &&& quit == (action is Quit)
    &&& match action {
        Action::Quit => new == old && reqs.len() == 0,
        Action::ToggleHelp => new == (App { show_help: !old.show_help, ..old }) && reqs.len() == 0,
        Action::FocusNext => new == (App { focus: focus_after(old.focus), ..old }) && reqs.len() == 0,
        Action::FocusPrevious => new == (App { focus: focus_before(old.focus), ..old }) && reqs.len()
            == 0,
        Action::SetFocus(f) => new == (App { focus: f, ..old }) && reqs.len() == 0,
        Action::Refresh => new == old && reqs == seq![RequestView::Refresh],
        Action::InspectCurrent => new == old && reqs == inspect_requests(old),
        Action::MoveSelection(d) => new == moved(old, d) && reqs == move_requests(old, new),
        Action::ScrollDiff(d) => new == (App { diff_scroll: scrolled(old.diff_scroll, d), ..old })
            && reqs.len() == 0,
        Action::JumpToStart => new == jumped_to_start(old) && reqs.len() == 0,
        Action::JumpToEnd => new == jumped_to_end(old) && reqs.len() == 0,
        Action::OpenPrompt(kind) => {
            &&& new == (App { prompt: new.prompt, ..old })
            &&& new.prompt matches Some(p) && p.kind == kind && (p.title@, p.placeholder@, p.value@)
                == prompt_text(old, kind)
            &&& reqs.len() == 0
        },
        Action::Undo => new == old && reqs == seq![
            RequestView::Mutate { args: seq!["undo"@], label: "undo last operation"@, undo: true },
        ],
        Action::Push => push_post(old, new, reqs),
        Action::Fetch => new == old && reqs == seq![RequestView::Fetch],
        Action::RunHooks => run_hooks_post(old, new, reqs),
    }
}

/// `new` is `old` with the open prompt's value changed to `value`.
pub open spec fn prompt_edited(old: App, new: App, value: Seq<char>) -> bool {
    &&& new == (App { prompt: new.prompt, ..old })
    &&& old.prompt matches Some(p) && new.prompt matches Some(q) && q.kind == p.kind && q.title
        == p.title && q.placeholder == p.placeholder && q.value@ == value
}

/// What a key does while a prompt is open: Esc closes it, Enter submits it,
/// Backspace deletes the last character, and a character typed without
/// Control is added.
pub open spec fn prompt_key_post(old: App, new: App, key: KeyEvent, reqs: Seq<RequestView>) -> bool {
    match old.prompt {
        None => new == old && reqs.len() == 0,
        Some(p) => match key.code {
            KeyCode::Esc => new == (App { prompt: None, ..old }) && reqs.len() == 0,
            KeyCode::Enter => submit_post(old, new, reqs),
            KeyCode::Backspace => prompt_edited(
                old,
                new,
                if p.value@.len() > 0 {
                    p.value@.drop_last()
                } else {
                    p.value@
                },
            ) && reqs.len() == 0,
            KeyCode::Char(c) => if !key.ctrl {
                prompt_edited(old, new, p.value@.push(c)) && reqs.len() == 0
            } else {
                new == old && reqs.len() == 0
            },
            _ => new == old && reqs.len() == 0,
        },
    }
}

/// What a key does: the hook overlay takes it first, then the treefmt install
/// methods, then the tool picker, then an open prompt; otherwise it stands for
/// an action of the main view, or for nothing.
pub open spec fn key_post(old: App, new: App, key: KeyEvent, quit: bool, reqs: Seq<RequestView>) -> bool {
    match old.hook_phase {
        Some(HookPhase::Running { .. }) => match key.code {
            KeyCode::Char('q') => quit && new == old && reqs.len() == 0,
            KeyCode::Esc => {
                &&& !quit
                &&& new == (App {
                    hooks_running: false,
                    hook_phase: None,
                    push_after_hooks: false,
                    status_message: new.status_message,
                    ..old
                })
                &&& status_is(new, "Hooks cancelled"@)
                &&& reqs == seq![RequestView::StopHooks]
            },
            _ => !quit && new == old && reqs.len() == 0,
        },
        Some(HookPhase::Passed { .. }) => !quit && if old.push_after_hooks {
            new == (App { hook_phase: None, push_after_hooks: false, ..old }) && reqs == seq![
                push_request(old),
            ]
        } else {
            &&& new == (App { hook_phase: None, status_message: new.status_message, ..old })
            &&& status_is(new, "\u{2713} All hooks passed"@)
            &&& reqs.len() == 0
        },
        Some(HookPhase::Failed { .. }) => match key.code {
            KeyCode::Char('q') => quit && new == old && reqs.len() == 0,
            KeyCode::Esc | KeyCode::Enter => !quit && new == (App { hook_phase: None, ..old })
                && reqs.len() == 0,
            _ => !quit && new == old && reqs.len() == 0,
        },
        None => if old.treefmt_install_picker is Some {
            !quit && treefmt_key_post(old, new, key) && reqs.len() == 0
        } else if old.tool_picker is Some {
            !quit && picker_key_post(old, new, key, reqs)
        } else if old.prompt is Some {
            !quit && prompt_key_post(old, new, key, reqs)
        } else {
            match key_action(key.code) {
                Some(a) => dispatch_post(old, new, a, quit, reqs),
                None => !quit && new == old && reqs.len() == 0,
            }
        },
    }
}

fn no_requests() -> (reqs: Vec<Request>)
    ensures
        request_views(reqs@) == Seq::<RequestView>::empty(),
{
    let reqs: Vec<Request> = Vec::new();
    proof {
        assert(request_views(reqs@) =~= Seq::<RequestView>::empty());
    }
    reqs
}

fn one_request(r: Request) -> (reqs: Vec<Request>)
    ensures
        request_views(reqs@) == seq![crate::app::request_view(r)],
{
    let mut reqs: Vec<Request> = Vec::new();
    reqs.push(r);
    proof {
        assert(request_views(reqs@) =~= seq![crate::app::request_view(r)]);
    }
    reqs
}

impl App {
    /// Whether the state is one that key handling relies on (see `app_wf`).
    pub fn well_formed(&self) -> (r: bool)
        ensures
            r == app_wf(*self),
    {
        let max: usize = isize::MAX as usize;
        let lists = self.files.len() <= max && self.file_index < max && self.revisions.len() <= max
            && self.revision_index < max && self.bookmarks.len() <= max && self.bookmark_index < max
            && self.operations.len() <= max && self.operation_index < max;
        let picker = match &self.tool_picker {
            Some(p) => p.cursor <= p.rows.len(),
            None => true,
        };
        let install = match &self.treefmt_install_picker {
            Some(s) => s.cursor < TREEFMT_INSTALL_METHOD_COUNT,
            None => true,
        };
        lists && picker && install
    }

    /// Whether the state can take `key` (see `key_fits`).
    pub fn accepts_key(&self, key: KeyEvent) -> (r: bool)
        ensures
            r == key_fits(*self, key),
    {
        if self.hook_phase.is_some() {
            return true;
        }
        if let Some(s) = &self.treefmt_install_picker {
            return match key.code {
                KeyCode::Enter => s.cursor < TREEFMT_INSTALL_METHOD_COUNT,
                KeyCode::Char('j') | KeyCode::Down => s.cursor < usize::MAX,
                _ => true,
            };
        }
        if let Some(p) = &self.tool_picker {
            return match key.code {
                KeyCode::Char('k') | KeyCode::Up => p.cursor <= p.rows.len(),
                KeyCode::Char('j') | KeyCode::Down => p.cursor < usize::MAX,
                _ => true,
            };
        }
        if self.prompt.is_some() {
            return true;
        }
        match self.action_for_key(key) {
            Some(Action::MoveSelection(_)) => {
                let max: usize = isize::MAX as usize;
                self.files.len() <= max && self.file_index < max && self.revisions.len() <= max
                    && self.revision_index < max && self.bookmarks.len() <= max
                    && self.bookmark_index < max && self.operations.len() <= max
                    && self.operation_index < max
            },
            _ => true,
        }
    }

    /// Carries out an action of the main view; the result says whether to quit.
    pub fn dispatch(&mut self, action: Action) -> (r: (bool, Vec<Request>))
        requires
            action matches Action::MoveSelection(d) ==> selections_fit(*old(self)) && delta_fits(
                *old(self),
                d,
            ),
        ensures
            dispatch_post(*old(self), *final(self), action, r.0, request_views(r.1@)),
    {
        match action {
            Action::Quit => (true, no_requests()),
            Action::ToggleHelp => {
                self.show_help = !self.show_help;
                (false, no_requests())
            },
            Action::FocusNext => {
                self.focus = self.focus.next();
                (false, no_requests())
            },
            Action::FocusPrevious => {
                self.focus = self.focus.previous();
                (false, no_requests())
            },
            Action::SetFocus(f) => {
                self.focus = f;
                (false, no_requests())
            },
            Action::Refresh => (false, one_request(Request::Refresh)),
            Action::InspectCurrent => (false, self.inspect_current()),
            Action::MoveSelection(d) => (false, self.move_selection(d)),
            Action::ScrollDiff(d) => {
                self.scroll_diff(d);
                (false, no_requests())
            },
            Action::JumpToStart => {
                self.jump_to_start();
                (false, no_requests())
            },
            Action::JumpToEnd => {
                self.jump_to_end();
                (false, no_requests())
            },
            Action::OpenPrompt(kind) => {
                self.open_prompt_for(kind);
                (false, no_requests())
            },
            Action::Undo => {
                let mut args: Vec<String> = Vec::new();
                args.push(String::from_str("undo"));
                proof {
                    assert(views(args@) =~= seq!["undo"@]);
                }
                let r = Request::Mutate {
                    args,
                    label: String::from_str("undo last operation"),
                    undo: true,
                };
                (false, one_request(r))
            },
            Action::Push => (false, self.push()),
            Action::Fetch => (false, one_request(Request::Fetch)),
            Action::RunHooks => (false, self.run_hooks_only()),
        }
    }

    /// Handles a key press; the result says whether to quit, and what to do.
    pub fn on_key(&mut self, key: KeyEvent) -> (r: (bool, Vec<Request>))
        requires
            key_fits(*old(self), key),
        ensures
            key_post(*old(self), *final(self), key, r.0, request_views(r.1@)),
            app_wf(*old(self)) ==> app_wf(*final(self)),
    {
        let phase = match &self.hook_phase {
            Some(HookPhase::Running { .. }) => 0u8,
            Some(HookPhase::Passed { .. }) => 1u8,
            Some(HookPhase::Failed { .. }) => 2u8,
            None => 3u8,
        };
        if phase == 0 {
            return match key.code {
                KeyCode::Char('q') => (true, no_requests()),
                KeyCode::Esc => {
                    self.hooks_running = false;
                    self.hook_phase = None;
                    self.push_after_hooks = false;
                    self.status_message = Some(String::from_str("Hooks cancelled"));
                    (false, one_request(Request::StopHooks))
                },
                _ => (false, no_requests()),
            };
        }
        if phase == 1 {
            self.hook_phase = None;
            if self.push_after_hooks {
                self.push_after_hooks = false;
                let r = match self.selected_bookmark() {
                    Some(b) => Request::Push { bookmark: Some(b.name.clone()) },
                    None => Request::Push { bookmark: None },
                };
                return (false, one_request(r));
            } else {
                self.status_message = Some(String::from_str("\u{2713} All hooks passed"));
                return (false, no_requests());
            }
        }
        if phase == 2 {
            return match key.code {
                KeyCode::Char('q') => (true, no_requests()),
                KeyCode::Esc | KeyCode::Enter => {
                    self.hook_phase = None;
                    (false, no_requests())
                },
                _ => (false, no_requests()),
            };
        }
        if self.treefmt_install_picker.is_some() {
            self.on_treefmt_install_key(key);
            return (false, no_requests());
        }
        if self.tool_picker.is_some() {
            return (false, self.on_picker_key(key));
        }
        if self.prompt.is_some() {
            return (false, self.on_prompt_key(key));
        }
        match self.action_for_key(key) {
            Some(action) => self.dispatch(action),
            None => (false, no_requests()),
        }
    }

    /// Handles a key while a prompt is open.
    fn on_prompt_key(&mut self, key: KeyEvent) -> (reqs: Vec<Request>)
        ensures
            prompt_key_post(*old(self), *final(self), key, request_views(reqs@)),
    {
        let p = match self.prompt.take() {
            Some(p) => p,
            None => {
                return no_requests();
            },
        };
        match key.code {
            KeyCode::Esc => no_requests(),
            KeyCode::Enter => {
                self.prompt = Some(p);
                self.submit_prompt()
            },
            KeyCode::Backspace => {
                let PromptState { title, value, placeholder, kind } = p;
                let value = drop_last_char(&value);
                self.prompt = Some(PromptState { title, value, placeholder, kind });
                no_requests()
            },
            KeyCode::Char(c) => {
                if !key.ctrl {
                    let PromptState { title, value, placeholder, kind } = p;
                    let mut value = value;
                    push_char(&mut value, c);
                    self.prompt = Some(PromptState { title, value, placeholder, kind });
                } else {
                    self.prompt = Some(p);
                }
                no_requests()
            },
            _ => {
                self.prompt = Some(p);
                no_requests()
            },
        }
    }
}

} // verus!
