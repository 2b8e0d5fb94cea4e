//! Keyboard handling of the terminal prompt: what a key press does to the
//! composer, the input history and the transcript scroll, while the agent is
//! idle and while it runs (when a message can steer it).
use crate::composer::{
    backspaced, deleted, emptied, holding, inserted, moved_end, moved_home, moved_left,
    moved_right, Composer, ComposerView,
};
use crate::text::{is_ws, str_chars, trim, chars_string, char_is_whitespace, trim_chars};
use vstd::prelude::*;

verus! {

/// Rows the transcript moves on Page Up / Page Down.
pub const PAGE_SCROLL_LINES: u16 = 8;

/// Rows the transcript or composer moves on one mouse wheel step.
pub const MOUSE_SCROLL_LINES: u16 = 3;

/// The key of a key press.
#[derive(Debug, Clone, Copy, PartialEq, Eq, Structural)]
pub enum KeyCode {
    Char(char),
    Enter,
    Esc,
    Backspace,
    Delete,
    Left,
    Right,
    Home,
    End,
    Up,
    Down,
    PageUp,
    PageDown,
    F(u8),
    Other,
}

/// The modifier keys held during a key press.
#[derive(Debug, Clone, Copy, PartialEq, Eq, Structural)]
pub struct KeyModifiers {
    pub control: bool,
    pub shift: bool,
    pub alt: bool,
}

/// What a key press asks of an idle prompt.
#[derive(Debug, PartialEq, Eq)]
pub enum PromptAction {
    Submit(String),
    Exit,
}

/// What a key press asks while the agent runs.
#[derive(Debug, PartialEq, Eq)]
pub enum RunningAction {
    Nothing,
    Interrupt,
    Steer(String),
    InvalidSteer,
}

/// A prompt action with its text taken by its characters.
pub enum PromptOutcome {
    Submit(Seq<char>),
    Exit,
}

/// A running action with its text taken by its characters.
pub enum RunningOutcome {
    Nothing,
    Interrupt,
    Steer(Seq<char>),
    InvalidSteer,
}

/// The outcome a prompt action stands for.
pub open spec fn prompt_outcome(a: Option<PromptAction>) -> Option<PromptOutcome> {
    match a {
        Some(PromptAction::Submit(s)) => Some(PromptOutcome::Submit(s@)),
        Some(PromptAction::Exit) => Some(PromptOutcome::Exit),
        None => None,
    }
}

/// The outcome a running action stands for.
pub open spec fn running_outcome(a: RunningAction) -> RunningOutcome {
    match a {
        RunningAction::Nothing => RunningOutcome::Nothing,
        RunningAction::Interrupt => RunningOutcome::Interrupt,
        RunningAction::Steer(s) => RunningOutcome::Steer(s@),
        RunningAction::InvalidSteer => RunningOutcome::InvalidSteer,
    }
}

/// The characters of `/steer`.
pub open spec fn steer_prefix() -> Seq<char> {
    seq!['/', 's', 't', 'e', 'e', 'r']
}

/// The message of a steer command: `/steer`, then whitespace, then a text that
/// is not blank once trimmed.
pub open spec fn steer_content(s: Seq<char>) -> Option<Seq<char>> {
    if s.len() > 6 && s.take(6) == steer_prefix() && is_ws(s[6]) && trim(s.skip(6)).len() > 0 {
        Some(trim(s.skip(6)))
    } else {
        None
    }
}

/// Reads a steer command.
pub fn parse_steer(input: &str) -> (r: Option<String>)
    ensures
        match steer_content(input@) {
            Some(c) => r matches Some(m) && m@ == c,
            None => r is None,
        },
{
    let v = str_chars(input);
    if v.len() <= 6 || v[0] != '/' || v[1] != 's' || v[2] != 't' || v[3] != 'e' || v[4] != 'e'
        || v[5] != 'r' {
        proof {
            if v@.len() > 6 && v@.take(6) == steer_prefix() {
                assert(v@[0] == v@.take(6)[0]);
                assert(v@[1] == v@.take(6)[1]);
                assert(v@[2] == v@.take(6)[2]);
                assert(v@[3] == v@.take(6)[3]);
                assert(v@[4] == v@.take(6)[4]);
                assert(v@[5] == v@.take(6)[5]);
            }
        }
        return None;
    }
    assert(v@.take(6) =~= steer_prefix());
    if !char_is_whitespace(v[6]) {
        return None;
    }
    let rest = crate::text::slice_range(&v, 6, v.len());
    assert(rest@ =~= v@.skip(6));
    let content = trim_chars(&rest);
    if content.len() == 0 {
        None
    } else {
        Some(chars_string(&content))
    }
}

/// The composer after an editing key, or `None` when the key does not edit:
/// Ctrl+J and Shift/Alt+Enter break the line, a plain character is typed,
/// and Backspace, Delete, the arrows, Home and End edit or move.
pub open spec fn edited(v: ComposerView, code: KeyCode, m: KeyModifiers) -> Option<ComposerView> {
    match code {
        KeyCode::Char(c) => if m.control && c == 'j' {
            Some(inserted(v, seq!['\n']))
        } else if !m.control && !m.alt {
            Some(inserted(v, seq![c]))
        } else {
            None
        },
        KeyCode::Enter => if m.shift || m.alt {
            Some(inserted(v, seq!['\n']))
        } else {
            None
        },
        KeyCode::Backspace => Some(backspaced(v)),
        KeyCode::Delete => Some(deleted(v)),
        KeyCode::Left => Some(moved_left(v)),
        KeyCode::Right => Some(moved_right(v)),
        KeyCode::Home => Some(moved_home(v)),
        KeyCode::End => Some(moved_end(v)),
        _ => None,
    }
}

/// `a + b`, capped at `u16::MAX`.
pub open spec fn add_capped(a: nat, b: nat) -> nat {
    if a + b > u16::MAX {
        u16::MAX as nat
    } else {
        a + b
    }
}

/// `a - b`, floored at zero.
pub open spec fn sub_floored(a: nat, b: nat) -> nat {
    if a >= b {
        (a - b) as nat
    } else {
        0
    }
}

/// The abstract state of the prompt.
pub struct PromptView {
    pub composer: ComposerView,
    /// Submitted inputs, oldest first.
    pub history: Seq<Seq<char>>,
    /// The history entry being shown, if any.
    pub index: Option<nat>,
    /// What was typed before the history was entered.
    pub draft: Seq<char>,
    /// How many rows the transcript is scrolled back from its end.
    pub scroll_from_bottom: nat,
}

/// The prompt's editable state: the composer, the input history and the
/// transcript scroll offset.
pub struct PromptEditor {
    composer: Composer,
    history: Vec<String>,
    history_index: Option<usize>,
    history_draft: String,
    scroll_from_bottom: u16,
}

/// The history as texts.
pub open spec fn history_texts(h: Seq<String>) -> Seq<Seq<char>> {
    h.map_values(|s: String| s@)
}

impl View for PromptEditor {
    type V = PromptView;

    closed spec fn view(&self) -> PromptView {
        PromptView {
            composer: self.composer@,
            history: history_texts(self.history@),
            index: match self.history_index {
                Some(i) => Some(i as nat),
                None => None,
            },
            draft: self.history_draft@,
            scroll_from_bottom: self.scroll_from_bottom as nat,
        }
    }
}

/// The prompt state after history navigation (Up when `older`, else Down).
pub open spec fn navigated(p: PromptView, older: bool) -> PromptView {
    if p.history.len() == 0 {
        p
    } else if older {
        let (next, draft) = match p.index {
            Some(i) => (if i == 0 {
                0
            } else {
                (i - 1) as nat
            }, p.draft),
            None => ((p.history.len() - 1) as nat, p.composer.text),
        };
        PromptView {
            composer: holding(p.history[next as int]),
            index: Some(next),
            draft: draft,
            ..p
        }
    } else {
        match p.index {
            Some(i) => if i + 1 < p.history.len() {
                PromptView { composer: holding(p.history[(i + 1) as int]), index: Some((i + 1) as nat), ..p }
            } else {
                PromptView { composer: holding(p.draft), index: None, draft: Seq::empty(), ..p }
            },
            None => p,
        }
    }
}

/// The history after `input` is submitted: it is appended unless it repeats
/// the latest entry.
pub open spec fn recorded(history: Seq<Seq<char>>, input: Seq<char>) -> Seq<Seq<char>> {
    if history.len() > 0 && history.last() == input {
        history
    } else {
        history.push(input)
    }
}

/// The prompt after a key press, and the action it asks for.
pub open spec fn prompt_key(p: PromptView, code: KeyCode, m: KeyModifiers) -> (PromptView, Option<PromptOutcome>) {
    if code == KeyCode::Char('c') && m.control {
        (p, Some(PromptOutcome::Exit))
    } else if code == KeyCode::Char('d') && m.control && p.composer.text.len() == 0 {
        (p, Some(PromptOutcome::Exit))
    } else if code == KeyCode::Enter && !m.shift && !m.alt {
        let input = trim(p.composer.text);
        if input.len() > 0 {
            (
                PromptView {
                    composer: emptied(),
                    history: recorded(p.history, input),
                    index: None,
                    draft: Seq::empty(),
                    ..p
                },
                Some(PromptOutcome::Submit(input)),
            )
        } else {
            (PromptView { composer: emptied(), ..p }, None)
        }
    } else if edited(p.composer, code, m) is Some {
        (PromptView { composer: edited(p.composer, code, m)->0, ..p }, None)
    } else if code == KeyCode::Up && !p.composer.text.contains('\n') {
        (navigated(p, true), None)
    } else if code == KeyCode::Down && !p.composer.text.contains('\n') {
        (navigated(p, false), None)
    } else if code == KeyCode::PageUp {
        (PromptView { scroll_from_bottom: add_capped(p.scroll_from_bottom, PAGE_SCROLL_LINES as nat), ..p }, None)
    } else if code == KeyCode::PageDown {
        (PromptView { scroll_from_bottom: sub_floored(p.scroll_from_bottom, PAGE_SCROLL_LINES as nat), ..p }, None)
    } else {
        (p, None)
    }
}

/// The prompt after a key press while the agent runs, and what it asks for;
/// `can_steer` tells whether messages can be sent to the running agent.
pub open spec fn running_key(p: PromptView, code: KeyCode, m: KeyModifiers, can_steer: bool) -> (PromptView, RunningOutcome) {
    if code == KeyCode::Esc || (code == KeyCode::Char('c') && m.control) {
        (p, RunningOutcome::Interrupt)
    } else if code == KeyCode::PageUp {
        (PromptView { scroll_from_bottom: add_capped(p.scroll_from_bottom, PAGE_SCROLL_LINES as nat), ..p }, RunningOutcome::Nothing)
    } else if code == KeyCode::PageDown {
        (PromptView { scroll_from_bottom: sub_floored(p.scroll_from_bottom, PAGE_SCROLL_LINES as nat), ..p }, RunningOutcome::Nothing)
    } else if !can_steer {
        (p, RunningOutcome::Nothing)
    } else if code == KeyCode::Enter && !m.shift && !m.alt {
        let input = trim(p.composer.text);
        let p2 = PromptView { composer: emptied(), ..p };
        if input.len() == 0 {
            (p2, RunningOutcome::Nothing)
        } else if steer_content(input) is Some {
            (p2, RunningOutcome::Steer(steer_content(input)->0))
        } else {
            (p2, RunningOutcome::InvalidSteer)
        }
    } else if edited(p.composer, code, m) is Some {
        (PromptView { composer: edited(p.composer, code, m)->0, ..p }, RunningOutcome::Nothing)
    } else {
        (p, RunningOutcome::Nothing)
    }
}

impl PromptEditor {
    #[verifier::type_invariant]
    spec fn inv(self) -> bool {
        match self.history_index {
            Some(i) => i < self.history@.len(),
            None => true,
        }
    }

    /// Moves the composer out, leaving an empty one in its place.
    fn take_composer(&mut self) -> (c: Composer)
        ensures
            c@ == old(self)@.composer,
            final(self)@ == (PromptView { composer: emptied(), ..old(self)@ }),
            final(self).history@ == old(self).history@,
            final(self).history_index == old(self).history_index,
    {
        proof {
            use_type_invariant(&*self);
        }
        let mut c = Composer::new();
        std::mem::swap(&mut c, &mut self.composer);
        c
    }

    /// An empty prompt with no history.
    pub fn new() -> (r: PromptEditor)
        ensures
            r@ == (PromptView {
                composer: emptied(),
                history: Seq::empty(),
                index: None,
                draft: Seq::empty(),
                scroll_from_bottom: 0,
            }),
    {
        let r = PromptEditor {
            composer: Composer::new(),
            history: Vec::new(),
            history_index: None,
            history_draft: String::new(),
            scroll_from_bottom: 0,
        };
        assert(history_texts(r.history@) =~= Seq::<Seq<char>>::empty());
        r
    }

    /// The composer.
    pub fn composer(&self) -> (c: &Composer)
        ensures
            c@ == self@.composer,
    {
        &self.composer
    }

    /// Inserts pasted text at the composer's cursor.
    pub fn paste(&mut self, content: &str)
        ensures
            final(self)@ == (PromptView { composer: inserted(old(self)@.composer, content@), ..old(self)@ }),
    {
        proof {
            use_type_invariant(&*self);
        }
        let mut c = self.take_composer();
        c.insert(content);
        self.composer = c;
    }

    /// Rows the transcript is scrolled back from its end.
    pub fn scroll_from_bottom(&self) -> (r: u16)
        ensures
            r as nat == self@.scroll_from_bottom,
    {
        self.scroll_from_bottom
    }

    /// Scrolls the transcript back by `lines` rows.
    pub fn scroll_up(&mut self, lines: u16)
        ensures
            final(self)@ == (PromptView {
                scroll_from_bottom: add_capped(old(self)@.scroll_from_bottom, lines as nat),
                ..old(self)@
            }),
    {
        proof {
            use_type_invariant(&*self);
        }
        self.scroll_from_bottom = self.scroll_from_bottom.saturating_add(lines);
    }

    /// Scrolls the transcript forward by `lines` rows.
    pub fn scroll_down(&mut self, lines: u16)
        ensures
            final(self)@ == (PromptView {
                scroll_from_bottom: sub_floored(old(self)@.scroll_from_bottom, lines as nat),
                ..old(self)@
            }),
    {
        proof {
            use_type_invariant(&*self);
        }
        self.scroll_from_bottom = self.scroll_from_bottom.saturating_sub(lines);
    }

    /// Scrolls the composer's view back by `lines` rows, at most to `max_scroll`.
    pub fn scroll_composer_up(&mut self, lines: u16, max_scroll: u16)
        ensures
            final(self)@ == (PromptView {
                composer: ComposerView {
                    scroll_back: vstd::math::min(
                        vstd::math::min(old(self)@.composer.scroll_back + lines, u16::MAX as int),
                        max_scroll as int,
                    ) as nat,
                    ..old(self)@.composer
                },
                ..old(self)@
            }),
    {
        proof {
            use_type_invariant(&*self);
        }
        let mut c = self.take_composer();
        c.scroll_up(lines, max_scroll);
        self.composer = c;
    }

    /// Scrolls the composer's view forward by `lines` rows.
    pub fn scroll_composer_down(&mut self, lines: u16)
        ensures
            final(self)@ == (PromptView {
                composer: ComposerView {
                    scroll_back: vstd::math::max(old(self)@.composer.scroll_back - lines, 0) as nat,
                    ..old(self)@.composer
                },
                ..old(self)@
            }),
    {
        proof {
            use_type_invariant(&*self);
        }
        let mut c = self.take_composer();
        c.scroll_down(lines);
        self.composer = c;
    }

    /// Returns the transcript to its end.
    pub fn reset_scroll(&mut self)
        ensures
            final(self)@ == (PromptView { scroll_from_bottom: 0, ..old(self)@ }),
    {
        proof {
            use_type_invariant(&*self);
        }
        self.scroll_from_bottom = 0;
    }

    /// Applies an editing key to the composer; tells whether the key was one.
    fn edit(&mut self, code: KeyCode, m: KeyModifiers) -> (b: bool)
        ensures
            b == edited(old(self)@.composer, code, m) is Some,
            b ==> final(self)@ == (PromptView {
                composer: edited(old(self)@.composer, code, m)->0,
                ..old(self)@
            }),
            !b ==> final(self)@ == old(self)@,
    {
        proof {
            use_type_invariant(&*self);
        }
        match code {
            KeyCode::Char(c) => {
                if m.control && c == 'j' {
                    let one = chars_string(&['\n']);
                    assert(one@ =~= seq!['\n']);
                    let mut c = self.take_composer();
                    c.insert(one.as_str());
                    self.composer = c;
                    true
                } else if !m.control && !m.alt {
                    let one = chars_string(&[c]);
                    assert(one@ =~= seq![c]);
                    let mut c = self.take_composer();
        c.insert(one.as_str());
        self.composer = c;
                    true
                } else {
                    false
                }
            },
            KeyCode::Enter => {
                if m.shift || m.alt {
                    let one = chars_string(&['\n']);
                    assert(one@ =~= seq!['\n']);
                    let mut c = self.take_composer();
                    c.insert(one.as_str());
                    self.composer = c;
                    true
                } else {
                    false
                }
            },
            KeyCode::Backspace => {
                let mut c = self.take_composer();
        c.backspace();
        self.composer = c;
                true
            },
            KeyCode::Delete => {
                let mut c = self.take_composer();
        c.delete();
        self.composer = c;
                true
            },
            KeyCode::Left => {
                let mut c = self.take_composer();
        c.move_left();
        self.composer = c;
                true
            },
            KeyCode::Right => {
                let mut c = self.take_composer();
        c.move_right();
        self.composer = c;
                true
            },
            KeyCode::Home => {
                let mut c = self.take_composer();
        c.move_home();
        self.composer = c;
                true
            },
            KeyCode::End => {
                let mut c = self.take_composer();
        c.move_end();
        self.composer = c;
                true
            },
            _ => false,
        }
    }

    /// Steps through the input history: older entries with `older`, newer
    /// ones otherwise; past the newest entry the draft comes back.
    pub fn navigate_history(&mut self, older: bool)
        ensures
            final(self)@ == navigated(old(self)@, older),
    {
        proof {
            use_type_invariant(&*self);
        }
        if self.history.len() == 0 {
            return;
        }
        let next: usize;
        if older {
            match self.history_index {
                Some(i) => {
                    next = if i == 0 {
                        0
                    } else {
                        i - 1
                    };
                },
                None => {
                    self.history_draft = self.composer.text();
                    next = self.history.len() - 1;
                },
            }
        } else {
            match self.history_index {
                Some(i) => {
                    if i + 1 < self.history.len() {
                        next = i + 1;
                    } else {
                        self.history_index = None;
                        let draft = self.history_draft.clone();
                        self.history_draft = String::new();
                        let mut c = self.take_composer();
        c.replace_text(draft.as_str());
        self.composer = c;
                        return;
                    }
                },
                None => {
                    return;
                },
            }
        }
        self.history_index = Some(next);
        let entry = self.history[next].clone();
        let mut c = self.take_composer();
        c.replace_text(entry.as_str());
        self.composer = c;
    }

    /// Handles a key press while the prompt waits for input.
    pub fn handle_prompt_key(&mut self, code: KeyCode, m: KeyModifiers) -> (r: Option<PromptAction>)
        ensures
            final(self)@ == prompt_key(old(self)@, code, m).0,
            prompt_outcome(r) == prompt_key(old(self)@, code, m).1,
    {
        proof {
            use_type_invariant(&*self);
        }
        if code == KeyCode::Char('c') && m.control {
            return Some(PromptAction::Exit);
        }
        if code == KeyCode::Char('d') && m.control && self.composer.is_empty() {
            return Some(PromptAction::Exit);
        }
        if code == KeyCode::Enter && !m.shift && !m.alt {
            let mut c = self.take_composer();
            let taken = c.take();
            self.composer = c;
            match taken {
                Some(input) => {
                    let n = self.history.len();
                    let repeat = n > 0 && self.history[n - 1] == input;
                    self.history_index = None;
                    if !repeat {
                        let mut h: Vec<String> = Vec::new();
                        std::mem::swap(&mut h, &mut self.history);
                        h.push(input.clone());
                        self.history = h;
                    }
                    self.history_draft = String::new();
                    proof {
                        if !repeat {
                            assert(history_texts(self.history@) =~= history_texts(
                                old(self).history@,
                            ).push(input@));
                        } else {
                            assert(old(self).history@[n - 1]@ == history_texts(
                                old(self).history@,
                            ).last());
                        }
                    }
                    return Some(PromptAction::Submit(input));
                },
                None => {
                    return None;
                },
            }
        }
        if self.edit(code, m) {
            return None;
        }
        let has_break = self.composer.has_line_break();
        if code == KeyCode::Up && !has_break {
            self.navigate_history(true);
        } else if code == KeyCode::Down && !has_break {
            self.navigate_history(false);
        } else if code == KeyCode::PageUp {
            self.scroll_up(PAGE_SCROLL_LINES);
        } else if code == KeyCode::PageDown {
            self.scroll_down(PAGE_SCROLL_LINES);
        }
        None
    }

    /// Handles a key press while the agent runs.
    pub fn handle_running_key(&mut self, code: KeyCode, m: KeyModifiers, can_steer: bool) -> (r: RunningAction)
        ensures
            final(self)@ == running_key(old(self)@, code, m, can_steer).0,
            running_outcome(r) == running_key(old(self)@, code, m, can_steer).1,
    {
        proof {
            use_type_invariant(&*self);
        }
        if code == KeyCode::Esc || (code == KeyCode::Char('c') && m.control) {
            return RunningAction::Interrupt;
        }
        if code == KeyCode::PageUp {
            self.scroll_up(PAGE_SCROLL_LINES);
            return RunningAction::Nothing;
        }
        if code == KeyCode::PageDown {
            self.scroll_down(PAGE_SCROLL_LINES);
            return RunningAction::Nothing;
        }
        if !can_steer {
            return RunningAction::Nothing;
        }
        if code == KeyCode::Enter && !m.shift && !m.alt {
            let mut c = self.take_composer();
            let taken = c.take();
            self.composer = c;
            return match taken {
                Some(input) => match parse_steer(input.as_str()) {
                    Some(content) => RunningAction::Steer(content),
                    None => RunningAction::InvalidSteer,
                },
                None => RunningAction::Nothing,
            };
        }
        self.edit(code, m);
        RunningAction::Nothing
    }
}

} // verus!
