//! The per-character state machines behind the interactive subprocess
//! driver. The surrounding loop owns the pseudo-terminal: it polls
//! liveness, reads byte chunks, decodes them, feeds each character here,
//! and performs the returned action (printing, redrawing, or forwarding
//! one line of operator input at a detected prompt).

use vstd::prelude::*;
use crate::classify::{is_prompt_chars, is_prompt_spec, keep_upgrade_line, should_print_chars};
use crate::progress::{line_update, SyncProgress};
use crate::text::{contains_seq, contains_str, string_of};

verus! {

/// What the driving loop must do after feeding one character.
pub enum PtyAction {
    /// Keep reading.
    Nothing,
    /// Print the finished line, with a trailing newline.
    PrintLine(String),
    /// Redraw the partial line in place: carriage return, text, no newline.
    Redraw(String),
    /// A prompt was detected: print `text` when present (preceded by blank
    /// lines when `spacing` holds), then read one line of operator input
    /// and send it to the subprocess.
    Prompt { text: Option<String>, spacing: bool },
}

/// The view of an action: its strings as character sequences.
pub enum ActionV {
    Nothing,
    PrintLine(Seq<char>),
    Redraw(Seq<char>),
    Prompt(Option<Seq<char>>, bool),
}

pub open spec fn action_view(a: PtyAction) -> ActionV {
    match a {
        PtyAction::Nothing => ActionV::Nothing,
        PtyAction::PrintLine(s) => ActionV::PrintLine(s@),
        PtyAction::Redraw(s) => ActionV::Redraw(s@),
        PtyAction::Prompt { text, spacing } => ActionV::Prompt(
            match text {
                Some(s) => Some(s@),
                None => None,
            },
            spacing,
        ),
    }
}

/// How one character moves the interactive machine: a newline emits the
/// buffered line if the filter keeps it; a carriage return redraws a
/// non-empty kept line; any other character accumulates, and a buffer that
/// has just become a prompt is emitted as one and cleared.
pub open spec fn pty_step_spec(buf: Seq<char>, c: char, filter: bool) -> (ActionV, Seq<char>) {
    if c == '\n' {
        (
            if filter ==> keep_upgrade_line(buf) {
                ActionV::PrintLine(buf)
            } else {
                ActionV::Nothing
            },
            Seq::empty(),
        )
    } else if c == '\r' {
        (
            if buf.len() > 0 && (filter ==> keep_upgrade_line(buf)) {
                ActionV::Redraw(buf)
            } else {
                ActionV::Nothing
            },
            Seq::empty(),
        )
    } else {
        let nb = buf.push(c);
        if is_prompt_spec(nb) {
            let shown = filter ==> keep_upgrade_line(nb);
            (
                ActionV::Prompt(
                    if shown {
                        Some(nb)
                    } else {
                        None
                    },
                    shown && contains_seq(nb, "Proceed with installation"@),
                ),
                Seq::empty(),
            )
        } else {
            (ActionV::Nothing, nb)
        }
    }
}

/// The line still buffered when the subprocess exits, if the filter keeps it.
pub open spec fn pty_finish_spec(buf: Seq<char>, filter: bool) -> Option<Seq<char>> {
    if buf.len() > 0 && (filter ==> keep_upgrade_line(buf)) {
        Some(buf)
    } else {
        None
    }
}

/// The interactive session machine: the buffered partial line and the
/// filtering mode fixed for the run.
pub struct PtySession {
    pub buf: Vec<char>,
    pub filter: bool,
}

impl PtySession {
    pub fn new(filter: bool) -> (r: Self)
        ensures
            r.buf@ == Seq::<char>::empty(),
            r.filter == filter,
    {
        PtySession { buf: Vec::new(), filter }
    }

    /// Feed one decoded character; the caller performs the returned action.
    pub fn feed_char(&mut self, c: char) -> (a: PtyAction)
        ensures
            ({
                let (av, nb) = pty_step_spec(old(self).buf@, c, old(self).filter);
                action_view(a) == av && final(self).buf@ == nb && final(self).filter == old(
                    self,
                ).filter
            }),
    {
        if c == '\n' {
            let p = should_print_chars(&self.buf, self.filter);
            let a = if p {
                PtyAction::PrintLine(string_of(&self.buf))
            } else {
                PtyAction::Nothing
            };
            self.buf = Vec::new();
            a
        } else if c == '\r' {
            let p = self.buf.len() > 0 && should_print_chars(&self.buf, self.filter);
            let a = if p {
                PtyAction::Redraw(string_of(&self.buf))
            } else {
                PtyAction::Nothing
            };
            self.buf = Vec::new();
            a
        } else {
            self.buf.push(c);
            if is_prompt_chars(&self.buf) {
                let shown = should_print_chars(&self.buf, self.filter);
                let text = if shown {
                    Some(string_of(&self.buf))
                } else {
                    None
                };
                let spacing = shown && contains_str(&self.buf, "Proceed with installation");
                self.buf = Vec::new();
                PtyAction::Prompt { text, spacing }
            } else {
                PtyAction::Nothing
            }
        }
    }

    /// The line to print once the subprocess has exited.
    pub fn finish(&self) -> (r: Option<String>)
        ensures
            ({
                match (r, pty_finish_spec(self.buf@, self.filter)) {
                    (Some(s), Some(v)) => s@ == v,
                    (None, None) => true,
                    _ => false,
                }
            }),
    {
        if self.buf.len() > 0 && should_print_chars(&self.buf, self.filter) {
            Some(string_of(&self.buf))
        } else {
            None
        }
    }
}

/// How one character moves the sync machine: newline and carriage return
/// both end the line, which updates the tracker when non-empty; any other
/// character accumulates.
pub open spec fn sync_step_spec(buf: Seq<char>, pr: SyncProgress, c: char) -> (
    Seq<char>,
    SyncProgress,
) {
    if c == '\n' || c == '\r' {
        (
            Seq::empty(),
            if buf.len() > 0 {
                line_update(pr, buf)
            } else {
                pr
            },
        )
    } else {
        (buf.push(c), pr)
    }
}

/// The database-sync session machine: the buffered partial line and the
/// progress tracker it feeds.
pub struct SyncSession {
    pub buf: Vec<char>,
    pub progress: SyncProgress,
}

impl SyncSession {
    pub fn new() -> (r: Self)
        ensures
            r.buf@ == Seq::<char>::empty(),
            r.progress == SyncProgress::initial(),
    {
        SyncSession { buf: Vec::new(), progress: SyncProgress::new() }
    }

    /// Feed one decoded character.
    pub fn feed_char(&mut self, c: char)
        ensures
            (final(self).buf@, final(self).progress) == sync_step_spec(
                old(self).buf@,
                old(self).progress,
                c,
            ),
    {
        if c == '\n' || c == '\r' {
            if self.buf.len() > 0 {
                let line = self.buf.clone();
                self.progress.update_from_chars(&line);
            }
            self.buf = Vec::new();
        } else {
            self.buf.push(c);
        }
    }

    /// Apply any line still buffered when the subprocess exits.
    pub fn flush(&mut self)
        ensures
            final(self).buf@ == Seq::<char>::empty(),
            final(self).progress == if old(self).buf@.len() > 0 {
                line_update(old(self).progress, old(self).buf@)
            } else {
                old(self).progress
            },
    {
        if self.buf.len() > 0 {
            let line = self.buf.clone();
            self.progress.update_from_chars(&line);
        }
        self.buf = Vec::new();
    }
}

} // verus!
