//! The state of one editor window beside its widgets, and the decisions that
//! the window takes on it.

use vstd::prelude::*;
use crate::timers::WORD_COUNT_DELAY_TICKS;
use crate::words::{count_matches_of_words, wordcount_label, wordcount_text, words_in};

verus! {

/// The state of one editor window.
pub struct WindowData {
    /// The number of words the document held when last counted.
    pub wordcount: u32,
    /// The file that the document was last opened from or saved to.
    pub path: Option<String>,
    /// The document changed since it was last opened or saved.
    pub contentunsaved: bool,
    /// The user switched automatic saving off.
    pub autosavedisabled: bool,
}

/// Where a save goes.
pub enum SaveTarget {
    /// The file the document belongs to.
    Known(String),
    /// A file the user picks.
    Choose,
}

/// The next step of a request that would discard the document (a new
/// document, opening a file, closing the window).
pub enum GuardStep {
    /// Ask the user whether to save the unsaved document first.
    AskToSave,
    /// Save the document there first, then carry out the request.
    SaveFirst(SaveTarget),
    /// Carry out the request.
    Proceed,
}

/// Why a file could not be adopted as the document's file.
#[derive(Debug, Clone, Copy, PartialEq, Eq, Structural)]
pub enum FileError {
    /// The path is not valid Unicode.
    InvalidPath,
}

impl FileError {
    /// The message that goes with the error.
    pub fn message(&self) -> (s: &'static str)
        ensures
            s@ == "File path was not valid."@,
    {
        proof {
            reveal_strlit("File path was not valid.");
        }
        "File path was not valid."
    }
}

/// The index of the "Yes" button of the save question.
pub const ANSWER_YES: i32 = 0;

/// The state after the document's text changed.
pub open spec fn edited(d: WindowData) -> WindowData {
    WindowData { contentunsaved: true, ..d }
}

/// The state after the document was saved or freshly opened.
pub open spec fn saved(d: WindowData) -> WindowData {
    WindowData { contentunsaved: false, ..d }
}

/// The state after a new, empty document was started.
pub open spec fn new_document(d: WindowData) -> WindowData {
    WindowData { contentunsaved: false, path: None, ..d }
}

/// The state after the automatic-save switch, which showed `shown_on`, was
/// flipped.
pub open spec fn switch_flipped(d: WindowData, shown_on: bool) -> WindowData {
    WindowData { autosavedisabled: shown_on, ..d }
}

/// An automatic save is due: it is switched on, the document is unsaved and
/// belongs to a file.
pub open spec fn autosave_due(d: WindowData) -> bool {
    !d.autosavedisabled && d.contentunsaved && d.path is Some
}

impl Default for WindowData {
    fn default() -> (r: Self)
        ensures
            r.wordcount == 0,
            r.path is None,
            !r.contentunsaved,
            !r.autosavedisabled,
    {
        WindowData { wordcount: 0, path: None, contentunsaved: false, autosavedisabled: false }
    }
}

impl WindowData {
    /// The document's text changed: it is now unsaved, and the word count
    /// and the automatic save are due after `WORD_COUNT_DELAY_TICKS` ticks.
    pub fn update_text_state(&mut self) -> (ticks: u16)
        ensures
            *final(self) == edited(*old(self)),
            ticks == WORD_COUNT_DELAY_TICKS,
    {
        self.contentunsaved = true;
        WORD_COUNT_DELAY_TICKS
    }

    /// Records that the document holds `matches` words, kept modulo 2^32 as a
    /// `u32`, and gives the status-bar text for it.
    pub fn record_wordcount(&mut self, matches: usize) -> (label: String)
        ensures
            final(self).wordcount == matches as u32,
            label@ == wordcount_text(final(self).wordcount),
            final(self).path == old(self).path,
            final(self).contentunsaved == old(self).contentunsaved,
            final(self).autosavedisabled == old(self).autosavedisabled,
    {
        self.wordcount = matches as u32;
        wordcount_label(self.wordcount)
    }

    /// Counts the words of `text`, records the count and gives the status-bar
    /// text for it; `None`, with nothing changed, only if the word pattern
    /// failed to compile.
    pub fn count_words(&mut self, text: &str) -> (label: Option<String>)
        ensures
            match words_in(text@) {
                None => label is None && *final(self) == *old(self),
                Some(n) => label matches Some(l) && final(self).wordcount == n as u32
                    && l@ == wordcount_text(final(self).wordcount),
            },
            final(self).path == old(self).path,
            final(self).contentunsaved == old(self).contentunsaved,
            final(self).autosavedisabled == old(self).autosavedisabled,
    {
        match count_matches_of_words(text) {
            None => None,
            Some(n) => Some(self.record_wordcount(n)),
        }
    }

    /// The file to save to automatically, if an automatic save is due: it is
    /// switched on, the document is unsaved and belongs to a file.
    pub fn autosave_target(&self) -> (r: Option<String>)
        ensures
            r is Some <==> autosave_due(*self),
            r is Some ==> r == self.path,
    {
        if self.autosavedisabled {
            return None;
        }
        if !self.contentunsaved {
            return None;
        }
        match &self.path {
            Some(p) => Some(p.clone()),
            None => None,
        }
    }

    /// The document was saved or freshly opened.
    pub fn mark_saved(&mut self)
        ensures
            *final(self) == saved(*old(self)),
    {
        self.contentunsaved = false;
    }

    /// Where an explicit save of the document goes.
    pub fn save_target(&self) -> (r: SaveTarget)
        ensures
            match self.path {
                Some(p) => r == SaveTarget::Known(p),
                None => r is Choose,
            },
    {
        match &self.path {
            Some(p) => SaveTarget::Known(p.clone()),
            None => SaveTarget::Choose,
        }
    }

    /// The first step of a request that would discard the document: ask
    /// whether to save it when it is unsaved, else go ahead.
    pub fn guard_start(&self) -> (r: GuardStep)
        ensures
            self.contentunsaved ==> r is AskToSave,
            !self.contentunsaved ==> r is Proceed,
    {
        if self.contentunsaved {
            GuardStep::AskToSave
        } else {
            GuardStep::Proceed
        }
    }

    /// The step after the user answered the save question: save first on
    /// "Yes", else go ahead; `None` stands for a question that got no answer.
    pub fn guard_answer(&self, answer: Option<i32>) -> (r: GuardStep)
        ensures
            answer == Some(ANSWER_YES) ==> match self.path {
                Some(p) => r == GuardStep::SaveFirst(SaveTarget::Known(p)),
                None => r == GuardStep::SaveFirst(SaveTarget::Choose),
            },
            answer != Some(ANSWER_YES) ==> r is Proceed,
    {
        match answer {
            Some(a) => if a == ANSWER_YES {
                GuardStep::SaveFirst(self.save_target())
            } else {
                GuardStep::Proceed
            },
            None => GuardStep::Proceed,
        }
    }

    /// Starts a new, empty document that belongs to no file.
    pub fn start_new_document(&mut self)
        ensures
            *final(self) == new_document(*old(self)),
    {
        self.contentunsaved = false;
        self.path = None;
    }

    /// Makes `path` the document's file; `None` stands for a path that is not
    /// valid Unicode, which is refused and changes nothing.
    pub fn adopt_path(&mut self, path: Option<String>) -> (r: Result<(), FileError>)
        ensures
            path is None ==> r == Err::<(), FileError>(FileError::InvalidPath) && *final(self)
                == *old(self),
            path is Some ==> r is Ok && final(self).path == path,
            final(self).wordcount == old(self).wordcount,
            final(self).contentunsaved == old(self).contentunsaved,
            final(self).autosavedisabled == old(self).autosavedisabled,
    {
        match path {
            None => Err(FileError::InvalidPath),
            Some(p) => {
                self.path = Some(p);
                Ok(())
            },
        }
    }

    /// The state that the automatic-save switch shows: on unless switched
    /// off.
    pub fn autosave_switch_state(&self) -> (on: bool)
        ensures
            on == !self.autosavedisabled,
    {
        !self.autosavedisabled
    }

    /// Flips the automatic-save switch, which showed `shown_on`, and gives
    /// its new state.
    pub fn toggle_autosave(&mut self, shown_on: bool) -> (on: bool)
        ensures
            on == !shown_on,
            *final(self) == switch_flipped(*old(self), shown_on),
    {
        let on = !shown_on;
        self.autosavedisabled = !on;
        on
    }
}

/// Right after an edit an automatic save is due exactly when it is switched
/// on and the document belongs to a file.
pub proof fn lemma_autosave_due_after_edit(d: WindowData)
    ensures
        autosave_due(edited(d)) <==> (!d.autosavedisabled && d.path is Some),
{
}

/// No automatic save is due right after a save, an open or a new document.
pub proof fn lemma_no_autosave_after_save(d: WindowData)
    ensures
        !autosave_due(saved(d)),
        !autosave_due(new_document(d)),
{
}

/// Flipping the automatic-save switch twice, from a switch that showed the
/// true state, gives back the state it started from.
pub proof fn lemma_switch_flipped_twice(d: WindowData)
    ensures
        switch_flipped(switch_flipped(d, !d.autosavedisabled), d.autosavedisabled) == d,
{
}

/// An edit leaves the document unsaved, whatever it was before, and changes
/// nothing else.
pub proof fn lemma_edit_marks_unsaved(d: WindowData)
    ensures
        edited(d).contentunsaved,
        edited(d).path == d.path,
        edited(d).wordcount == d.wordcount,
        edited(d).autosavedisabled == d.autosavedisabled,
{
}

/// A save leaves the document saved, and changes nothing else: the file, the
/// word count and the automatic-save switch stay as they were.
pub proof fn lemma_save_marks_saved(d: WindowData)
    ensures
        !saved(d).contentunsaved,
        saved(d).path == d.path,
        saved(d).wordcount == d.wordcount,
        saved(d).autosavedisabled == d.autosavedisabled,
{
}

/// A new document belongs to no file and is not unsaved; the word count and
/// the automatic-save switch stay as they were.
pub proof fn lemma_new_document_has_no_file(d: WindowData)
    ensures
        new_document(d).path is None,
        !new_document(d).contentunsaved,
        new_document(d).wordcount == d.wordcount,
        new_document(d).autosavedisabled == d.autosavedisabled,
{
}

} // verus!
