//! The clipboard as an application sees it. Only the owner side exists:
//! data can be put on the clipboard, and nothing can be read from it.

use crate::engine::{format_views, Progress, ProgressView, Task, TaskView};
use crate::format::{ClipboardFormat, FormatId, FormatView, TEXT};
use crate::protocol::{
    Outcome, PropertyNotifyEvent, Request, RequestView, SelectionClearEvent,
    SelectionRequestEvent, Timestamp,
};
use crate::state::{ClipboardAtoms, ClipboardState, StateView};
use vstd::prelude::*;
use vstd::string::StringSliceAdditionalSpecFns;

verus! {

/// What is left of `progress` for an operation that reports no failure: the
/// next request and its task, or nothing once the operation is over, whether
/// it went well or not.
pub open spec fn unreported(progress: ProgressView) -> Option<(RequestView, TaskView)> {
    match progress {
        ProgressView::Send { request, then } => Some((request, then)),
        ProgressView::Done(_) => None,
    }
}

/// The next step of an operation that reports no failure, as a mathematical
/// value.
pub open spec fn step_view(step: Option<(Request, Task)>) -> Option<(RequestView, TaskView)> {
    match step {
        Some((request, then)) => Some((request@, then@)),
        None => None,
    }
}

/// Drops from `progress` how the operation ended.
fn quiet(progress: Progress) -> (step: Option<(Request, Task)>)
    ensures
        step_view(step) == unreported(progress@),
{
    match progress {
        Progress::Send { request, then } => Some((request, then)),
        Progress::Done(_) => None,
    }
}

/// The clipboard of one application.
#[derive(Debug)]
pub struct Clipboard {
    state: ClipboardState,
}

impl View for Clipboard {
    type V = StateView;

    closed spec fn view(&self) -> StateView {
        self.state@
    }
}

impl Clipboard {
    /// A clipboard that holds nothing, for the screen `screen_num` of a
    /// server on which the three names resolve to `atoms`.
    pub fn new(atoms: ClipboardAtoms, screen_num: usize) -> (clipboard: Self)
        ensures
            clipboard@ == StateView::initial(atoms, screen_num),
    {
        Clipboard { state: ClipboardState::new(atoms, screen_num) }
    }

    /// The selection owner behind this clipboard.
    pub fn state(&self) -> (state: &ClipboardState)
        ensures
            state@ == self@,
    {
        &self.state
    }

    /// Answers the loss of the selection, as [`ClipboardState::handle_clear`]
    /// does.
    pub fn handle_clear(&mut self, event: &SelectionClearEvent) -> (progress: Progress)
        ensures
            (final(self)@, progress@) == old(self)@.handle_clear(*event),
    {
        self.state.handle_clear(event)
    }

    /// Answers a request for the selection, as
    /// [`ClipboardState::handle_request`] does.
    pub fn handle_request(&self, event: &SelectionRequestEvent, limit: usize) -> (progress: Progress)
        ensures
            progress@ == self@.handle_request(*event, limit),
    {
        self.state.handle_request(event, limit)
    }

    /// Answers a change of a property, as
    /// [`ClipboardState::handle_property_notify`] does.
    pub fn handle_property_notify(&self, event: &PropertyNotifyEvent, limit: usize) -> (progress: Progress)
        ensures
            progress@ == self@.handle_property_notify(*event, limit),
    {
        self.state.handle_property_notify(event, limit)
    }

    /// Goes on with the answer to an event, as [`ClipboardState::resume`]
    /// does.
    pub fn resume(&mut self, task: Task, outcome: Outcome) -> (progress: Progress)
        ensures
            final(self)@ == old(self)@.resumed(task@, outcome),
            progress@ == old(self)@.resume(task@, outcome),
    {
        self.state.resume(task, outcome)
    }

    /// Starts to put the text `s` on the clipboard, as the one format
    /// [`TEXT`], claimed as of `timestamp`. Go on with
    /// [`Clipboard::continue_put`].
    pub fn put_string(&self, s: &str, timestamp: Timestamp) -> (step: Option<(Request, Task)>)
        ensures
            step_view(step) == unreported(
                self@.put_formats(
                    seq![FormatView { name: TEXT.spec_bytes(), data: s.spec_bytes() }],
                    timestamp,
                ),
            ),
    {
        let mut formats: Vec<ClipboardFormat> = Vec::new();
        formats.push(ClipboardFormat::text(s));
        assert(format_views(formats@) =~= seq![
            FormatView { name: TEXT.spec_bytes(), data: s.spec_bytes() },
        ]);
        self.put_formats(formats.as_slice(), timestamp)
    }

    /// Starts to put `formats` on the clipboard, claimed as of `timestamp`.
    /// Go on with [`Clipboard::continue_put`].
    pub fn put_formats(&self, formats: &[ClipboardFormat], timestamp: Timestamp) -> (step: Option<
        (Request, Task),
    >)
        ensures
            step_view(step) == unreported(self@.put_formats(format_views(formats@), timestamp)),
    {
        quiet(self.state.put_formats(formats, timestamp))
    }

    /// Goes on with a put, now that the request that `task` waited for has
    /// ended with `outcome`. The state changes as [`ClipboardState::resume`]
    /// says. The application is not told of a failure: the put is then over,
    /// as it is after its last request.
    pub fn continue_put(&mut self, task: Task, outcome: Outcome) -> (step: Option<(Request, Task)>)
        ensures
            final(self)@ == old(self)@.resumed(task@, outcome),
            step_view(step) == unreported(old(self)@.resume(task@, outcome)),
    {
        quiet(self.state.resume(task, outcome))
    }

    /// The text on the clipboard. Reading is not implemented: there is
    /// never any.
    pub fn get_string(&self) -> (text: Option<String>)
        ensures
            text.is_none(),
    {
        None
    }

    /// The format among `formats` that the clipboard serves best. Reading is
    /// not implemented: there is never any.
    pub fn preferred_format(&self, formats: &[FormatId]) -> (format: Option<FormatId>)
        ensures
            format.is_none(),
    {
        None
    }

    /// The clipboard's data in `format`. Reading is not implemented: there
    /// is never any.
    pub fn get_format(&self, format: FormatId) -> (data: Option<Vec<u8>>)
        ensures
            data.is_none(),
    {
        None
    }

    /// The names of the formats on the clipboard. Reading is not
    /// implemented: the list is always empty.
    pub fn available_type_names(&self) -> (names: Vec<String>)
        ensures
            names@.len() == 0,
    {
        Vec::new()
    }
}

} // verus!
