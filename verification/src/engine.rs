//! The values that pass between the engine and its caller: where an
//! operation stands, and what comes next.

use crate::contents::{ClipboardContents, ContentsView};
use crate::format::{ClipboardFormat, FormatView};
use crate::protocol::{
    ClipboardError, Outcome, PropertyNotifyEvent, Request, RequestView, SelectionNotifyEvent,
    Timestamp,
};
use crate::transfer::{IncrementalTransfer, TransferView};
use vstd::prelude::*;

verus! {

/// The formats of a list as mathematical values, in order.
pub open spec fn format_views(formats: Seq<ClipboardFormat>) -> Seq<FormatView> {
    formats.map_values(|format: ClipboardFormat| format@)
}

/// Where an operation stands. Each variant is named after the request that
/// is out, and holds what the engine needs once the outcome is known.
#[derive(Debug, PartialEq, Eq)]
pub enum Task {
    /// An identifier for the owner window of a new offer is asked for.
    GenerateId { timestamp: Timestamp, formats: Vec<ClipboardFormat> },
    /// The owner window is being created.
    CreateWindow { contents: ClipboardContents, formats: Vec<ClipboardFormat> },
    /// The name of `formats[index]` is being resolved.
    InternAtom { contents: ClipboardContents, formats: Vec<ClipboardFormat>, index: usize },
    /// The selection is being claimed.
    SetSelectionOwner { contents: ClipboardContents },
    /// The server is asked whether the claim held.
    GetSelectionOwner { contents: ClipboardContents },
    /// The answer to a request is being written; `answer` follows.
    ChangeProperty { answer: SelectionNotifyEvent },
    /// The owner subscribes to the requestor's property changes.
    ChangeWindowAttributes { transfer: IncrementalTransfer },
    /// The length of an incremental transfer is being announced.
    Announce { transfer: IncrementalTransfer },
    /// A chunk is being written in answer to `event`.
    WriteChunk { event: PropertyNotifyEvent, limit: usize },
    /// The last request of the operation is out.
    Finish,
}

/// A [`Task`] as a mathematical value.
pub enum TaskView {
    GenerateId { timestamp: Timestamp, formats: Seq<FormatView> },
    CreateWindow { contents: ContentsView, formats: Seq<FormatView> },
    InternAtom { contents: ContentsView, formats: Seq<FormatView>, index: int },
    SetSelectionOwner { contents: ContentsView },
    GetSelectionOwner { contents: ContentsView },
    ChangeProperty { answer: SelectionNotifyEvent },
    ChangeWindowAttributes { transfer: TransferView },
    Announce { transfer: TransferView },
    WriteChunk { event: PropertyNotifyEvent, limit: usize },
    Finish,
}

impl View for Task {
    type V = TaskView;

    open spec fn view(&self) -> TaskView {
        match *self {
            Task::GenerateId { timestamp, formats } => TaskView::GenerateId {
                timestamp,
                formats: format_views(formats@),
            },
            Task::CreateWindow { contents, formats } => TaskView::CreateWindow {
                contents: contents@,
                formats: format_views(formats@),
            },
            Task::InternAtom { contents, formats, index } => TaskView::InternAtom {
                contents: contents@,
                formats: format_views(formats@),
                index: index as int,
            },
            Task::SetSelectionOwner { contents } => TaskView::SetSelectionOwner {
                contents: contents@,
            },
            Task::GetSelectionOwner { contents } => TaskView::GetSelectionOwner {
                contents: contents@,
            },
            Task::ChangeProperty { answer } => TaskView::ChangeProperty { answer },
            Task::ChangeWindowAttributes { transfer } => TaskView::ChangeWindowAttributes {
                transfer: transfer@,
            },
            Task::Announce { transfer } => TaskView::Announce { transfer: transfer@ },
            Task::WriteChunk { event, limit } => TaskView::WriteChunk { event, limit },
            Task::Finish => TaskView::Finish,
        }
    }
}

/// What the caller does next.
#[derive(Debug, PartialEq, Eq)]
pub enum Progress {
    /// Issue `request`, then hand its outcome and `then` to `resume`.
    Send { request: Request, then: Task },
    /// The operation has ended, well or with the failure of a request.
    Done(Result<(), ClipboardError>),
}

/// A [`Progress`] as a mathematical value.
pub enum ProgressView {
    Send { request: RequestView, then: TaskView },
    Done(Result<(), ClipboardError>),
}

impl View for Progress {
    type V = ProgressView;

    open spec fn view(&self) -> ProgressView {
        match *self {
            Progress::Send { request, then } => ProgressView::Send {
                request: request@,
                then: then@,
            },
            Progress::Done(result) => ProgressView::Done(result),
        }
    }
}

/// The end of an operation whose last request ended with `outcome`.
pub open spec fn conclusion(outcome: Outcome) -> ProgressView {
    ProgressView::Done(
        match outcome {
            Ok(_) => Ok(()),
            Err(error) => Err(error),
        },
    )
}

/// Ends an operation with what became of its last request.
pub fn conclude(outcome: Outcome) -> (progress: Progress)
    ensures
        progress@ == conclusion(outcome),
{
    match outcome {
        Ok(_) => Progress::Done(Ok(())),
        Err(error) => Progress::Done(Err(error)),
    }
}

} // verus!
