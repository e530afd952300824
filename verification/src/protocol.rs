//! The vocabulary of the X11 core protocol that a selection owner uses:
//! identifiers, the events it receives and the requests it issues.

use vstd::prelude::*;

verus! {

/// A window identifier.
pub type Window = u32;

/// An interned name.
pub type Atom = u32;

/// A server time, in milliseconds.
pub type Timestamp = u32;

/// The null resource identifier: no window, no atom.
pub const NONE: u32 = 0;

/// Visual of a new window: that of its parent.
pub const COPY_FROM_PARENT: u32 = 0;

/// Depth of a new window: that of its parent.
pub const COPY_DEPTH_FROM_PARENT: u8 = 0;

/// Window class `InputOutput`.
pub const WINDOW_CLASS_INPUT_OUTPUT: u16 = 1;

/// Property mode `Replace`: the new value discards the old one.
pub const PROP_MODE_REPLACE: u8 = 0;

/// The predefined atom `ATOM`, the type of a list of atoms.
pub const ATOM_ATOM: Atom = 4;

/// The empty event mask.
pub const EVENT_MASK_NO_EVENT: u32 = 0;

/// Event mask bit `PropertyChange`.
pub const EVENT_MASK_PROPERTY_CHANGE: u32 = 0x0040_0000;

/// State `Deleted` of a property notification.
pub const PROPERTY_DELETE: u8 = 1;

/// Code of the `SelectionNotify` event.
pub const SELECTION_NOTIFY_EVENT: u8 = 31;

/// `SelectionClear`: the window `owner` has lost the selection.
#[derive(Clone, Copy, Debug, PartialEq, Eq)]
pub struct SelectionClearEvent {
    pub time: Timestamp,
    pub owner: Window,
    pub selection: Atom,
}

/// `SelectionRequest`: `requestor` asks `owner` to convert `selection` to
/// `target` and to store the result in `property` on the requestor's window.
#[derive(Clone, Copy, Debug, PartialEq, Eq)]
pub struct SelectionRequestEvent {
    pub time: Timestamp,
    pub owner: Window,
    pub requestor: Window,
    pub selection: Atom,
    pub target: Atom,
    pub property: Atom,
}

/// `PropertyNotify`: the property `atom` of `window` got a new value or was
/// deleted.
#[derive(Clone, Copy, Debug, PartialEq, Eq)]
pub struct PropertyNotifyEvent {
    pub window: Window,
    pub atom: Atom,
    pub time: Timestamp,
    pub state: u8,
}

/// `SelectionNotify`: the owner's answer to a request. The property is
/// [`NONE`] when the owner refuses.
#[derive(Clone, Copy, Debug, PartialEq, Eq)]
pub struct SelectionNotifyEvent {
    pub response_type: u8,
    pub sequence: u16,
    pub time: Timestamp,
    pub requestor: Window,
    pub selection: Atom,
    pub target: Atom,
    pub property: Atom,
}

/// Why the server, or the connection to it, did not carry out a request.
#[derive(Clone, Copy, Debug, PartialEq, Eq)]
pub enum ClipboardError {
    /// The connection failed.
    Connection,
    /// The server answered with a protocol error.
    Protocol,
    /// No unused resource identifier is left.
    IdsExhausted,
}

/// How a request ended: the 32-bit identifier that its reply carries (a
/// fresh resource identifier, an atom, a window), or the failure. For a
/// request without a reply the identifier means nothing.
pub type Outcome = Result<u32, ClipboardError>;

/// One request for the caller to issue on the connection.
#[allow(inconsistent_fields)]
#[derive(Debug, PartialEq, Eq)]
pub enum Request {
    /// Allocate an unused resource identifier. The reply carries it.
    GenerateId,
    /// Create the window `wid` as a child of the root window of screen
    /// `screen`, with no attributes.
    CreateWindow {
        depth: u8,
        wid: Window,
        screen: usize,
        x: i16,
        y: i16,
        width: u16,
        height: u16,
        border_width: u16,
        class: u16,
        visual: u32,
    },
    /// Destroy `window`.
    DestroyWindow { window: Window },
    /// Resolve `name` to an atom. The reply carries it.
    InternAtom { only_if_exists: bool, name: Vec<u8> },
    /// Make `owner` the owner of `selection` as of `time`.
    SetSelectionOwner { owner: Window, selection: Atom, time: Timestamp },
    /// Ask who owns `selection`. The reply carries the owner window.
    GetSelectionOwner { selection: Atom },
    /// Select the events in `event_mask` on `window`.
    ChangeWindowAttributes { window: Window, event_mask: u32 },
    /// Write 8-bit `data` of type `type_` to `property` of `window`.
    ChangeProperty8 { mode: u8, window: Window, property: Atom, type_: Atom, data: Vec<u8> },
    /// Write 32-bit `data` of type `type_` to `property` of `window`.
    ChangeProperty32 { mode: u8, window: Window, property: Atom, type_: Atom, data: Vec<u32> },
    /// Send `event` to `destination`.
    SendEvent { propagate: bool, destination: Window, event_mask: u32, event: SelectionNotifyEvent },
}

/// A [`Request`] as a mathematical value.
#[allow(inconsistent_fields)]
pub enum RequestView {
    GenerateId,
    CreateWindow {
        depth: u8,
        wid: Window,
        screen: usize,
        x: i16,
        y: i16,
        width: u16,
        height: u16,
        border_width: u16,
        class: u16,
        visual: u32,
    },
    DestroyWindow { window: Window },
    InternAtom { only_if_exists: bool, name: Seq<u8> },
    SetSelectionOwner { owner: Window, selection: Atom, time: Timestamp },
    GetSelectionOwner { selection: Atom },
    ChangeWindowAttributes { window: Window, event_mask: u32 },
    ChangeProperty8 { mode: u8, window: Window, property: Atom, type_: Atom, data: Seq<u8> },
    ChangeProperty32 { mode: u8, window: Window, property: Atom, type_: Atom, data: Seq<u32> },
    SendEvent { propagate: bool, destination: Window, event_mask: u32, event: SelectionNotifyEvent },
}

impl View for Request {
    type V = RequestView;

    open spec fn view(&self) -> RequestView {
        match *self {
            Request::GenerateId => RequestView::GenerateId,
            Request::CreateWindow {
                depth,
                wid,
                screen,
                x,
                y,
                width,
                height,
                border_width,
                class,
                visual,
            } => RequestView::CreateWindow {
                depth,
                wid,
                screen,
                x,
                y,
                width,
                height,
                border_width,
                class,
                visual,
            },
            Request::DestroyWindow { window } => RequestView::DestroyWindow { window },
            Request::InternAtom { only_if_exists, name } => RequestView::InternAtom {
                only_if_exists,
                name: name@,
            },
            Request::SetSelectionOwner { owner, selection, time } => RequestView::SetSelectionOwner {
                owner,
                selection,
                time,
            },
            Request::GetSelectionOwner { selection } => RequestView::GetSelectionOwner { selection },
            Request::ChangeWindowAttributes { window, event_mask } => {
                RequestView::ChangeWindowAttributes { window, event_mask }
            },
            Request::ChangeProperty8 { mode, window, property, type_, data } => {
                RequestView::ChangeProperty8 { mode, window, property, type_, data: data@ }
            },
            Request::ChangeProperty32 { mode, window, property, type_, data } => {
                RequestView::ChangeProperty32 { mode, window, property, type_, data: data@ }
            },
            Request::SendEvent { propagate, destination, event_mask, event } => {
                RequestView::SendEvent { propagate, destination, event_mask, event }
            },
        }
    }
}

/// The answer to `event` that names `property` as the place of the result.
pub open spec fn notification(event: SelectionRequestEvent, property: Atom) -> SelectionNotifyEvent {
    SelectionNotifyEvent {
        response_type: SELECTION_NOTIFY_EVENT,
        sequence: 0,
        time: event.time,
        requestor: event.requestor,
        selection: event.selection,
        target: event.target,
        property,
    }
}

/// The request that delivers `event` to its requestor, unpropagated and
/// whatever events the requestor has selected.
pub open spec fn delivery(event: SelectionNotifyEvent) -> RequestView {
    RequestView::SendEvent {
        propagate: false,
        destination: event.requestor,
        event_mask: EVENT_MASK_NO_EVENT,
        event,
    }
}

/// The refusal of `event`: a notification that names no property.
pub open spec fn rejection(event: SelectionRequestEvent) -> RequestView {
    delivery(notification(event, NONE))
}

/// Builds the answer to `event` that names `property`.
pub fn notify(event: &SelectionRequestEvent, property: Atom) -> (answer: SelectionNotifyEvent)
    ensures
        answer == notification(*event, property),
{
    SelectionNotifyEvent {
        response_type: SELECTION_NOTIFY_EVENT,
        sequence: 0,
        time: event.time,
        requestor: event.requestor,
        selection: event.selection,
        target: event.target,
        property,
    }
}

/// Builds the request that delivers `event` to its requestor.
pub fn deliver(event: SelectionNotifyEvent) -> (request: Request)
    ensures
        request@ == delivery(event),
{
    Request::SendEvent {
        propagate: false,
        destination: event.requestor,
        event_mask: EVENT_MASK_NO_EVENT,
        event,
    }
}

/// Refuses `event`: the notification sent back names the null property.
pub fn reject_transfer(event: &SelectionRequestEvent) -> (request: Request)
    ensures
        request@ == rejection(*event),
{
    deliver(notify(event, NONE))
}

} // verus!
