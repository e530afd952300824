//! Transfer of a payload that is too large for one property write: the
//! owner announces the length, then writes the payload chunk by chunk, one
//! chunk each time the requestor deletes the property, and ends with an empty
//! chunk.

use crate::buffer::copy_range;
use crate::protocol::{
    Atom, PropertyNotifyEvent, Request, RequestView, SelectionNotifyEvent, SelectionRequestEvent,
    Timestamp, Window, EVENT_MASK_PROPERTY_CHANGE, PROP_MODE_REPLACE, SELECTION_NOTIFY_EVENT,
};
use std::rc::Rc;
use vstd::prelude::*;

verus! {

/// Bytes of a `ChangeProperty` request that are not payload.
pub const CHANGE_PROPERTY_HEADER_SIZE: usize = 24;

/// Largest request that the owner issues, whatever the server would take.
pub const REQUEST_SIZE_CEILING: usize = 65535;

/// The largest payload that goes into one property write on a connection
/// whose requests may be `maximum_request_bytes` long.
pub open spec fn property_length_limit(maximum_request_bytes: usize) -> int {
    vstd::math::min(maximum_request_bytes as int, REQUEST_SIZE_CEILING as int)
        - CHANGE_PROPERTY_HEADER_SIZE
}

/// The largest payload that goes into one property write: the connection's
/// maximum request size, capped at [`REQUEST_SIZE_CEILING`], less the
/// request header.
pub fn maximum_property_length(maximum_request_bytes: usize) -> (limit: usize)
    requires
        maximum_request_bytes >= CHANGE_PROPERTY_HEADER_SIZE,
    ensures
        limit == property_length_limit(maximum_request_bytes),
{
    let max_request_length: usize = if maximum_request_bytes < REQUEST_SIZE_CEILING {
        maximum_request_bytes
    } else {
        REQUEST_SIZE_CEILING
    };
    max_request_length - CHANGE_PROPERTY_HEADER_SIZE
}

/// An [`IncrementalTransfer`] as a mathematical value.
pub struct TransferView {
    pub requestor: Window,
    pub selection: Atom,
    pub target: Atom,
    pub property: Atom,
    pub time: Timestamp,
    pub data: Seq<u8>,
    pub data_offset: nat,
}

impl TransferView {
    /// The transfer that answers `event` with `data`, nothing written yet.
    pub open spec fn start(event: SelectionRequestEvent, data: Seq<u8>) -> TransferView {
        TransferView {
            requestor: event.requestor,
            selection: event.selection,
            target: event.target,
            property: event.property,
            time: event.time,
            data,
            data_offset: 0,
        }
    }

    /// The cursor lies within the payload.
    pub open spec fn wf(self) -> bool {
        self.data_offset <= self.data.len()
    }

    /// The bytes not written yet.
    pub open spec fn remaining(self) -> Seq<u8> {
        self.data.skip(self.data_offset as int)
    }

    /// Nothing is left to write.
    pub open spec fn finished(self) -> bool {
        self.remaining().len() == 0
    }

    /// Length of the next chunk: what is left, at most `limit`.
    pub open spec fn next_length(self, limit: usize) -> nat {
        if self.remaining().len() <= limit {
            self.remaining().len()
        } else {
            limit as nat
        }
    }

    /// The next chunk. It is empty exactly when the transfer is finished or
    /// `limit` is zero.
    pub open spec fn next_chunk(self, limit: usize) -> Seq<u8> {
        self.remaining().take(self.next_length(limit) as int)
    }

    /// The transfer once the next chunk is written.
    pub open spec fn advanced(self, limit: usize) -> TransferView {
        TransferView { data_offset: self.data_offset + self.next_length(limit), ..self }
    }

    /// Whether the transfer writes to `property` of `window`.
    pub open spec fn matches(self, window: Window, property: Atom) -> bool {
        self.requestor == window && self.property == property
    }

    /// The payload length as announced: saturated where 32 bits cannot hold
    /// it.
    pub open spec fn announced_length(self) -> u32 {
        if self.data.len() <= u32::MAX {
            self.data.len() as u32
        } else {
            u32::MAX
        }
    }

    /// The request that makes the server report changes of the requestor's
    /// properties.
    pub open spec fn subscription(self) -> RequestView {
        RequestView::ChangeWindowAttributes {
            window: self.requestor,
            event_mask: EVENT_MASK_PROPERTY_CHANGE,
        }
    }

    /// The request that opens the transfer: the announced length, as the one
    /// 32-bit item of a property of type `incr`.
    pub open spec fn announcement(self, incr: Atom) -> RequestView {
        RequestView::ChangeProperty32 {
            mode: PROP_MODE_REPLACE,
            window: self.requestor,
            property: self.property,
            type_: incr,
            data: seq![self.announced_length()],
        }
    }

    /// The request that writes `chunk` in place of what the requestor's
    /// property held, typed by the target.
    pub open spec fn write(self, chunk: Seq<u8>) -> RequestView {
        RequestView::ChangeProperty8 {
            mode: PROP_MODE_REPLACE,
            window: self.requestor,
            property: self.property,
            type_: self.target,
            data: chunk,
        }
    }

    /// The request that writes the next chunk.
    pub open spec fn next_write(self, limit: usize) -> RequestView {
        self.write(self.next_chunk(limit))
    }

    /// The notification that tells the requestor that the transfer has begun.
    pub open spec fn notification(self) -> SelectionNotifyEvent {
        SelectionNotifyEvent {
            response_type: SELECTION_NOTIFY_EVENT,
            sequence: 0,
            time: self.time,
            requestor: self.requestor,
            selection: self.selection,
            target: self.target,
            property: self.property,
        }
    }
}

/// One payload on its way to one requestor, with the cursor that separates
/// what is written from what is left.
#[derive(Debug, PartialEq, Eq)]
pub struct IncrementalTransfer {
    requestor: Window,
    selection: Atom,
    target: Atom,
    property: Atom,
    time: Timestamp,
    data: Rc<Vec<u8>>,
    data_offset: usize,
}

impl View for IncrementalTransfer {
    type V = TransferView;

    closed spec fn view(&self) -> TransferView {
        TransferView {
            requestor: self.requestor,
            selection: self.selection,
            target: self.target,
            property: self.property,
            time: self.time,
            data: self.data@,
            data_offset: self.data_offset as nat,
        }
    }
}

impl IncrementalTransfer {
    #[verifier::type_invariant]
    pub open spec fn well_formed(self) -> bool {
        self@.wf()
    }

    /// Sets up the transfer of `data` in answer to `event`. The buffer is
    /// held in common with whoever else holds it.
    pub fn new(event: &SelectionRequestEvent, data: Rc<Vec<u8>>) -> (transfer: Self)
        ensures
            transfer@ == TransferView::start(*event, data@),
    {
        IncrementalTransfer {
            requestor: event.requestor,
            selection: event.selection,
            target: event.target,
            property: event.property,
            time: event.time,
            data,
            data_offset: 0,
        }
    }

    /// The window that asked.
    pub fn requestor(&self) -> (window: Window)
        ensures
            window == self@.requestor,
    {
        self.requestor
    }

    /// The property that receives the chunks.
    pub fn property(&self) -> (property: Atom)
        ensures
            property == self@.property,
    {
        self.property
    }

    /// The cursor: how many bytes are written.
    pub fn data_offset(&self) -> (offset: usize)
        ensures
            offset == self@.data_offset,
    {
        self.data_offset
    }

    /// Whether the transfer writes to the property that `event` is about.
    pub fn matches(&self, event: &PropertyNotifyEvent) -> (hit: bool)
        ensures
            hit == self@.matches(event.window, event.atom),
    {
        self.requestor == event.window && self.property == event.atom
    }

    /// The request that subscribes to the requestor's property changes.
    pub fn subscription(&self) -> (request: Request)
        ensures
            request@ == self@.subscription(),
    {
        Request::ChangeWindowAttributes {
            window: self.requestor,
            event_mask: EVENT_MASK_PROPERTY_CHANGE,
        }
    }

    /// The request that announces the payload's length, saturated at
    /// `u32::MAX`, in a property of type `incr`.
    pub fn announcement(&self, incr: Atom) -> (request: Request)
        ensures
            request@ == self@.announcement(incr),
    {
        let length: u32 = if self.data.len() <= u32::MAX as usize {
            self.data.len() as u32
        } else {
            u32::MAX
        };
        let mut data: Vec<u32> = Vec::new();
        data.push(length);
        assert(data@ == seq![length]);
        Request::ChangeProperty32 {
            mode: PROP_MODE_REPLACE,
            window: self.requestor,
            property: self.property,
            type_: incr,
            data,
        }
    }

    /// The request that writes the next chunk: what is left of the payload,
    /// at most `limit` bytes of it.
    pub fn next_write(&self, limit: usize) -> (request: Request)
        ensures
            request@ == self@.next_write(limit),
    {
        proof {
            use_type_invariant(self);
        }
        let remaining: usize = self.data.len() - self.data_offset;
        let next_length: usize = if remaining <= limit {
            remaining
        } else {
            limit
        };
        let data = copy_range(&self.data, self.data_offset, self.data_offset + next_length);
        assert(data@ == self@.next_chunk(limit));
        Request::ChangeProperty8 {
            mode: PROP_MODE_REPLACE,
            window: self.requestor,
            property: self.property,
            type_: self.target,
            data,
        }
    }

    /// Moves the cursor past the next chunk. The result tells whether
    /// nothing was left before the move: the chunk was the empty one that
    /// ends the transfer.
    pub fn continue_incremental(&mut self, limit: usize) -> (done: bool)
        ensures
            final(self)@ == old(self)@.advanced(limit),
            done == old(self)@.finished(),
    {
        proof {
            use_type_invariant(&*self);
        }
        let remaining: usize = self.data.len() - self.data_offset;
        let next_length: usize = if remaining <= limit {
            remaining
        } else {
            limit
        };
        self.data_offset = self.data_offset + next_length;
        remaining == 0
    }

    /// The notification that tells the requestor that the transfer has
    /// begun.
    pub fn notification(&self) -> (answer: SelectionNotifyEvent)
        ensures
            answer == self@.notification(),
    {
        SelectionNotifyEvent {
            response_type: SELECTION_NOTIFY_EVENT,
            sequence: 0,
            time: self.time,
            requestor: self.requestor,
            selection: self.selection,
            target: self.target,
            property: self.property,
        }
    }
}

} // verus!
