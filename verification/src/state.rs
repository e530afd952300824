//! The selection owner: what it offers at present, which transfers are under
//! way, and how it answers the three events that concern it.

use crate::buffer::copy_range;
use crate::contents::{ClipboardContents, ContentsView};
use crate::engine::{conclude, format_views, Progress, ProgressView, Task, TaskView};
use crate::format::{ClipboardFormat, FormatView};
use crate::protocol::{
    deliver, delivery, notification, notify, reject_transfer, rejection, Atom, Outcome,
    PropertyNotifyEvent, Request, RequestView, SelectionClearEvent, SelectionRequestEvent,
    Timestamp, Window, ATOM_ATOM, PROPERTY_DELETE, PROP_MODE_REPLACE,
};
use crate::transfer::{IncrementalTransfer, TransferView};
use std::rc::Rc;
use vstd::prelude::*;
use vstd::string::StringSliceAdditionalSpecFns;

verus! {

/// The atoms that the owner needs by name.
#[derive(Clone, Copy, Debug, PartialEq, Eq)]
pub struct ClipboardAtoms {
    /// `CLIPBOARD`, the selection.
    pub clipboard: Atom,
    /// `TARGETS`, the target that asks for the list of targets.
    pub targets: Atom,
    /// `INCR`, the type that announces an incremental transfer.
    pub incr: Atom,
}

/// The transfers of a list as mathematical values, in order.
pub open spec fn transfer_views(transfers: Seq<IncrementalTransfer>) -> Seq<TransferView> {
    transfers.map_values(|transfer: IncrementalTransfer| transfer@)
}

/// The request that resolves `name`, creating the atom if need be.
pub open spec fn interning(name: Seq<u8>) -> RequestView {
    RequestView::InternAtom { only_if_exists: false, name }
}

/// The test that a transfer does not write to `property` of `window`.
pub open spec fn elsewhere(window: Window, property: Atom) -> spec_fn(TransferView) -> bool {
    |transfer: TransferView| !transfer.matches(window, property)
}

/// A [`ClipboardState`] as a mathematical value.
pub struct StateView {
    pub screen_num: usize,
    pub atoms: ClipboardAtoms,
    pub contents: Option<ContentsView>,
    pub incremental: Seq<TransferView>,
}

impl StateView {
    /// The state of an owner that offers nothing.
    pub open spec fn initial(atoms: ClipboardAtoms, screen_num: usize) -> StateView {
        StateView { screen_num, atoms, contents: None, incremental: Seq::empty() }
    }

    /// Every transfer's cursor lies within its payload.
    pub open spec fn wf(self) -> bool {
        forall|i: int| 0 <= i < self.incremental.len() ==> (#[trigger] self.incremental[i]).wf()
    }

    /// Whether `window` is the owner window of the present offer.
    pub open spec fn owns(self, window: Window) -> bool {
        match self.contents {
            Some(contents) => contents.owner_window == window,
            None => false,
        }
    }

    /// For each transfer, the window and the property that it writes to.
    pub open spec fn destinations(self) -> Seq<(Window, Atom)> {
        self.incremental.map_values(|transfer: TransferView| (transfer.requestor, transfer.property))
    }

    /// The first transfer that writes to `property` of `window`.
    pub open spec fn transfer_index(self, window: Window, property: Atom) -> Option<int> {
        self.destinations().index_of_first((window, property))
    }

    /// The transfers that do not write to `property` of `window`.
    pub open spec fn other_transfers(self, window: Window, property: Atom) -> Seq<TransferView> {
        self.incremental.filter(elsewhere(window, property))
    }

    /// What comes after the window exists and the formats before `index` are
    /// dealt with: the next name to resolve, or the claim.
    pub open spec fn next_format(
        self,
        contents: ContentsView,
        formats: Seq<FormatView>,
        index: int,
    ) -> ProgressView {
        if 0 <= index < formats.len() {
            ProgressView::Send {
                request: interning(formats[index].name),
                then: TaskView::InternAtom { contents, formats, index },
            }
        } else {
            ProgressView::Send {
                request: contents.claim(self.atoms.clipboard),
                then: TaskView::SetSelectionOwner { contents },
            }
        }
    }

    /// The start of a new offer: an identifier for its window is asked for.
    pub open spec fn put_formats(self, formats: Seq<FormatView>, timestamp: Timestamp) -> ProgressView {
        ProgressView::Send {
            request: RequestView::GenerateId,
            then: TaskView::GenerateId { timestamp, formats },
        }
    }

    /// The state after the server's answer to the claim of `contents`, which
    /// names `owner`: the claim held and `contents` are the offer, or it did
    /// not and nothing changes.
    pub open spec fn confirmed(self, contents: ContentsView, owner: Window) -> StateView {
        if owner == contents.owner_window {
            StateView { contents: Some(contents), ..self }
        } else {
            self
        }
    }

    /// The window to destroy after the server's answer to the claim of
    /// `contents`: that of the offer that was replaced, or that of
    /// `contents` if the claim did not hold.
    pub open spec fn superseded(self, contents: ContentsView, owner: Window) -> Option<ContentsView> {
        if owner == contents.owner_window {
            self.contents
        } else {
            Some(contents)
        }
    }

    /// The loss of the selection: if `event` names the owner window, the
    /// offer is dropped and its window destroyed; if not, nothing happens.
    pub open spec fn handle_clear(self, event: SelectionClearEvent) -> (StateView, ProgressView) {
        if self.owns(event.owner) {
            (
                StateView { contents: None, ..self },
                ProgressView::Send {
                    request: self.contents.unwrap().destruction(),
                    then: TaskView::Finish,
                },
            )
        } else {
            (self, ProgressView::Done(Ok(())))
        }
    }

    /// The refusal of `event`.
    pub open spec fn refusal(event: SelectionRequestEvent) -> ProgressView {
        ProgressView::Send { request: rejection(event), then: TaskView::Finish }
    }

    /// The write of `data`, in one piece, to the property that `event`
    /// names.
    pub open spec fn direct_write(event: SelectionRequestEvent, data: Seq<u8>) -> RequestView {
        RequestView::ChangeProperty8 {
            mode: PROP_MODE_REPLACE,
            window: event.requestor,
            property: event.property,
            type_: event.target,
            data,
        }
    }

    /// The write of the list of targets to the property that `event` names.
    pub open spec fn targets_write(self, event: SelectionRequestEvent) -> RequestView {
        RequestView::ChangeProperty32 {
            mode: PROP_MODE_REPLACE,
            window: event.requestor,
            property: event.property,
            type_: ATOM_ATOM,
            data: self.contents.unwrap().targets(self.atoms.targets),
        }
    }

    /// The first step of the answer to `event`, where one property write
    /// holds at most `limit` bytes.
    pub open spec fn handle_request(self, event: SelectionRequestEvent, limit: usize) -> ProgressView {
        if !self.owns(event.owner) {
            Self::refusal(event)
        } else if event.target == self.atoms.targets {
            ProgressView::Send {
                request: self.targets_write(event),
                then: TaskView::ChangeProperty { answer: notification(event, event.property) },
            }
        } else {
            match self.contents.unwrap().find(event.target) {
                None => Self::refusal(event),
                Some(data) => if data.len() > limit {
                    ProgressView::Send {
                        request: TransferView::start(event, data).subscription(),
                        then: TaskView::ChangeWindowAttributes {
                            transfer: TransferView::start(event, data),
                        },
                    }
                } else {
                    ProgressView::Send {
                        request: Self::direct_write(event, data),
                        then: TaskView::ChangeProperty {
                            answer: notification(event, event.property),
                        },
                    }
                },
            }
        }
    }

    /// The first step of the answer to `event`: the next chunk of the first
    /// transfer that writes to the deleted property, if there is one.
    pub open spec fn handle_property_notify(self, event: PropertyNotifyEvent, limit: usize) -> ProgressView {
        if event.state != PROPERTY_DELETE {
            ProgressView::Done(Ok(()))
        } else {
            match self.transfer_index(event.window, event.atom) {
                None => ProgressView::Done(Ok(())),
                Some(index) => ProgressView::Send {
                    request: self.incremental[index].next_write(limit),
                    then: TaskView::WriteChunk { event, limit },
                },
            }
        }
    }

    /// The state after the chunk written in answer to `event` is out: the
    /// transfer has moved on, or, if the chunk was the empty one that ends
    /// it, every transfer to that property of that window is gone.
    pub open spec fn chunk_written(self, event: PropertyNotifyEvent, limit: usize) -> StateView {
        match self.transfer_index(event.window, event.atom) {
            None => self,
            Some(index) => if self.incremental[index].finished() {
                StateView { incremental: self.other_transfers(event.window, event.atom), ..self }
            } else {
                StateView {
                    incremental: self.incremental.update(
                        index,
                        self.incremental[index].advanced(limit),
                    ),
                    ..self
                }
            },
        }
    }

    /// The state with `transfer` after the transfers already under way.
    pub open spec fn holding(self, transfer: TransferView) -> StateView {
        StateView { incremental: self.incremental.push(transfer), ..self }
    }

    /// The state after the request that `task` waited for ended with
    /// `outcome`.
    pub open spec fn resumed(self, task: TaskView, outcome: Outcome) -> StateView {
        match (task, outcome) {
            (TaskView::GetSelectionOwner { contents }, Ok(owner)) => self.confirmed(contents, owner),
            (TaskView::Announce { transfer }, Ok(_)) => self.holding(transfer),
            (TaskView::WriteChunk { event, limit }, Ok(_)) => self.chunk_written(event, limit),
            _ => self,
        }
    }

    /// What comes after the request that `task` waited for has succeeded
    /// with the reply `reply`.
    pub open spec fn succeeded(self, task: TaskView, reply: u32) -> ProgressView {
        match task {
            TaskView::GenerateId { timestamp, formats } => ProgressView::Send {
                request: ContentsView::empty(reply, timestamp).creation(self.screen_num),
                then: TaskView::CreateWindow {
                    contents: ContentsView::empty(reply, timestamp),
                    formats,
                },
            },
            TaskView::CreateWindow { contents, formats } => self.next_format(contents, formats, 0),
            TaskView::InternAtom { contents, formats, index } => self.next_format(
                if 0 <= index < formats.len() {
                    contents.offer(reply, formats[index].data)
                } else {
                    contents
                },
                formats,
                index + 1,
            ),
            TaskView::SetSelectionOwner { contents } => ProgressView::Send {
                request: RequestView::GetSelectionOwner { selection: self.atoms.clipboard },
                then: TaskView::GetSelectionOwner { contents },
            },
            TaskView::GetSelectionOwner { contents } => match self.superseded(contents, reply) {
                Some(old) => ProgressView::Send {
                    request: old.destruction(),
                    then: TaskView::Finish,
                },
                None => ProgressView::Done(Ok(())),
            },
            TaskView::ChangeProperty { answer } => ProgressView::Send {
                request: delivery(answer),
                then: TaskView::Finish,
            },
            TaskView::ChangeWindowAttributes { transfer } => ProgressView::Send {
                request: transfer.announcement(self.atoms.incr),
                then: TaskView::Announce { transfer },
            },
            TaskView::Announce { transfer } => ProgressView::Send {
                request: delivery(transfer.notification()),
                then: TaskView::Finish,
            },
            TaskView::WriteChunk { event, limit } => ProgressView::Done(Ok(())),
            TaskView::Finish => ProgressView::Done(Ok(())),
        }
    }

    /// What comes after the request that `task` waited for ended with
    /// `outcome`. A name that the server does not resolve costs the offer
    /// that one format; any other failure ends the operation.
    pub open spec fn resume(self, task: TaskView, outcome: Outcome) -> ProgressView {
        match outcome {
            Ok(reply) => self.succeeded(task, reply),
            Err(error) => match task {
                TaskView::InternAtom { contents, formats, index } => self.next_format(
                    contents,
                    formats,
                    index + 1,
                ),
                _ => ProgressView::Done(Err(error)),
            },
        }
    }
}

/// Removing an element that fails a test does not change what passes it.
proof fn lemma_filter_remove<A>(s: Seq<A>, pred: spec_fn(A) -> bool, i: int)
    requires
        0 <= i < s.len(),
        !pred(s[i]),
    ensures
        s.remove(i).filter(pred) == s.filter(pred),
{
    let before = s.take(i);
    let after = s.skip(i + 1);
    assert(s =~= before.push(s[i]) + after);
    assert(s.remove(i) =~= before + after);
    Seq::filter_distributes_over_add(before.push(s[i]), after, pred);
    Seq::filter_distributes_over_add(before, after, pred);
    before.lemma_filter_push(s[i], pred);
}

/// The request that resolves `name` to an atom, creating the atom if the
/// server does not know the name.
pub fn intern_atom(name: &str) -> (request: Request)
    ensures
        request@ == interning(name.spec_bytes()),
{
    let bytes = name.as_bytes();
    let mut copy: Vec<u8> = Vec::new();
    let mut i: usize = 0;
    while i < bytes.len()
        invariant
            i <= bytes@.len(),
            copy@ == bytes@.take(i as int),
        decreases bytes@.len() - i,
    {
        copy.push(bytes[i]);
        i += 1;
    }
    assert(bytes@.take(bytes@.len() as int) == bytes@);
    Request::InternAtom { only_if_exists: false, name: copy }
}

/// Drops from `transfers` those that write to the property that `event` is
/// about, and keeps the others in order.
fn discard_matching(transfers: &mut Vec<IncrementalTransfer>, event: &PropertyNotifyEvent)
    ensures
        transfer_views(final(transfers)@) == transfer_views(old(transfers)@).filter(
            elsewhere(event.window, event.atom),
        ),
{
    let ghost initial = transfer_views(transfers@);
    let ghost keep = elsewhere(event.window, event.atom);
    let ghost mut seen: int = 0;
    let mut i: usize = 0;
    proof {
        reveal(Seq::filter);
        assert(initial.take(0).filter(keep) =~= Seq::<TransferView>::empty());
        assert(initial.skip(0) =~= initial);
    }
    while i < transfers.len()
        invariant
            0 <= seen <= initial.len(),
            keep == elsewhere(event.window, event.atom),
            i == initial.take(seen).filter(keep).len(),
            transfers@.len() == i + initial.len() - seen,
            transfer_views(transfers@) == initial.take(seen).filter(keep) + initial.skip(seen),
        decreases initial.len() - seen,
    {
        proof {
            assert(transfer_views(transfers@)[i as int] == initial.skip(seen)[0]);
            initial.lemma_take_succ_push(seen);
            initial.take(seen).lemma_filter_push(initial[seen], keep);
        }
        let ghost before = transfer_views(transfers@);
        if transfers[i].matches(event) {
            let gone = transfers.remove(i);
            proof {
                assert(transfer_views(transfers@) =~= before.remove(i as int));
                assert(before.remove(i as int) =~= initial.take(seen + 1).filter(keep)
                    + initial.skip(seen + 1));
            }
        } else {
            proof {
                assert(before =~= initial.take(seen + 1).filter(keep) + initial.skip(seen + 1));
            }
            i += 1;
        }
        proof {
            seen = seen + 1;
        }
    }
    proof {
        assert(initial.take(seen) =~= initial);
        assert(initial.skip(seen) =~= Seq::<TransferView>::empty());
        assert(transfer_views(transfers@) =~= initial.filter(keep));
    }
}

/// The selection owner. It holds at most one offer, and any number of
/// transfers, each with its own handle on the data that it delivers: a
/// transfer goes on when the offer that it came from is gone.
#[derive(Debug)]
pub struct ClipboardState {
    screen_num: usize,
    atoms: ClipboardAtoms,
    contents: Option<ClipboardContents>,
    incremental: Vec<IncrementalTransfer>,
}

impl View for ClipboardState {
    type V = StateView;

    closed spec fn view(&self) -> StateView {
        StateView {
            screen_num: self.screen_num,
            atoms: self.atoms,
            contents: match self.contents {
                Some(contents) => Some(contents@),
                None => None,
            },
            incremental: transfer_views(self.incremental@),
        }
    }
}

impl ClipboardState {
    /// An owner that offers nothing, for the screen `screen_num` of a server
    /// on which the three names resolve to `atoms`.
    pub fn new(atoms: ClipboardAtoms, screen_num: usize) -> (state: Self)
        ensures
            state@ == StateView::initial(atoms, screen_num),
    {
        let state = ClipboardState { screen_num, atoms, contents: None, incremental: Vec::new() };
        assert(state@.incremental =~= Seq::<TransferView>::empty());
        state
    }

    /// The present offer, if there is one.
    pub fn contents(&self) -> (contents: Option<&ClipboardContents>)
        ensures
            match contents {
                Some(contents) => self@.contents == Some(contents@),
                None => self@.contents.is_none(),
            },
    {
        self.contents.as_ref()
    }

    /// The transfers under way, the oldest first.
    pub fn incremental(&self) -> (transfers: &Vec<IncrementalTransfer>)
        ensures
            transfer_views(transfers@) == self@.incremental,
    {
        &self.incremental
    }

    /// The first transfer that writes to the property that `event` is about.
    fn find_transfer(&self, event: &PropertyNotifyEvent) -> (found: Option<usize>)
        ensures
            match found {
                Some(index) => self@.transfer_index(event.window, event.atom) == Some(index as int)
                    && index < self.incremental@.len(),
                None => self@.transfer_index(event.window, event.atom).is_none(),
            },
    {
        let mut i: usize = 0;
        while i < self.incremental.len()
            invariant
                i <= self.incremental@.len(),
                forall|j: int| 0 <= j < i ==> self@.destinations()[j] != (event.window, event.atom),
            decreases self.incremental@.len() - i,
        {
            if self.incremental[i].matches(event) {
                proof {
                    self@.destinations().index_of_first_ensures((event.window, event.atom));
                    assert(self@.destinations()[i as int] == (event.window, event.atom));
                }
                return Some(i);
            }
            i += 1;
        }
        proof {
            self@.destinations().index_of_first_ensures((event.window, event.atom));
        }
        None
    }

    /// What comes after the formats before `index` are dealt with.
    fn next_format(&self, contents: ClipboardContents, formats: Vec<ClipboardFormat>, index: usize) -> (progress: Progress)
        ensures
            progress@ == self@.next_format(contents@, format_views(formats@), index as int),
    {
        if index < formats.len() {
            let request = intern_atom(formats[index].identifier);
            Progress::Send { request, then: Task::InternAtom { contents, formats, index } }
        } else {
            let request = contents.claim(self.atoms.clipboard);
            Progress::Send { request, then: Task::SetSelectionOwner { contents } }
        }
    }

    /// Starts a new offer of `formats`, to be claimed as of `timestamp`. The
    /// offer in force stays until the server confirms the new claim.
    pub fn put_formats(&self, formats: &[ClipboardFormat], timestamp: Timestamp) -> (progress: Progress)
        ensures
            progress@ == self@.put_formats(format_views(formats@), timestamp),
    {
        let mut copies: Vec<ClipboardFormat> = Vec::new();
        let mut i: usize = 0;
        while i < formats.len()
            invariant
                i <= formats@.len(),
                format_views(copies@) == format_views(formats@).take(i as int),
            decreases formats@.len() - i,
        {
            let ghost before = format_views(copies@);
            copies.push(formats[i].duplicate());
            assert(format_views(copies@) =~= before.push(formats@[i as int]@));
            i += 1;
        }
        assert(format_views(formats@).take(i as int) == format_views(formats@));
        Progress::Send {
            request: Request::GenerateId,
            then: Task::GenerateId { timestamp, formats: copies },
        }
    }

    /// Answers the loss of the selection. If `event` names the window of the
    /// present offer, the offer is dropped and its window destroyed; an
    /// event that names another window changes nothing.
    pub fn handle_clear(&mut self, event: &SelectionClearEvent) -> (progress: Progress)
        ensures
            (final(self)@, progress@) == old(self)@.handle_clear(*event),
    {
        let owned = match &self.contents {
            Some(contents) => contents.owner_window() == event.owner,
            None => false,
        };
        if owned {
            match self.contents.take() {
                Some(mut contents) => {
                    let request = contents.destroy();
                    Progress::Send { request, then: Task::Finish }
                },
                None => Progress::Done(Ok(())),
            }
        } else {
            Progress::Done(Ok(()))
        }
    }

    /// Answers a request for the selection, where one property write holds
    /// at most `limit` bytes.
    ///
    /// A request that does not name the window of the present offer, or asks
    /// for a target that is not on offer, is refused. A request for
    /// `TARGETS` gets the list of targets. Data of at most `limit` bytes is
    /// written at once; for longer data an incremental transfer begins. In
    /// each of these three cases a notification follows.
    pub fn handle_request(&self, event: &SelectionRequestEvent, limit: usize) -> (progress: Progress)
        ensures
            progress@ == self@.handle_request(*event, limit),
    {
        let contents = match &self.contents {
            Some(contents) => contents,
            None => {
                return Progress::Send { request: reject_transfer(event), then: Task::Finish };
            },
        };
        if contents.owner_window() != event.owner {
            return Progress::Send { request: reject_transfer(event), then: Task::Finish };
        }
        if event.target == self.atoms.targets {
            let atoms = contents.targets(self.atoms.targets);
            return Progress::Send {
                request: Request::ChangeProperty32 {
                    mode: PROP_MODE_REPLACE,
                    window: event.requestor,
                    property: event.property,
                    type_: ATOM_ATOM,
                    data: atoms,
                },
                then: Task::ChangeProperty { answer: notify(event, event.property) },
            };
        }
        match contents.find(event.target) {
            None => Progress::Send { request: reject_transfer(event), then: Task::Finish },
            Some(data) => {
                if data.len() > limit {
                    let transfer = IncrementalTransfer::new(event, data);
                    let request = transfer.subscription();
                    Progress::Send { request, then: Task::ChangeWindowAttributes { transfer } }
                } else {
                    let bytes = copy_range(&data, 0, data.len());
                    assert(bytes@ == data@);
                    Progress::Send {
                        request: Request::ChangeProperty8 {
                            mode: PROP_MODE_REPLACE,
                            window: event.requestor,
                            property: event.property,
                            type_: event.target,
                            data: bytes,
                        },
                        then: Task::ChangeProperty { answer: notify(event, event.property) },
                    }
                }
            },
        }
    }

    /// Answers a change of a property. Only a deletion counts: the requestor
    /// has taken the last chunk. The first transfer that writes to that
    /// property of that window writes its next chunk, of at most `limit`
    /// bytes; where there is none, nothing happens.
    pub fn handle_property_notify(&self, event: &PropertyNotifyEvent, limit: usize) -> (progress: Progress)
        ensures
            progress@ == self@.handle_property_notify(*event, limit),
    {
        if event.state != PROPERTY_DELETE {
            return Progress::Done(Ok(()));
        }
        match self.find_transfer(event) {
            None => Progress::Done(Ok(())),
            Some(index) => {
                let request = self.incremental[index].next_write(limit);
                Progress::Send { request, then: Task::WriteChunk { event: *event, limit } }
            },
        }
    }

    /// Records that the chunk written in answer to `event` is out.
    fn chunk_written(&mut self, event: &PropertyNotifyEvent, limit: usize)
        ensures
            final(self)@ == old(self)@.chunk_written(*event, limit),
    {
        match self.find_transfer(event) {
            None => {},
            Some(index) => {
                let ghost before = transfer_views(self.incremental@);
                let mut transfer = self.incremental.remove(index);
                assert(transfer_views(self.incremental@) =~= before.remove(index as int));
                let done = transfer.continue_incremental(limit);
                if done {
                    discard_matching(&mut self.incremental, event);
                    proof {
                        old(self)@.destinations().index_of_first_ensures((event.window, event.atom));
                        assert(old(self)@.destinations()[index as int] == (
                            event.window,
                            event.atom,
                        ));
                        lemma_filter_remove(
                            before,
                            elsewhere(event.window, event.atom),
                            index as int,
                        );
                    }
                } else {
                    self.incremental.insert(index, transfer);
                    assert(transfer_views(self.incremental@) =~= before.update(
                        index as int,
                        before[index as int].advanced(limit),
                    ));
                }
            },
        }
    }

    /// Goes on with the operation that `task` stands for, now that the
    /// request it waited for has ended with `outcome`.
    ///
    /// The state changes at three points only, each after a success: the
    /// server confirms a claim, the length of an incremental transfer is
    /// announced, a chunk is written. A failure ends the operation with that
    /// failure and leaves the state as it is; only a name that does not
    /// resolve is passed over, with its format.
    pub fn resume(&mut self, task: Task, outcome: Outcome) -> (progress: Progress)
        ensures
            final(self)@ == old(self)@.resumed(task@, outcome),
            progress@ == old(self)@.resume(task@, outcome),
    {
        match task {
            Task::InternAtom { mut contents, formats, index } => {
                if index < formats.len() {
                    match outcome {
                        Ok(atom) => {
                            let data = copy_range(&formats[index].data, 0, formats[index].data.len());
                            assert(data@ == formats@[index as int]@.data);
                            contents.offer(atom, Rc::new(data));
                        },
                        Err(_) => {},
                    }
                    self.next_format(contents, formats, index + 1)
                } else {
                    self.next_format(contents, formats, index)
                }
            },
            Task::GenerateId { timestamp, formats } => match outcome {
                Err(error) => Progress::Done(Err(error)),
                Ok(id) => {
                    let contents = ClipboardContents::new(id, timestamp);
                    let request = contents.creation(self.screen_num);
                    Progress::Send { request, then: Task::CreateWindow { contents, formats } }
                },
            },
            Task::CreateWindow { contents, formats } => match outcome {
                Err(error) => Progress::Done(Err(error)),
                Ok(_) => self.next_format(contents, formats, 0),
            },
            Task::SetSelectionOwner { contents } => match outcome {
                Err(error) => Progress::Done(Err(error)),
                Ok(_) => Progress::Send {
                    request: Request::GetSelectionOwner { selection: self.atoms.clipboard },
                    then: Task::GetSelectionOwner { contents },
                },
            },
            Task::GetSelectionOwner { contents } => match outcome {
                Err(error) => Progress::Done(Err(error)),
                Ok(owner) => {
                    let superseded = if owner == contents.owner_window() {
                        let previous = self.contents.take();
                        self.contents = Some(contents);
                        previous
                    } else {
                        Some(contents)
                    };
                    match superseded {
                        Some(mut old) => {
                            let request = old.destroy();
                            Progress::Send { request, then: Task::Finish }
                        },
                        None => Progress::Done(Ok(())),
                    }
                },
            },
            Task::ChangeProperty { answer } => match outcome {
                Err(error) => Progress::Done(Err(error)),
                Ok(_) => Progress::Send { request: deliver(answer), then: Task::Finish },
            },
            Task::ChangeWindowAttributes { transfer } => match outcome {
                Err(error) => Progress::Done(Err(error)),
                Ok(_) => {
                    let request = transfer.announcement(self.atoms.incr);
                    Progress::Send { request, then: Task::Announce { transfer } }
                },
            },
            Task::Announce { transfer } => match outcome {
                Err(error) => Progress::Done(Err(error)),
                Ok(_) => {
                    let request = deliver(transfer.notification());
                    let ghost before = transfer_views(self.incremental@);
                    self.incremental.push(transfer);
                    assert(transfer_views(self.incremental@) =~= before.push(transfer@));
                    Progress::Send { request, then: Task::Finish }
                },
            },
            Task::WriteChunk { event, limit } => match outcome {
                Err(error) => Progress::Done(Err(error)),
                Ok(_) => {
                    self.chunk_written(&event, limit);
                    Progress::Done(Ok(()))
                },
            },
            Task::Finish => conclude(outcome),
        }
    }
}

} // verus!
