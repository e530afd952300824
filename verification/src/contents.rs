//! What the owner offers while it owns the selection: the window that stands
//! for it, the time of the claim, and the data under each target.

use crate::buffer::share;
use crate::protocol::{
    Atom, Request, RequestView, Timestamp, Window, COPY_DEPTH_FROM_PARENT, COPY_FROM_PARENT, NONE,
    WINDOW_CLASS_INPUT_OUTPUT,
};
use std::rc::Rc;
use vstd::prelude::*;

verus! {

/// A [`ClipboardContents`] as a mathematical value.
pub struct ContentsView {
    pub owner_window: Window,
    pub timestamp: Timestamp,
    pub data: Seq<(Atom, Seq<u8>)>,
}

impl ContentsView {
    /// Contents that offer nothing yet.
    pub open spec fn empty(owner_window: Window, timestamp: Timestamp) -> ContentsView {
        ContentsView { owner_window, timestamp, data: Seq::empty() }
    }

    /// These contents with `data` added under `atom`, after what they hold.
    pub open spec fn offer(self, atom: Atom, data: Seq<u8>) -> ContentsView {
        ContentsView { data: self.data.push((atom, data)), ..self }
    }

    /// The target of each entry, in order.
    pub open spec fn atoms(self) -> Seq<Atom> {
        self.data.map_values(|entry: (Atom, Seq<u8>)| entry.0)
    }

    /// The answer to a `TARGETS` request: every target on offer, then
    /// `targets`, the atom `TARGETS` itself.
    pub open spec fn targets(self, targets: Atom) -> Seq<Atom> {
        self.atoms().push(targets)
    }

    /// The data of the first entry under `target`, if there is one.
    pub open spec fn find(self, target: Atom) -> Option<Seq<u8>> {
        match self.atoms().index_of_first(target) {
            Some(index) => Some(self.data[index].1),
            None => None,
        }
    }

    /// The request that creates the owner window: one pixel wide and high,
    /// at the origin of the root window of screen `screen`, never mapped.
    pub open spec fn creation(self, screen: usize) -> RequestView {
        RequestView::CreateWindow {
            depth: COPY_DEPTH_FROM_PARENT,
            wid: self.owner_window,
            screen,
            x: 0,
            y: 0,
            width: 1,
            height: 1,
            border_width: 0,
            class: WINDOW_CLASS_INPUT_OUTPUT,
            visual: COPY_FROM_PARENT,
        }
    }

    /// The request that claims `selection` for the owner window, as of the
    /// time of these contents.
    pub open spec fn claim(self, selection: Atom) -> RequestView {
        RequestView::SetSelectionOwner {
            owner: self.owner_window,
            selection,
            time: self.timestamp,
        }
    }

    /// The request that destroys the owner window.
    pub open spec fn destruction(self) -> RequestView {
        RequestView::DestroyWindow { window: self.owner_window }
    }

    /// These contents after their window is destroyed: they name no window.
    pub open spec fn destroyed(self) -> ContentsView {
        ContentsView { owner_window: NONE, ..self }
    }
}

/// The offer of a selection owner.
#[derive(Debug, PartialEq, Eq)]
pub struct ClipboardContents {
    owner_window: Window,
    timestamp: Timestamp,
    data: Vec<(Atom, Rc<Vec<u8>>)>,
}

impl View for ClipboardContents {
    type V = ContentsView;

    closed spec fn view(&self) -> ContentsView {
        ContentsView {
            owner_window: self.owner_window,
            timestamp: self.timestamp,
            data: self.data@.map_values(|entry: (Atom, Rc<Vec<u8>>)| (entry.0, entry.1@)),
        }
    }
}

impl ClipboardContents {
    /// Contents for the owner window `owner_window`, claimed as of
    /// `timestamp`, that offer nothing yet.
    pub fn new(owner_window: Window, timestamp: Timestamp) -> (contents: Self)
        ensures
            contents@ == ContentsView::empty(owner_window, timestamp),
    {
        let contents = ClipboardContents { owner_window, timestamp, data: Vec::new() };
        assert(contents@.data == Seq::<(Atom, Seq<u8>)>::empty());
        contents
    }

    /// Adds `data` under `atom`, after the entries already there.
    pub fn offer(&mut self, atom: Atom, data: Rc<Vec<u8>>)
        ensures
            final(self)@ == old(self)@.offer(atom, data@),
    {
        self.data.push((atom, data));
        assert(final(self)@.data == old(self)@.data.push((atom, data@)));
    }

    /// The window that stands for the owner.
    pub fn owner_window(&self) -> (window: Window)
        ensures
            window == self@.owner_window,
    {
        self.owner_window
    }

    /// The time of the claim.
    pub fn timestamp(&self) -> (time: Timestamp)
        ensures
            time == self@.timestamp,
    {
        self.timestamp
    }

    /// The list that answers a `TARGETS` request: every target on offer, in
    /// order, then `targets`.
    pub fn targets(&self, targets: Atom) -> (atoms: Vec<Atom>)
        ensures
            atoms@ == self@.targets(targets),
    {
        let mut atoms: Vec<Atom> = Vec::new();
        let mut i: usize = 0;
        while i < self.data.len()
            invariant
                i <= self.data@.len(),
                atoms@ == self@.atoms().take(i as int),
            decreases self.data@.len() - i,
        {
            atoms.push(self.data[i].0);
            i += 1;
        }
        assert(self@.atoms().take(i as int) == self@.atoms());
        atoms.push(targets);
        atoms
    }

    /// The data of the first entry under `target`, held in common with
    /// these contents.
    pub fn find(&self, target: Atom) -> (data: Option<Rc<Vec<u8>>>)
        ensures
            match data {
                Some(data) => self@.find(target) == Some(data@),
                None => self@.find(target).is_none(),
            },
    {
        let mut i: usize = 0;
        while i < self.data.len()
            invariant
                i <= self.data@.len(),
                forall|j: int| 0 <= j < i ==> self@.atoms()[j] != target,
            decreases self.data@.len() - i,
        {
            if self.data[i].0 == target {
                proof {
                    self@.atoms().index_of_first_ensures(target);
                    assert(self@.atoms()[i as int] == target);
                }
                return Some(share(&self.data[i].1));
            }
            i += 1;
        }
        proof {
            self@.atoms().index_of_first_ensures(target);
        }
        None
    }

    /// The request that creates the owner window on screen `screen`.
    pub fn creation(&self, screen: usize) -> (request: Request)
        ensures
            request@ == self@.creation(screen),
    {
        Request::CreateWindow {
            depth: COPY_DEPTH_FROM_PARENT,
            wid: self.owner_window,
            screen,
            x: 0,
            y: 0,
            width: 1,
            height: 1,
            border_width: 0,
            class: WINDOW_CLASS_INPUT_OUTPUT,
            visual: COPY_FROM_PARENT,
        }
    }

    /// The request that claims `selection` for the owner window.
    pub fn claim(&self, selection: Atom) -> (request: Request)
        ensures
            request@ == self@.claim(selection),
    {
        Request::SetSelectionOwner {
            owner: self.owner_window,
            selection,
            time: self.timestamp,
        }
    }

    /// Gives up the owner window: the result is the request that destroys
    /// it, and the contents name the null window from then on, so that a
    /// second call asks for the null window, not for one that is gone.
    pub fn destroy(&mut self) -> (request: Request)
        ensures
            request@ == old(self)@.destruction(),
            final(self)@ == old(self)@.destroyed(),
    {
        let window = self.owner_window;
        self.owner_window = NONE;
        Request::DestroyWindow { window }
    }
}

} // verus!
