use clipboard_owner::contents::ClipboardContents;
use clipboard_owner::engine::{Progress, Task};
use clipboard_owner::format::ClipboardFormat;
use clipboard_owner::protocol::{
    ClipboardError, Outcome, Request, SelectionClearEvent, SelectionNotifyEvent,
    SelectionRequestEvent,
};
use clipboard_owner::state::{intern_atom, ClipboardAtoms, ClipboardState};

const CLIPBOARD: u32 = 100;
const TARGETS: u32 = 101;
const INCR: u32 = 102;
const SCREEN: usize = 2;

fn new_state() -> ClipboardState {
    ClipboardState::new(ClipboardAtoms { clipboard: CLIPBOARD, targets: TARGETS, incr: INCR }, SCREEN)
}

/// Issues every request of an operation and answers it with `server`.
fn drive(
    state: &mut ClipboardState,
    first: Progress,
    mut server: impl FnMut(&Request) -> Outcome,
) -> (Vec<Request>, Result<(), ClipboardError>) {
    let mut sent = Vec::new();
    let mut progress = first;
    loop {
        match progress {
            Progress::Done(result) => return (sent, result),
            Progress::Send { request, then } => {
                let outcome = server(&request);
                sent.push(request);
                progress = state.resume(then, outcome);
            }
        }
    }
}

/// A server that hands out `id` as the next identifier, resolves a name to
/// 300 plus its length, and names `owner` as the owner of the selection.
fn server(id: u32, owner: u32) -> impl FnMut(&Request) -> Outcome {
    move |request| match request {
        Request::GenerateId => Ok(id),
        Request::InternAtom { name, .. } => Ok(300 + name.len() as u32),
        Request::GetSelectionOwner { .. } => Ok(owner),
        _ => Ok(0),
    }
}

/// The same server, but the request number `failing` fails with `error`.
fn failing_server(id: u32, failing: usize, error: ClipboardError) -> impl FnMut(&Request) -> Outcome {
    let mut inner = server(id, id);
    let mut count = 0;
    move |request| {
        let now = count;
        count += 1;
        if now == failing {
            Err(error)
        } else {
            inner(request)
        }
    }
}

fn create_window(wid: u32) -> Request {
    Request::CreateWindow {
        depth: 0,
        wid,
        screen: SCREEN,
        x: 0,
        y: 0,
        width: 1,
        height: 1,
        border_width: 0,
        class: 1,
        visual: 0,
    }
}

fn intern(name: &str) -> Request {
    Request::InternAtom { only_if_exists: false, name: name.as_bytes().to_vec() }
}

fn text_and_png() -> Vec<ClipboardFormat> {
    vec![
        ClipboardFormat::new("UTF8_STRING", b"hello".to_vec()),
        ClipboardFormat::new("image/png", vec![1, 2, 3]),
    ]
}

fn put(state: &mut ClipboardState, formats: &[ClipboardFormat], time: u32, id: u32) -> Vec<Request> {
    let first = state.put_formats(formats, time);
    let (sent, result) = drive(state, first, server(id, id));
    assert_eq!(result, Ok(()));
    sent
}

fn request(owner: u32, target: u32) -> SelectionRequestEvent {
    SelectionRequestEvent { time: 77, owner, requestor: 9, selection: CLIPBOARD, target, property: 400 }
}

fn refusal(event: &SelectionRequestEvent) -> Request {
    Request::SendEvent {
        propagate: false,
        destination: event.requestor,
        event_mask: 0,
        event: SelectionNotifyEvent {
            response_type: 31,
            sequence: 0,
            time: event.time,
            requestor: event.requestor,
            selection: event.selection,
            target: event.target,
            property: 0,
        },
    }
}

#[test]
fn new_state_offers_nothing() {
    let state = new_state();
    assert!(state.contents().is_none());
    assert!(state.incremental().is_empty());
}

#[test]
fn put_formats_starts_by_asking_for_an_identifier() {
    let state = new_state();
    let formats = text_and_png();
    match state.put_formats(&formats, 5) {
        Progress::Send { request, then } => {
            assert_eq!(request, Request::GenerateId);
            assert_eq!(then, Task::GenerateId { timestamp: 5, formats: text_and_png() });
        }
        Progress::Done(_) => panic!("a put has requests to issue"),
    }
    assert!(state.contents().is_none());
}

#[test]
fn put_formats_issues_its_requests_in_order() {
    let mut state = new_state();
    let sent = put(&mut state, &text_and_png(), 5000, 70);
    assert_eq!(
        sent,
        vec![
            Request::GenerateId,
            create_window(70),
            intern("UTF8_STRING"),
            intern("image/png"),
            Request::SetSelectionOwner { owner: 70, selection: CLIPBOARD, time: 5000 },
            Request::GetSelectionOwner { selection: CLIPBOARD },
        ]
    );
}

#[test]
fn put_formats_installs_the_confirmed_offer() {
    let mut state = new_state();
    put(&mut state, &text_and_png(), 5000, 70);
    let contents = state.contents().expect("the claim held");
    assert_eq!(contents.owner_window(), 70);
    assert_eq!(contents.timestamp(), 5000);
    assert_eq!(contents.targets(TARGETS), vec![311, 309, TARGETS]);
    assert_eq!(contents.find(311).map(|data| data.to_vec()), Some(b"hello".to_vec()));
    assert_eq!(contents.find(309).map(|data| data.to_vec()), Some(vec![1, 2, 3]));
    assert!(contents.find(310).is_none());
}

#[test]
fn put_formats_with_no_format_claims_an_empty_offer() {
    let mut state = new_state();
    let sent = put(&mut state, &[], 1, 70);
    assert_eq!(
        sent,
        vec![
            Request::GenerateId,
            create_window(70),
            Request::SetSelectionOwner { owner: 70, selection: CLIPBOARD, time: 1 },
            Request::GetSelectionOwner { selection: CLIPBOARD },
        ]
    );
    let contents = state.contents().expect("the claim held");
    assert_eq!(contents.targets(TARGETS), vec![TARGETS]);
}

#[test]
fn second_put_replaces_the_offer_and_destroys_the_old_window() {
    let mut state = new_state();
    put(&mut state, &text_and_png(), 5000, 70);
    let sent = put(&mut state, &[ClipboardFormat::new("text/html", b"<b>".to_vec())], 6000, 71);
    assert_eq!(sent.last(), Some(&Request::DestroyWindow { window: 70 }));
    assert_eq!(sent.len(), 6);
    let contents = state.contents().expect("the claim held");
    assert_eq!(contents.owner_window(), 71);
    assert_eq!(contents.timestamp(), 6000);
    assert_eq!(contents.targets(TARGETS), vec![309, TARGETS]);
}

#[test]
fn only_the_latest_confirmed_offer_is_kept() {
    let mut state = new_state();
    let mut destroyed = Vec::new();
    for (round, id) in [70u32, 71, 72, 73].iter().enumerate() {
        let first = state.put_formats(&text_and_png(), round as u32);
        // The server refuses the claim of the third window.
        let owner = if *id == 72 { 71 } else { *id };
        let (sent, result) = drive(&mut state, first, server(*id, owner));
        assert_eq!(result, Ok(()));
        for request in sent {
            if let Request::DestroyWindow { window } = request {
                destroyed.push(window);
            }
        }
    }
    assert_eq!(destroyed, vec![70, 72, 71]);
    assert_eq!(state.contents().map(|contents| contents.owner_window()), Some(73));
}

#[test]
fn unconfirmed_claim_destroys_the_new_window_and_keeps_the_old_offer() {
    let mut state = new_state();
    put(&mut state, &text_and_png(), 5000, 70);
    let first = state.put_formats(&[ClipboardFormat::new("text/html", vec![9])], 10);
    let (sent, result) = drive(&mut state, first, server(71, 70));
    assert_eq!(result, Ok(()));
    assert_eq!(sent.last(), Some(&Request::DestroyWindow { window: 71 }));
    let contents = state.contents().expect("the first offer stays");
    assert_eq!(contents.owner_window(), 70);
    assert_eq!(contents.targets(TARGETS), vec![311, 309, TARGETS]);
}

#[test]
fn unconfirmed_first_claim_leaves_no_offer() {
    let mut state = new_state();
    let first = state.put_formats(&text_and_png(), 10);
    let (sent, result) = drive(&mut state, first, server(70, 0));
    assert_eq!(result, Ok(()));
    assert_eq!(sent.last(), Some(&Request::DestroyWindow { window: 70 }));
    assert!(state.contents().is_none());
}

#[test]
fn unresolved_name_drops_only_that_format() {
    let mut state = new_state();
    let first = state.put_formats(&text_and_png(), 10);
    // Requests: 0 identifier, 1 window, 2 first name, 3 second name.
    let (sent, result) = drive(&mut state, first, failing_server(70, 2, ClipboardError::Protocol));
    assert_eq!(result, Ok(()));
    assert_eq!(sent.len(), 6);
    let contents = state.contents().expect("the claim held");
    assert_eq!(contents.targets(TARGETS), vec![309, TARGETS]);
    assert!(contents.find(311).is_none());
    assert_eq!(contents.find(309).map(|data| data.to_vec()), Some(vec![1, 2, 3]));
}

#[test]
fn unresolved_names_may_leave_an_empty_offer() {
    let mut state = new_state();
    let first = state.put_formats(&text_and_png(), 10);
    let mut inner = server(70, 70);
    let (_, result) = drive(&mut state, first, move |request| match request {
        Request::InternAtom { .. } => Err(ClipboardError::Connection),
        other => inner(other),
    });
    assert_eq!(result, Ok(()));
    assert_eq!(state.contents().map(|contents| contents.targets(TARGETS)), Some(vec![TARGETS]));
}

#[test]
fn put_fails_when_no_identifier_is_left() {
    let mut state = new_state();
    let first = state.put_formats(&text_and_png(), 10);
    let (sent, result) = drive(&mut state, first, failing_server(70, 0, ClipboardError::IdsExhausted));
    assert_eq!(result, Err(ClipboardError::IdsExhausted));
    assert_eq!(sent, vec![Request::GenerateId]);
    assert!(state.contents().is_none());
}

#[test]
fn put_fails_when_the_window_cannot_be_created() {
    let mut state = new_state();
    let first = state.put_formats(&text_and_png(), 10);
    let (sent, result) = drive(&mut state, first, failing_server(70, 1, ClipboardError::Connection));
    assert_eq!(result, Err(ClipboardError::Connection));
    assert_eq!(sent.len(), 2);
    assert!(state.contents().is_none());
}

#[test]
fn put_fails_when_the_claim_cannot_be_sent() {
    let mut state = new_state();
    put(&mut state, &text_and_png(), 5000, 70);
    let first = state.put_formats(&text_and_png(), 10);
    let (sent, result) = drive(&mut state, first, failing_server(71, 4, ClipboardError::Connection));
    assert_eq!(result, Err(ClipboardError::Connection));
    assert_eq!(sent.len(), 5);
    assert_eq!(state.contents().map(|contents| contents.owner_window()), Some(70));
}

#[test]
fn put_fails_when_the_owner_cannot_be_asked() {
    let mut state = new_state();
    put(&mut state, &text_and_png(), 5000, 70);
    let first = state.put_formats(&text_and_png(), 10);
    let (sent, result) = drive(&mut state, first, failing_server(71, 5, ClipboardError::Protocol));
    assert_eq!(result, Err(ClipboardError::Protocol));
    assert_eq!(sent.len(), 6);
    assert_eq!(state.contents().map(|contents| contents.owner_window()), Some(70));
}

#[test]
fn failure_to_destroy_the_old_window_comes_after_the_change() {
    let mut state = new_state();
    put(&mut state, &text_and_png(), 5000, 70);
    let first = state.put_formats(&text_and_png(), 10);
    let (sent, result) = drive(&mut state, first, failing_server(71, 6, ClipboardError::Connection));
    assert_eq!(result, Err(ClipboardError::Connection));
    assert_eq!(sent.last(), Some(&Request::DestroyWindow { window: 70 }));
    assert_eq!(state.contents().map(|contents| contents.owner_window()), Some(71));
}

#[test]
fn clear_for_the_owner_window_drops_the_offer() {
    let mut state = new_state();
    put(&mut state, &text_and_png(), 5000, 70);
    let first = state.handle_clear(&SelectionClearEvent { time: 1, owner: 70, selection: CLIPBOARD });
    assert!(state.contents().is_none());
    let (sent, result) = drive(&mut state, first, server(0, 0));
    assert_eq!(result, Ok(()));
    assert_eq!(sent, vec![Request::DestroyWindow { window: 70 }]);
    assert!(state.contents().is_none());
}

#[test]
fn clear_for_another_window_is_ignored() {
    let mut state = new_state();
    put(&mut state, &text_and_png(), 5000, 70);
    let first = state.handle_clear(&SelectionClearEvent { time: 1, owner: 69, selection: CLIPBOARD });
    assert_eq!(first, Progress::Done(Ok(())));
    assert_eq!(state.contents().map(|contents| contents.owner_window()), Some(70));
}

#[test]
fn clear_without_an_offer_is_ignored() {
    let mut state = new_state();
    let first = state.handle_clear(&SelectionClearEvent { time: 1, owner: 0, selection: CLIPBOARD });
    assert_eq!(first, Progress::Done(Ok(())));
    assert!(state.contents().is_none());
}

#[test]
fn clear_drops_the_offer_even_if_the_window_cannot_be_destroyed() {
    let mut state = new_state();
    put(&mut state, &text_and_png(), 5000, 70);
    let first = state.handle_clear(&SelectionClearEvent { time: 1, owner: 70, selection: CLIPBOARD });
    let (_, result) = drive(&mut state, first, |_| Err(ClipboardError::Connection));
    assert_eq!(result, Err(ClipboardError::Connection));
    assert!(state.contents().is_none());
}

#[test]
fn request_after_clear_is_refused_and_a_new_put_succeeds() {
    let mut state = new_state();
    put(&mut state, &text_and_png(), 5000, 70);
    let first = state.handle_clear(&SelectionClearEvent { time: 1, owner: 70, selection: CLIPBOARD });
    drive(&mut state, first, server(0, 0));

    let event = request(70, 311);
    let first = state.handle_request(&event, 1000);
    let (sent, result) = drive(&mut state, first, server(0, 0));
    assert_eq!(result, Ok(()));
    assert_eq!(sent, vec![refusal(&event)]);

    let sent = put(&mut state, &text_and_png(), 6000, 71);
    // Nothing is left to destroy: the put ends with the question for the owner.
    assert_eq!(sent.last(), Some(&Request::GetSelectionOwner { selection: CLIPBOARD }));
    assert_eq!(state.contents().map(|contents| contents.owner_window()), Some(71));
}

#[test]
fn destroy_names_the_window_once() {
    let mut contents = ClipboardContents::new(70, 5);
    assert_eq!(contents.creation(SCREEN), create_window(70));
    assert_eq!(
        contents.claim(CLIPBOARD),
        Request::SetSelectionOwner { owner: 70, selection: CLIPBOARD, time: 5 }
    );
    assert_eq!(contents.destroy(), Request::DestroyWindow { window: 70 });
    assert_eq!(contents.owner_window(), 0);
    assert_eq!(contents.destroy(), Request::DestroyWindow { window: 0 });
    assert_eq!(contents.timestamp(), 5);
}

#[test]
fn find_gives_the_first_entry_under_a_target() {
    let mut contents = ClipboardContents::new(70, 5);
    contents.offer(300, std::rc::Rc::new(vec![1]));
    contents.offer(301, std::rc::Rc::new(vec![2]));
    contents.offer(300, std::rc::Rc::new(vec![3]));
    assert_eq!(contents.find(300).map(|data| data.to_vec()), Some(vec![1]));
    assert_eq!(contents.find(301).map(|data| data.to_vec()), Some(vec![2]));
    assert!(contents.find(302).is_none());
    assert_eq!(contents.targets(9), vec![300, 301, 300, 9]);
}

#[test]
fn intern_atom_asks_for_the_bytes_of_the_name() {
    assert_eq!(
        intern_atom("INCR"),
        Request::InternAtom { only_if_exists: false, name: vec![b'I', b'N', b'C', b'R'] }
    );
    assert_eq!(intern_atom(""), Request::InternAtom { only_if_exists: false, name: vec![] });
}

#[test]
fn forged_intern_task_past_the_formats_goes_on_to_the_claim() {
    let mut state = new_state();
    let task = Task::InternAtom { contents: ClipboardContents::new(70, 5), formats: text_and_png(), index: 7 };
    match state.resume(task, Ok(300)) {
        Progress::Send { request, then } => {
            assert_eq!(request, Request::SetSelectionOwner { owner: 70, selection: CLIPBOARD, time: 5 });
            assert_eq!(then, Task::SetSelectionOwner { contents: ClipboardContents::new(70, 5) });
        }
        Progress::Done(_) => panic!("the claim follows"),
    }
}
