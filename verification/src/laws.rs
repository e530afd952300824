//! What holds of the owner whatever the clients and the server do, stated
//! over the mathematical values of the states, tasks and requests.

use crate::contents::ContentsView;
use crate::engine::{ProgressView, TaskView};
use crate::format::FormatView;
use crate::protocol::{
    delivery, notification, rejection, Atom, ClipboardError, Outcome, PropertyNotifyEvent,
    RequestView, SelectionClearEvent, SelectionRequestEvent, Timestamp, Window, NONE,
    PROPERTY_DELETE,
};
use crate::state::{elsewhere, interning, StateView};
use crate::transfer::TransferView;
use vstd::prelude::*;

verus! {

/// What a caller has seen of an operation: the state it left the owner in,
/// what is still to do, and the requests it issued, in order.
pub struct Run {
    pub state: StateView,
    pub progress: ProgressView,
    pub requests: Seq<RequestView>,
}

/// The course of an operation that stands at `progress` in state `state`,
/// for a caller that issues each request and hands back the outcomes
/// `outcomes`, one after the other, for as long as there are requests and
/// outcomes.
pub open spec fn run(state: StateView, progress: ProgressView, outcomes: Seq<Outcome>) -> Run
    decreases outcomes.len(),
{
    match progress {
        ProgressView::Send { request, then } => if outcomes.len() > 0 {
            let rest = run(
                state.resumed(then, outcomes.first()),
                state.resume(then, outcomes.first()),
                outcomes.drop_first(),
            );
            Run { requests: seq![request] + rest.requests, ..rest }
        } else {
            Run { state, progress, requests: Seq::empty() }
        },
        ProgressView::Done(_) => Run { state, progress, requests: Seq::empty() },
    }
}

/// A run that ends the operation well, in `state`, after `requests`.
pub open spec fn completes(state: StateView, requests: Seq<RequestView>) -> Run {
    Run { state, progress: ProgressView::Done(Ok(())), requests }
}

/// A run that ends the operation with the failure `error`, in `state`, after
/// `requests`.
pub open spec fn fails(state: StateView, error: ClipboardError, requests: Seq<RequestView>) -> Run {
    Run { state, progress: ProgressView::Done(Err(error)), requests }
}

/// A failure changes nothing: whatever request failed, the state is the one
/// before. Unless the request was the resolution of a name, the operation
/// ends there, with that failure.
pub proof fn law_failure_ends_operation(state: StateView, task: TaskView, error: ClipboardError)
    ensures
        state.resumed(task, Err(error)) == state,
        !(task is InternAtom) ==> state.resume(task, Err(error)) == ProgressView::Done(
            Err::<(), ClipboardError>(error),
        ),
{
}

/// A name that the server does not resolve costs the offer that one format:
/// the operation goes on with the next format, and the offer is as it was.
pub proof fn law_unresolved_name_drops_one_format(
    state: StateView,
    contents: ContentsView,
    formats: Seq<FormatView>,
    index: int,
    error: ClipboardError,
)
    ensures
        state.resume(TaskView::InternAtom { contents, formats, index }, Err(error))
            == state.next_format(contents, formats, index + 1),
{
}

/// The owner holds one offer at most, and it changes hands at one point
/// only: when the server names the window of a new offer as the owner. The
/// new offer is then the offer, and the window of the one it replaces is
/// destroyed. If the server names any other window, the offer in force
/// stays, and the window of the new one is destroyed.
pub proof fn law_confirmed_claim_replaces(state: StateView, contents: ContentsView, owner: Window)
    ensures
        owner == contents.owner_window ==> {
            &&& state.resumed(TaskView::GetSelectionOwner { contents }, Ok(owner)).contents
                == Some(contents)
            &&& state.resume(TaskView::GetSelectionOwner { contents }, Ok(owner))
                == match state.contents {
                Some(old) => ProgressView::Send {
                    request: RequestView::DestroyWindow { window: old.owner_window },
                    then: TaskView::Finish,
                },
                None => ProgressView::Done(Ok(())),
            }
        },
        owner != contents.owner_window ==> {
            &&& state.resumed(TaskView::GetSelectionOwner { contents }, Ok(owner)) == state
            &&& state.resume(TaskView::GetSelectionOwner { contents }, Ok(owner))
                == ProgressView::Send {
                request: RequestView::DestroyWindow { window: contents.owner_window },
                then: TaskView::Finish,
            }
        },
{
}

/// No other step touches the offer: if a step of `resume` changes it, the
/// step is the confirmation of a claim.
pub proof fn law_offer_changes_on_confirmation_only(
    state: StateView,
    task: TaskView,
    outcome: Outcome,
)
    requires
        state.resumed(task, outcome).contents != state.contents,
    ensures
        task matches TaskView::GetSelectionOwner { contents } && outcome == Ok::<
            u32,
            ClipboardError,
        >(contents.owner_window),
{
}

/// The state after the server has answered the claims `claims`, each an
/// offer with the window that the server named as the owner.
pub open spec fn after_claims(state: StateView, claims: Seq<(ContentsView, Window)>) -> StateView
    decreases claims.len(),
{
    if claims.len() == 0 {
        state
    } else {
        after_claims(state, claims.drop_last()).confirmed(claims.last().0, claims.last().1)
    }
}

/// The last offer among `claims` whose claim held.
pub open spec fn latest_confirmed(claims: Seq<(ContentsView, Window)>) -> Option<ContentsView>
    decreases claims.len(),
{
    if claims.len() == 0 {
        None
    } else if claims.last().1 == claims.last().0.owner_window {
        Some(claims.last().0)
    } else {
        latest_confirmed(claims.drop_last())
    }
}

/// After any sequence of claims the offer is that of the last claim that
/// held; if none held, it is the offer from before.
pub proof fn law_latest_confirmed_claim_is_kept(
    state: StateView,
    claims: Seq<(ContentsView, Window)>,
)
    ensures
        after_claims(state, claims).contents == match latest_confirmed(claims) {
            Some(contents) => Some(contents),
            None => state.contents,
        },
        after_claims(state, claims).incremental == state.incremental,
    decreases claims.len(),
{
    if claims.len() > 0 {
        law_latest_confirmed_claim_is_kept(state, claims.drop_last());
    }
}

/// A request for `TARGETS` is answered with every target on offer, in the
/// order of the offer, and `TARGETS` after them: as a set, the targets
/// together with `TARGETS`. Where the targets on offer differ from each
/// other and from `TARGETS`, the list names nothing twice.
pub proof fn law_targets_are_complete(state: StateView, event: SelectionRequestEvent, limit: usize)
    requires
        state.owns(event.owner),
        event.target == state.atoms.targets,
    ensures
        state.handle_request(event, limit) matches ProgressView::Send {
            request: RequestView::ChangeProperty32 { data, window, property, .. },
            then,
        } && {
            &&& window == event.requestor
            &&& property == event.property
            &&& then == TaskView::ChangeProperty { answer: notification(event, event.property) }
            &&& data == state.contents.unwrap().atoms().push(state.atoms.targets)
            &&& data.to_set() == state.contents.unwrap().atoms().to_set().insert(
                state.atoms.targets,
            )
            &&& state.contents.unwrap().atoms().no_duplicates()
                && !state.contents.unwrap().atoms().contains(state.atoms.targets)
                ==> data.no_duplicates()
        },
{
    let atoms = state.contents.unwrap().atoms();
    atoms.lemma_push_to_set_commute(state.atoms.targets);
}

/// A request that names a window other than the owner window is refused,
/// whatever it asks for: the one request issued is a notification whose
/// property is the null atom. The same holds while there is no offer.
pub proof fn law_foreign_request_is_refused(
    state: StateView,
    event: SelectionRequestEvent,
    limit: usize,
    reply: u32,
)
    requires
        !state.owns(event.owner),
    ensures
        run(state, state.handle_request(event, limit), seq![Ok(reply)]) == completes(
            state,
            seq![rejection(event)],
        ),
        rejection(event) matches RequestView::SendEvent { event: answer, destination, .. }
            && answer.property == NONE && destination == event.requestor,
{
    reveal_with_fuel(run, 3);
    let outcomes = seq![Ok::<u32, ClipboardError>(reply)];
    assert(outcomes.drop_first() =~= Seq::empty());
    assert(seq![rejection(event)] + Seq::<RequestView>::empty() =~= seq![rejection(event)]);
}

/// What a reply to the resolution of a format's name grants: the format's
/// data under the atom, or nothing where the name did not resolve.
pub open spec fn grant() -> spec_fn((FormatView, Outcome)) -> Option<(Atom, Seq<u8>)> {
    |pair: (FormatView, Outcome)|
        match pair.1 {
            Ok(atom) => Some((atom, pair.0.data)),
            Err(_) => None,
        }
}

/// Each format with the reply to the resolution of its name.
pub open spec fn resolved(formats: Seq<FormatView>, replies: Seq<Outcome>) -> Seq<
    (FormatView, Outcome),
> {
    Seq::new(formats.len(), |i: int| (formats[i], replies[i]))
}

/// The entries of an offer of `formats` whose names the server answered with
/// `replies`: the data of each format whose name resolved, under its atom,
/// in the order of the formats.
pub open spec fn granted(formats: Seq<FormatView>, replies: Seq<Outcome>) -> Seq<(Atom, Seq<u8>)> {
    resolved(formats, replies).filter_map(grant())
}

/// The requests that resolve the names of `formats`, in order.
pub open spec fn resolutions(formats: Seq<FormatView>) -> Seq<RequestView> {
    Seq::new(formats.len(), |i: int| interning(formats[i].name))
}

/// The offer of the first `count` of `formats` on the window `id`.
spec fn offer_of_first(
    id: Window,
    timestamp: Timestamp,
    formats: Seq<FormatView>,
    replies: Seq<Outcome>,
    count: int,
) -> ContentsView {
    ContentsView {
        owner_window: id,
        timestamp,
        data: resolved(formats, replies).take(count).filter_map(grant()),
    }
}

/// From the format `from` on, a put resolves each name that is left and then
/// goes on with the claim of what the replies granted.
proof fn lemma_names_are_resolved_in_turn(
    state: StateView,
    id: Window,
    timestamp: Timestamp,
    formats: Seq<FormatView>,
    replies: Seq<Outcome>,
    from: int,
    tail: Seq<Outcome>,
)
    requires
        replies.len() == formats.len(),
        0 <= from <= formats.len(),
    ensures
        ({
            let all = formats.len() as int;
            let last = run(
                state,
                state.next_format(offer_of_first(id, timestamp, formats, replies, all), formats, all),
                tail,
            );
            run(
                state,
                state.next_format(offer_of_first(id, timestamp, formats, replies, from), formats, from),
                replies.skip(from) + tail,
            ) == Run { requests: resolutions(formats).skip(from) + last.requests, ..last }
        }),
    decreases formats.len() - from,
{
    let all = formats.len() as int;
    let last = run(
        state,
        state.next_format(offer_of_first(id, timestamp, formats, replies, all), formats, all),
        tail,
    );
    let outcomes = replies.skip(from) + tail;
    let here = offer_of_first(id, timestamp, formats, replies, from);
    if from == all {
        assert(outcomes =~= tail);
        assert(resolutions(formats).skip(from) + last.requests =~= last.requests);
    } else {
        let next = offer_of_first(id, timestamp, formats, replies, from + 1);
        resolved(formats, replies).lemma_filter_map_take_succ(grant(), from);
        assert(next.data =~= match replies[from] {
            Ok(atom) => here.data.push((atom, formats[from].data)),
            Err(_) => here.data,
        });
        assert(outcomes.first() == replies[from]);
        assert(outcomes.drop_first() =~= replies.skip(from + 1) + tail);
        let task = TaskView::InternAtom { contents: here, formats, index: from };
        assert(state.resume(task, replies[from]) == state.next_format(next, formats, from + 1));
        assert(state.resumed(task, replies[from]) == state);
        lemma_names_are_resolved_in_turn(state, id, timestamp, formats, replies, from + 1, tail);
        let rest = run(state, state.next_format(next, formats, from + 1), outcomes.drop_first());
        assert(seq![interning(formats[from].name)] + rest.requests =~= resolutions(formats).skip(
            from,
        ) + last.requests);
    }
}

/// A put, seen whole. The caller allocates the identifier `id`, creates the
/// window, resolves each name, claims the selection and asks who owns it.
/// If the server then names the new window, the offer is what the replies
/// granted and the window of the offer before is to be destroyed; if it
/// names another, the offer before stays and the new window is to be
/// destroyed.
pub proof fn law_put_installs_offer(
    state: StateView,
    formats: Seq<FormatView>,
    timestamp: Timestamp,
    id: Window,
    created: u32,
    replies: Seq<Outcome>,
    claimed: u32,
    owner: Window,
)
    requires
        replies.len() == formats.len(),
    ensures
        ({
            let contents = ContentsView {
                owner_window: id,
                timestamp,
                data: granted(formats, replies),
            };
            run(
                state,
                state.put_formats(formats, timestamp),
                seq![Ok(id), Ok(created)] + replies + seq![Ok(claimed), Ok(owner)],
            ) == Run {
                state: state.confirmed(contents, owner),
                progress: match state.superseded(contents, owner) {
                    Some(old) => ProgressView::Send {
                        request: old.destruction(),
                        then: TaskView::Finish,
                    },
                    None => ProgressView::Done(Ok(())),
                },
                requests: seq![RequestView::GenerateId, contents.creation(state.screen_num)]
                    + resolutions(formats) + seq![
                    contents.claim(state.atoms.clipboard),
                    RequestView::GetSelectionOwner { selection: state.atoms.clipboard },
                ],
            }
        }),
{
    reveal_with_fuel(run, 3);
    let all = formats.len() as int;
    let contents = ContentsView { owner_window: id, timestamp, data: granted(formats, replies) };
    let tail = seq![Ok::<u32, ClipboardError>(claimed), Ok::<u32, ClipboardError>(owner)];
    let outcomes = seq![Ok::<u32, ClipboardError>(id), Ok::<u32, ClipboardError>(created)] + replies
        + tail;
    let empty = offer_of_first(id, timestamp, formats, replies, 0);
    assert(empty.data =~= Seq::empty());
    assert(empty == ContentsView::empty(id, timestamp));
    assert(resolved(formats, replies).take(all) =~= resolved(formats, replies));
    assert(offer_of_first(id, timestamp, formats, replies, all) == contents);
    assert(outcomes.drop_first() =~= seq![Ok::<u32, ClipboardError>(created)] + replies + tail);
    assert(outcomes.drop_first().drop_first() =~= replies.skip(0) + tail);
    assert(tail.drop_first() =~= seq![Ok::<u32, ClipboardError>(owner)]);
    assert(tail.drop_first().drop_first() =~= Seq::empty());
    lemma_names_are_resolved_in_turn(state, id, timestamp, formats, replies, 0, tail);
    let last = run(state, state.next_format(contents, formats, all), tail);
    assert(last.requests =~= seq![
        contents.claim(state.atoms.clipboard),
        RequestView::GetSelectionOwner { selection: state.atoms.clipboard },
    ]);
    let whole = run(state, state.put_formats(formats, timestamp), outcomes);
    assert(whole.requests =~= seq![RequestView::GenerateId, contents.creation(state.screen_num)]
        + resolutions(formats) + seq![
        contents.claim(state.atoms.clipboard),
        RequestView::GetSelectionOwner { selection: state.atoms.clipboard },
    ]);
}

/// Data that fits into one property write makes the round trip in one piece.
/// Where the offer holds `data` under the target of a request that names the
/// owner window, and `data` is at most `limit` bytes long, the owner writes
/// exactly `data` to the property that the request names, in a single write
/// typed by the target, and then sends a notification that names the same
/// property. The state does not change.
pub proof fn law_small_payload_round_trip(
    state: StateView,
    event: SelectionRequestEvent,
    limit: usize,
    data: Seq<u8>,
    written: u32,
    sent: u32,
)
    requires
        state.owns(event.owner),
        event.target != state.atoms.targets,
        state.contents.unwrap().find(event.target) == Some(data),
        data.len() <= limit,
    ensures
        run(state, state.handle_request(event, limit), seq![Ok(written), Ok(sent)]) == completes(
            state,
            seq![
                StateView::direct_write(event, data),
                delivery(notification(event, event.property)),
            ],
        ),
        StateView::direct_write(event, data) matches RequestView::ChangeProperty8 {
            window,
            property,
            type_,
            data: payload,
            ..
        } && window == event.requestor && property == event.property && type_ == event.target
            && payload == data,
        notification(event, event.property).property == event.property,
{
    reveal_with_fuel(run, 4);
    let outcomes = seq![Ok::<u32, ClipboardError>(written), Ok::<u32, ClipboardError>(sent)];
    assert(outcomes.drop_first() =~= seq![Ok::<u32, ClipboardError>(sent)]);
    assert(outcomes.drop_first().drop_first() =~= Seq::empty());
    let whole = run(state, state.handle_request(event, limit), outcomes);
    assert(whole.requests =~= seq![
        StateView::direct_write(event, data),
        delivery(notification(event, event.property)),
    ]);
}

/// An offer of one format serves that format. After a put of the single
/// format `format` whose name resolved to `atom` and whose claim held, the
/// owner window is the new window and the data under `atom` is the
/// format's.
pub proof fn law_put_offers_its_format(
    state: StateView,
    format: FormatView,
    timestamp: Timestamp,
    id: Window,
    atom: Atom,
)
    ensures
        ({
            let after = state.confirmed(
                ContentsView {
                    owner_window: id,
                    timestamp,
                    data: granted(seq![format], seq![Ok(atom)]),
                },
                id,
            );
            &&& after.owns(id)
            &&& after.contents.unwrap().data == seq![(atom, format.data)]
            &&& after.contents.unwrap().find(atom) == Some(format.data)
        }),
{
    let formats = seq![format];
    let replies = seq![Ok::<u32, ClipboardError>(atom)];
    let pairs = resolved(formats, replies);
    assert(pairs =~= seq![(format, Ok::<u32, ClipboardError>(atom))]);
    Seq::lemma_filter_map_singleton((format, Ok::<u32, ClipboardError>(atom)), grant());
    let contents = ContentsView { owner_window: id, timestamp, data: granted(formats, replies) };
    assert(contents.data =~= seq![(atom, format.data)]);
    assert(contents.atoms() =~= seq![atom]);
    contents.atoms().index_of_first_ensures(atom);
    assert(contents.atoms()[0] == atom);
}

/// Data that does not fit into one property write begins an incremental
/// transfer. The owner subscribes to the requestor's property changes,
/// announces the length in a property of type `INCR`, and only then holds
/// the transfer, its cursor at zero; the notification that follows names the
/// property of the request. The offer does not change.
pub proof fn law_large_payload_begins_transfer(
    state: StateView,
    event: SelectionRequestEvent,
    limit: usize,
    data: Seq<u8>,
)
    requires
        state.owns(event.owner),
        event.target != state.atoms.targets,
        state.contents.unwrap().find(event.target) == Some(data),
        data.len() > limit,
    ensures
        run(state, state.handle_request(event, limit), seq![Ok(0u32), Ok(0u32), Ok(0u32)])
            == completes(
            state.holding(TransferView::start(event, data)),
            seq![
                TransferView::start(event, data).subscription(),
                TransferView::start(event, data).announcement(state.atoms.incr),
                delivery(notification(event, event.property)),
            ],
        ),
        state.holding(TransferView::start(event, data)).wf() <==> state.wf(),
{
    reveal_with_fuel(run, 5);
    let transfer = TransferView::start(event, data);
    let begun = state.holding(transfer);
    let ok = Ok::<u32, ClipboardError>(0u32);
    let outcomes = seq![ok, ok, ok];
    assert(outcomes.drop_first() =~= seq![ok, ok]);
    assert(outcomes.drop_first().drop_first() =~= seq![ok]);
    assert(outcomes.drop_first().drop_first().drop_first() =~= Seq::empty());
    let whole = run(state, state.handle_request(event, limit), outcomes);
    assert(whole.requests =~= seq![
        transfer.subscription(),
        transfer.announcement(state.atoms.incr),
        delivery(notification(event, event.property)),
    ]);
    if state.wf() {
        assert forall|i: int| 0 <= i < begun.incremental.len() implies (
        #[trigger] begun.incremental[i]).wf() by {
            if i < state.incremental.len() {
                assert(begun.incremental[i] == state.incremental[i]);
            }
        }
    }
    if begun.wf() {
        assert forall|i: int| 0 <= i < state.incremental.len() implies (
        #[trigger] state.incremental[i]).wf() by {
            assert(begun.incremental[i] == state.incremental[i]);
        }
    }
}

/// The first step of an incremental transfer of `data` in answer to
/// `event`.
pub open spec fn beginning(event: SelectionRequestEvent, data: Seq<u8>) -> ProgressView {
    ProgressView::Send {
        request: TransferView::start(event, data).subscription(),
        then: TaskView::ChangeWindowAttributes { transfer: TransferView::start(event, data) },
    }
}

/// A transfer is held only once it is announced, and moves only once its
/// chunk is written. If the subscription or the announcement fails, no
/// transfer is set up; if the write of a chunk fails, the transfer stays
/// where it was, so that the same chunk goes out at the next deletion. In
/// each case the operation ends with that failure.
pub proof fn law_failed_write_moves_nothing(
    state: StateView,
    request: SelectionRequestEvent,
    event: PropertyNotifyEvent,
    limit: usize,
    data: Seq<u8>,
    error: ClipboardError,
)
    ensures
        run(state, beginning(request, data), seq![Err(error)]) == fails(
            state,
            error,
            seq![TransferView::start(request, data).subscription()],
        ),
        run(state, beginning(request, data), seq![Ok(0u32), Err(error)]) == fails(
            state,
            error,
            seq![
                TransferView::start(request, data).subscription(),
                TransferView::start(request, data).announcement(state.atoms.incr),
            ],
        ),
        event.state == PROPERTY_DELETE && state.transfer_index(event.window, event.atom).is_some()
            ==> run(state, state.handle_property_notify(event, limit), seq![Err(error)]) == fails(
            state,
            error,
            seq![
                state.incremental[state.transfer_index(event.window, event.atom).unwrap()].next_write(
                    limit,
                ),
            ],
        ),
{
    reveal_with_fuel(run, 4);
    let transfer = TransferView::start(request, data);
    let first = beginning(request, data);
    let one = seq![Err::<u32, ClipboardError>(error)];
    let two = seq![Ok::<u32, ClipboardError>(0u32), Err::<u32, ClipboardError>(error)];
    assert(one.drop_first() =~= Seq::empty());
    assert(two.drop_first() =~= one);
    assert(run(state, first, one).requests =~= seq![transfer.subscription()]);
    assert(run(state, first, two).requests =~= seq![
        transfer.subscription(),
        transfer.announcement(state.atoms.incr),
    ]);
    if event.state == PROPERTY_DELETE && state.transfer_index(event.window, event.atom).is_some() {
        let index = state.transfer_index(event.window, event.atom).unwrap();
        assert(run(state, state.handle_property_notify(event, limit), one).requests =~= seq![
            state.incremental[index].next_write(limit),
        ]);
    }
}

/// The chunks in which what is left of `transfer` goes out, where one write
/// holds at most `limit` bytes: all of them but the empty one that ends the
/// transfer.
pub open spec fn chunks(transfer: TransferView, limit: usize) -> Seq<Seq<u8>>
    decreases transfer.remaining().len(),
{
    if transfer.wf() && limit > 0 && !transfer.finished() {
        seq![transfer.next_chunk(limit)] + chunks(transfer.advanced(limit), limit)
    } else {
        Seq::empty()
    }
}

/// The cursor of a transfer stays within the payload, and never moves back.
pub proof fn law_cursor_is_monotonic(transfer: TransferView, limit: usize)
    requires
        transfer.wf(),
    ensures
        transfer.advanced(limit).wf(),
        transfer.advanced(limit).data_offset >= transfer.data_offset,
        transfer.advanced(limit).data == transfer.data,
        transfer.advanced(limit).remaining() == transfer.remaining().skip(
            transfer.next_chunk(limit).len() as int,
        ),
        transfer.next_chunk(limit).len() <= limit,
        transfer.next_chunk(limit) + transfer.advanced(limit).remaining() == transfer.remaining(),
{
    assert(transfer.advanced(limit).remaining() =~= transfer.remaining().skip(
        transfer.next_chunk(limit).len() as int,
    ));
    assert(transfer.next_chunk(limit) + transfer.advanced(limit).remaining()
        =~= transfer.remaining());
}

/// The chunks of a transfer, one after the other, are what was left of the
/// payload, byte for byte. None is empty, none is longer than `limit`, and
/// there are as many as it takes: what is left divided by `limit`, rounded
/// up.
pub proof fn law_chunks_rebuild_payload(transfer: TransferView, limit: usize)
    requires
        transfer.wf(),
        limit > 0,
    ensures
        chunks(transfer, limit).flatten() == transfer.remaining(),
        chunks(transfer, limit).len() == (transfer.remaining().len() + limit - 1) / (limit as int),
        forall|i: int|
            0 <= i < chunks(transfer, limit).len() ==> 0 < (#[trigger] chunks(
                transfer,
                limit,
            )[i]).len() <= limit,
    decreases transfer.remaining().len(),
{
    let left = transfer.remaining().len() as int;
    let step = limit as int;
    if transfer.finished() {
        assert((left + step - 1) / step == 0) by (nonlinear_arith)
            requires
                left == 0,
                step > 0,
        ;
    } else {
        let next = transfer.advanced(limit);
        let taken = transfer.next_chunk(limit).len() as int;
        law_cursor_is_monotonic(transfer, limit);
        law_chunks_rebuild_payload(next, limit);
        let rest = chunks(next, limit);
        let all = chunks(transfer, limit);
        assert(all.drop_first() =~= rest);
        assert(all.flatten() =~= transfer.remaining());
        assert((left + step - 1) / step == 1 + (left - taken + step - 1) / step)
            by (nonlinear_arith)
            requires
                step > 0,
                left > 0,
                taken == if left <= step {
                    left
                } else {
                    step
                },
        ;
        assert forall|i: int| 0 <= i < all.len() implies 0 < (#[trigger] all[i]).len() <= limit by {
            if i > 0 {
                assert(all[i] == rest[i - 1]);
            }
        }
    }
}

/// The answer to the deletion `event` in state `state`, for a caller whose
/// write succeeds.
pub open spec fn deletion(state: StateView, event: PropertyNotifyEvent, limit: usize) -> Run {
    run(state, state.handle_property_notify(event, limit), seq![Ok(0u32)])
}

/// Nothing but the keys of the transfers decides which of them an event is
/// about.
proof fn lemma_same_destinations(before: StateView, after: StateView, window: Window, atom: Atom)
    requires
        before.destinations() =~= after.destinations(),
    ensures
        before.transfer_index(window, atom) == after.transfer_index(window, atom),
{
}

/// The state without the transfers that write to `property` of `window`.
spec fn without_transfers(state: StateView, window: Window, property: Atom) -> StateView {
    StateView { incremental: state.other_transfers(window, property), ..state }
}

/// Once the transfers to a property are dropped, none is about it.
proof fn lemma_dropped_transfers_are_gone(state: StateView, window: Window, atom: Atom)
    ensures
        without_transfers(state, window, atom).transfer_index(window, atom).is_none(),
{
    let after = without_transfers(state, window, atom);
    after.destinations().index_of_first_ensures((window, atom));
    if after.destinations().contains((window, atom)) {
        let i = choose|i: int|
            0 <= i < after.destinations().len() && after.destinations()[i] == (window, atom);
        state.incremental.lemma_filter_pred(elsewhere(window, atom), i);
        assert(after.incremental[i].matches(window, atom));
    }
}

/// One deletion, one chunk. When a requestor deletes a property that a
/// transfer writes to, the first such transfer writes its next chunk and
/// moves on by the length of it; the next deletion finds the same transfer.
/// When nothing was left, the chunk is empty, and every transfer to that
/// property is dropped.
pub proof fn law_deletion_writes_next_chunk(
    state: StateView,
    event: PropertyNotifyEvent,
    limit: usize,
    index: int,
)
    requires
        event.state == PROPERTY_DELETE,
        state.transfer_index(event.window, event.atom) == Some(index),
    ensures
        0 <= index < state.incremental.len(),
        state.incremental[index].matches(event.window, event.atom),
        deletion(state, event, limit) == completes(
            state.chunk_written(event, limit),
            seq![state.incremental[index].next_write(limit)],
        ),
        !state.incremental[index].finished() ==> {
            &&& state.chunk_written(event, limit).transfer_index(event.window, event.atom) == Some(
                index,
            )
            &&& state.chunk_written(event, limit).incremental == state.incremental.update(
                index,
                state.incremental[index].advanced(limit),
            )
        },
        state.incremental[index].finished() ==> {
            &&& state.incremental[index].next_chunk(limit) == Seq::<u8>::empty()
            &&& state.chunk_written(event, limit).incremental == state.other_transfers(
                event.window,
                event.atom,
            )
            &&& state.chunk_written(event, limit).transfer_index(event.window, event.atom).is_none()
        },
{
    reveal_with_fuel(run, 3);
    state.destinations().index_of_first_ensures((event.window, event.atom));
    assert(state.destinations()[index] == (event.window, event.atom));
    let outcomes = seq![Ok::<u32, ClipboardError>(0u32)];
    assert(outcomes.drop_first() =~= Seq::empty());
    let whole = deletion(state, event, limit);
    assert(whole.requests =~= seq![state.incremental[index].next_write(limit)]);
    let after = state.chunk_written(event, limit);
    if state.incremental[index].finished() {
        lemma_dropped_transfers_are_gone(state, event.window, event.atom);
        assert(state.incremental[index].next_chunk(limit) =~= Seq::<u8>::empty());
    } else {
        lemma_same_destinations(state, after, event.window, event.atom);
    }
}

/// A payload of three times `limit` bytes and seven more, with `limit` at
/// least seven, goes out in four writes: three of `limit` bytes and one of
/// seven, which together are the payload, byte for byte. The fifth deletion
/// is answered with the empty write that ends the transfer, and drops it.
/// Each write replaces the requestor's property and is typed by the target.
pub proof fn law_incremental_round_trip(
    state: StateView,
    event: PropertyNotifyEvent,
    limit: usize,
    index: int,
)
    requires
        event.state == PROPERTY_DELETE,
        state.transfer_index(event.window, event.atom) == Some(index),
        0 <= index < state.incremental.len(),
        state.incremental[index].data_offset == 0,
        state.incremental[index].data.len() == 3 * limit + 7,
        limit >= 7,
    ensures
        ({
            let transfer = state.incremental[index];
            let data = transfer.data;
            let size = limit as int;
            let first = deletion(state, event, limit);
            let second = deletion(first.state, event, limit);
            let third = deletion(second.state, event, limit);
            let fourth = deletion(third.state, event, limit);
            let fifth = deletion(fourth.state, event, limit);
            &&& first == completes(first.state, seq![transfer.write(data.subrange(0, size))])
            &&& second == completes(
                second.state,
                seq![transfer.write(data.subrange(size, 2 * size))],
            )
            &&& third == completes(
                third.state,
                seq![transfer.write(data.subrange(2 * size, 3 * size))],
            )
            &&& fourth == completes(
                fourth.state,
                seq![transfer.write(data.subrange(3 * size, 3 * size + 7))],
            )
            &&& fifth == completes(fifth.state, seq![transfer.write(Seq::empty())])
            &&& data.subrange(0, size) + data.subrange(size, 2 * size) + data.subrange(
                2 * size,
                3 * size,
            ) + data.subrange(3 * size, 3 * size + 7) == data
            &&& fifth.state.incremental == state.other_transfers(event.window, event.atom)
            &&& fifth.state.transfer_index(event.window, event.atom).is_none()
        }),
{
    let transfer = state.incremental[index];
    let data = transfer.data;
    let size = limit as int;
    let keep = elsewhere(event.window, event.atom);
    law_deletion_writes_next_chunk(state, event, limit, index);
    let first = deletion(state, event, limit);
    let t1 = first.state.incremental[index];
    assert(transfer.next_chunk(limit) =~= data.subrange(0, size));
    assert(t1 == transfer.advanced(limit));
    assert(t1.next_chunk(limit) =~= data.subrange(size, 2 * size));
    law_deletion_writes_next_chunk(first.state, event, limit, index);
    let second = deletion(first.state, event, limit);
    let t2 = second.state.incremental[index];
    assert(t2 == t1.advanced(limit));
    assert(t2.next_chunk(limit) =~= data.subrange(2 * size, 3 * size));
    law_deletion_writes_next_chunk(second.state, event, limit, index);
    let third = deletion(second.state, event, limit);
    let t3 = third.state.incremental[index];
    assert(t3 == t2.advanced(limit));
    assert(t3.next_chunk(limit) =~= data.subrange(3 * size, 3 * size + 7));
    law_deletion_writes_next_chunk(third.state, event, limit, index);
    let fourth = deletion(third.state, event, limit);
    let t4 = fourth.state.incremental[index];
    assert(t4 == t3.advanced(limit));
    assert(t4.finished());
    law_deletion_writes_next_chunk(fourth.state, event, limit, index);
    assert(data.subrange(0, size) + data.subrange(size, 2 * size) + data.subrange(
        2 * size,
        3 * size,
    ) + data.subrange(3 * size, 3 * size + 7) =~= data);
    // The transfers that stay are those of the start: the one under way
    // matched all along.
    assert(fourth.state.incremental =~= state.incremental.update(index, t4));
    lemma_filter_update(state.incremental, keep, index, t4);
}

/// Replacing an element that fails a test by another that fails it does not
/// change what passes.
proof fn lemma_filter_update<A>(s: Seq<A>, pred: spec_fn(A) -> bool, i: int, a: A)
    requires
        0 <= i < s.len(),
        !pred(s[i]),
        !pred(a),
    ensures
        s.update(i, a).filter(pred) == s.filter(pred),
{
    let before = s.take(i);
    let after = s.skip(i + 1);
    assert(s =~= before.push(s[i]) + after);
    assert(s.update(i, a) =~= before.push(a) + after);
    Seq::filter_distributes_over_add(before.push(s[i]), after, pred);
    Seq::filter_distributes_over_add(before.push(a), after, pred);
    before.lemma_filter_push(s[i], pred);
    before.lemma_filter_push(a, pred);
}

/// After the loss of the selection the owner offers nothing. When the
/// server reports that the owner window has lost the selection, the window
/// is destroyed and the offer dropped; a request that still names the old
/// window is refused; the transfers under way go on. A put that follows
/// stands on its own: if its claim holds, its offer is the offer, and there
/// is no window left to destroy.
pub proof fn law_clear_drops_offer(
    state: StateView,
    clear: SelectionClearEvent,
    request: SelectionRequestEvent,
    limit: usize,
    formats: Seq<FormatView>,
    timestamp: Timestamp,
    id: Window,
    replies: Seq<Outcome>,
)
    requires
        state.owns(clear.owner),
        replies.len() == formats.len(),
    ensures
        ({
            let after = state.handle_clear(clear).0;
            let offer = ContentsView { owner_window: id, timestamp, data: granted(formats, replies) };
            let put = run(
                after,
                after.put_formats(formats, timestamp),
                seq![Ok(id), Ok(0u32)] + replies + seq![Ok(0u32), Ok(id)],
            );
            &&& state.handle_clear(clear).1 == ProgressView::Send {
                request: RequestView::DestroyWindow { window: clear.owner },
                then: TaskView::Finish,
            }
            &&& after.contents.is_none()
            &&& after.incremental == state.incremental
            &&& run(after, after.handle_request(request, limit), seq![Ok(0u32)]) == completes(
                after,
                seq![rejection(request)],
            )
            &&& put.progress == ProgressView::Done(Ok::<(), ClipboardError>(()))
            &&& put.state.contents == Some(offer)
        }),
{
    let after = state.handle_clear(clear).0;
    law_foreign_request_is_refused(after, request, limit, 0u32);
    law_put_installs_offer(after, formats, timestamp, id, 0u32, replies, 0u32, id);
}

/// An event that is not a deletion, or is about a property that no transfer
/// writes to, is answered with nothing: no request, no failure, no change.
/// So it is once a transfer has ended: the event that follows its last,
/// empty chunk finds no transfer, whatever else it says.
pub proof fn law_finished_transfer_is_forgotten(
    state: StateView,
    event: PropertyNotifyEvent,
    limit: usize,
    index: int,
    later: PropertyNotifyEvent,
    later_limit: usize,
)
    requires
        event.state == PROPERTY_DELETE,
        state.transfer_index(event.window, event.atom) == Some(index),
        state.incremental[index].finished(),
        later.window == event.window,
        later.atom == event.atom,
    ensures
        ({
            let after = deletion(state, event, limit).state;
            &&& after.handle_property_notify(later, later_limit) == ProgressView::Done(
                Ok::<(), ClipboardError>(()),
            )
            &&& deletion(after, later, later_limit) == completes(after, Seq::empty())
        }),
{
    law_deletion_writes_next_chunk(state, event, limit, index);
}

/// An event about a property that no transfer writes to is answered with
/// nothing, and so is one that is not a deletion.
pub proof fn law_unknown_property_is_ignored(
    state: StateView,
    event: PropertyNotifyEvent,
    limit: usize,
)
    requires
        event.state != PROPERTY_DELETE || state.transfer_index(event.window, event.atom).is_none(),
    ensures
        deletion(state, event, limit) == completes(state, Seq::empty()),
{
}

/// Whether the transfer that `task` carries, if it carries one, has its
/// cursor within its payload.
pub open spec fn carries_well_formed(task: TaskView) -> bool {
    match task {
        TaskView::ChangeWindowAttributes { transfer } => transfer.wf(),
        TaskView::Announce { transfer } => transfer.wf(),
        _ => true,
    }
}

/// Every cursor stays within its payload: the transfer that a request sets
/// up starts at zero, and no step moves a cursor past the end.
pub proof fn law_cursors_stay_within_payloads(
    state: StateView,
    event: SelectionRequestEvent,
    limit: usize,
    task: TaskView,
    outcome: Outcome,
)
    ensures
        state.handle_request(event, limit) matches ProgressView::Send { then, .. }
            ==> carries_well_formed(then),
        state.wf() && carries_well_formed(task) ==> {
            &&& state.resumed(task, outcome).wf()
            &&& state.resume(task, outcome) matches ProgressView::Send { then, .. }
                ==> carries_well_formed(then)
        },
{
    if state.wf() && carries_well_formed(task) {
        let after = state.resumed(task, outcome);
        assert forall|i: int| 0 <= i < after.incremental.len() implies (
        #[trigger] after.incremental[i]).wf() by {
            match (task, outcome) {
                (TaskView::WriteChunk { event, limit }, Ok(_)) => {
                    match state.transfer_index(event.window, event.atom) {
                        None => {},
                        Some(index) => {
                            state.destinations().index_of_first_ensures((event.window, event.atom));
                            if state.incremental[index].finished() {
                                let keep = elsewhere(event.window, event.atom);
                                assert(after.incremental.contains(after.incremental[i]));
                                state.incremental.lemma_filter_contains_rev(
                                    keep,
                                    after.incremental[i],
                                );
                            } else {
                                law_cursor_is_monotonic(state.incremental[index], limit);
                            }
                        },
                    }
                },
                _ => {},
            }
        }
    }
}

} // verus!
