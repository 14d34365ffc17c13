//! What holds of every negotiation: the session's transitions taken over
//! whole runs of events.

use crate::negotiation::{
    abandoned, after_resolution, kept_targets, lossy_text, next, outcome, ActionView,
    ClipboardInfoView, Conversion, EventView, NegotiationError, Phase, SessionView,
    MAX_CONTENT_LENGTH, MAX_TARGETS,
};
use crate::targets::{first_usable, lemma_first_usable, names_of};
use crate::transcode::{standard_decoding, standard_encoding};
use vstd::prelude::*;

verus! {

/// The state that a session reaches from `s` over `events`, in their order.
pub open spec fn run(s: SessionView, events: Seq<EventView>) -> SessionView
    decreases events.len(),
{
    if events.len() == 0 {
        s
    } else {
        run(next(s, events[0]).0, events.skip(1))
    }
}

/// What the caller is told to do after the last of `events`, which are
/// taken in from `s` on in their order. There is at least one event.
pub open spec fn last_action(s: SessionView, events: Seq<EventView>) -> ActionView
    recommends
        events.len() > 0,
    decreases events.len(),
{
    if events.len() <= 1 {
        next(s, events[0]).1
    } else {
        last_action(next(s, events[0]).0, events.skip(1))
    }
}

/// What the caller is told once the last identifier has resolved: to ask
/// for the first usable offer with the negotiation's timestamp, or to
/// report that there is none.
pub open spec fn closing_action(offers: Seq<(u32, Seq<char>)>, timestamp: u32) -> ActionView {
    match first_usable(offers) {
        Some(chosen) => ActionView::Convert {
            target: Conversion::Content(offers[chosen].0),
            timestamp,
        },
        None => ActionView::Report(NegotiationError::NoUsableTarget),
    }
}

/// The event that reports how one identifier resolved: to the bytes of a
/// name, or to nothing.
pub open spec fn resolution_event(result: Option<Seq<u8>>) -> EventView {
    match result {
        Some(bytes) => EventView::Name(bytes),
        None => EventView::NameUnavailable,
    }
}

/// The events that report how a list of identifiers resolved, one each.
pub open spec fn resolution_events(results: Seq<Option<Seq<u8>>>) -> Seq<EventView> {
    Seq::new(results.len(), |i: int| resolution_event(results[i]))
}

/// The offers that come of a list of identifiers and of how each resolved:
/// every identifier that has a name, with it, at its place in the order.
pub open spec fn resolved(targets: Seq<u32>, results: Seq<Option<Seq<u8>>>) -> Seq<
    (u32, Seq<char>),
>
    decreases results.len(),
{
    if results.len() == 0 || targets.len() == 0 {
        Seq::empty()
    } else {
        let rest = resolved(targets.skip(1), results.skip(1));
        match results[0] {
            Some(bytes) => seq![(targets[0], lossy_text(bytes))] + rest,
            None => rest,
        }
    }
}

/// The offers of a list in two parts are those of the first part followed by
/// those of the second: resolution keeps the owner's order and drops only
/// what has no name.
pub proof fn lemma_resolved_in_order(
    first: Seq<u32>,
    first_results: Seq<Option<Seq<u8>>>,
    second: Seq<u32>,
    second_results: Seq<Option<Seq<u8>>>,
)
    requires
        first.len() == first_results.len(),
        second.len() == second_results.len(),
    ensures
        resolved(first + second, first_results + second_results) == resolved(first, first_results)
            + resolved(second, second_results),
    decreases first.len(),
{
    if first.len() == 0 {
        assert(first + second =~= second);
        assert(first_results + second_results =~= second_results);
        assert(resolved(first, first_results) + resolved(second, second_results) =~= resolved(
            second,
            second_results,
        ));
    } else {
        lemma_resolved_in_order(
            first.skip(1),
            first_results.skip(1),
            second,
            second_results,
        );
        assert((first + second).skip(1) =~= first.skip(1) + second);
        assert((first_results + second_results).skip(1) =~= first_results.skip(1)
            + second_results);
        assert(resolved(first + second, first_results + second_results) =~= resolved(
            first,
            first_results,
        ) + resolved(second, second_results));
    }
}

/// Each identifier of a list beside how it resolved.
pub open spec fn paired(targets: Seq<u32>, results: Seq<Option<Seq<u8>>>) -> Seq<
    (u32, Option<Seq<u8>>),
> {
    Seq::new(results.len(), |i: int| (targets[i], results[i]))
}

/// The offer that an identifier makes once it has resolved, if it has.
pub open spec fn offer_of() -> spec_fn((u32, Option<Seq<u8>>)) -> Option<(u32, Seq<char>)> {
    |pair: (u32, Option<Seq<u8>>)|
        match pair.1 {
            Some(bytes) => Some((pair.0, lossy_text(bytes))),
            None => None,
        }
}

/// The offers are the identifiers that resolved, each with its name, in the
/// order of the list: nothing is moved, and only what has no name is left
/// out.
pub proof fn lemma_resolved_is_filtered(targets: Seq<u32>, results: Seq<Option<Seq<u8>>>)
    requires
        targets.len() == results.len(),
    ensures
        resolved(targets, results) == paired(targets, results).filter_map(offer_of()),
    decreases results.len(),
{
    if results.len() > 0 {
        let front_targets = targets.drop_last();
        let front_results = results.drop_last();
        let last_target = seq![targets.last()];
        let last_result = seq![results.last()];
        lemma_resolved_is_filtered(front_targets, front_results);
        lemma_resolved_in_order(front_targets, front_results, last_target, last_result);
        assert(front_targets + last_target =~= targets);
        assert(front_results + last_result =~= results);
        assert(resolved(last_target.skip(1), last_result.skip(1)) =~= Seq::empty());
        assert(resolved(last_target, last_result) =~= match results.last() {
            Some(bytes) => seq![(targets.last(), lossy_text(bytes))],
            None => Seq::empty(),
        });
        assert(paired(targets, results).drop_last() =~= paired(front_targets, front_results));
        assert(paired(targets, results).last() == (targets.last(), results.last()));
        assert(resolved(targets, results) =~= paired(targets, results).filter_map(offer_of()));
    }
}

/// Where every identifier resolves, there is one offer for each, at the
/// same position and with the identifier's own name.
pub proof fn lemma_resolved_all(targets: Seq<u32>, results: Seq<Option<Seq<u8>>>)
    requires
        targets.len() == results.len(),
        forall|i: int| 0 <= i < results.len() ==> (#[trigger] results[i]).is_some(),
    ensures
        resolved(targets, results).len() == targets.len(),
        forall|i: int|
            0 <= i < targets.len() ==> #[trigger] resolved(targets, results)[i] == (
                targets[i],
                lossy_text(results[i].unwrap()),
            ),
    decreases results.len(),
{
    if results.len() > 0 {
        let rest_targets = targets.skip(1);
        let rest_results = results.skip(1);
        assert forall|i: int| 0 <= i < rest_results.len() implies (
        #[trigger] rest_results[i]).is_some() by {
            assert(rest_results[i] == results[i + 1]);
        }
        lemma_resolved_all(rest_targets, rest_results);
        let all = resolved(targets, results);
        assert forall|i: int| 0 <= i < targets.len() implies #[trigger] all[i] == (
            targets[i],
            lossy_text(results[i].unwrap()),
        ) by {
            if i > 0 {
                assert(all[i] == resolved(rest_targets, rest_results)[i - 1]);
                assert(rest_targets[i - 1] == targets[i]);
                assert(rest_results[i - 1] == results[i]);
            }
        }
    }
}

/// The state in which the resolution of the pending identifiers ends: the
/// offers are those held before, followed by those of the pending
/// identifiers in their order; the first usable one is chosen, and where
/// there is none the session watches again.
pub proof fn lemma_resolution(s: SessionView, results: Seq<Option<Seq<u8>>>)
    requires
        s.wf(),
        s.phase == Phase::Resolving,
        results.len() == s.targets.len() - s.cursor,
    ensures
        ({
            let offers = s.offers + resolved(s.targets.skip(s.cursor), results);
            run(s, resolution_events(results)) == match first_usable(offers) {
                Some(chosen) => SessionView {
                    phase: Phase::RequestingContent,
                    cursor: s.targets.len() as int,
                    offers,
                    chosen,
                    ..s
                },
                None => SessionView::idle(),
            }
        }),
        last_action(s, resolution_events(results)) == closing_action(
            s.offers + resolved(s.targets.skip(s.cursor), results),
            s.timestamp,
        ),
    decreases results.len(),
{
    let events = resolution_events(results);
    let pending = s.targets.skip(s.cursor);
    let offers = s.offers + resolved(pending, results);
    let name = match results[0] {
        Some(bytes) => Some(lossy_text(bytes)),
        None => None,
    };
    assert(events[0] == resolution_event(results[0]));
    assert(next(s, events[0]) == after_resolution(s, name));
    let after = next(s, events[0]).0;
    assert(events.skip(1) =~= resolution_events(results.skip(1)));
    assert(pending[0] == s.targets[s.cursor]);
    assert(pending.skip(1) =~= s.targets.skip(s.cursor + 1));
    if s.cursor + 1 < s.targets.len() {
        lemma_resolution(after, results.skip(1));
        assert(after.offers + resolved(s.targets.skip(s.cursor + 1), results.skip(1))
            =~= offers);
    } else {
        assert(results.skip(1).len() == 0);
        assert(resolved(pending.skip(1), results.skip(1)) =~= Seq::empty());
        assert(resolved(pending, results) =~= match name {
            Some(text) => seq![(s.targets[s.cursor], text)],
            None => Seq::empty(),
        });
        assert(offers =~= match name {
            Some(text) => s.offers.push((s.targets[s.cursor], text)),
            None => s.offers,
        });
        lemma_first_usable(offers);
        assert(run(after, events.skip(1)) == after);
        assert(events.len() == 1);
    }
}

/// A whole negotiation. After an ownership change with `timestamp`, the
/// owner delivers `list`, of which the first `MAX_TARGETS` identifiers
/// resolve as `results` say, and then delivers `content` for the target
/// that was asked for. Both requests carry `timestamp`. The record handed
/// out names the offers in the owner's order, the first of them that is no
/// meta-type as the content's type, and the content in its padded text;
/// where no offer is usable, nothing is fetched and the session watches
/// again.
pub proof fn lemma_negotiation(
    timestamp: u32,
    list: Seq<u32>,
    results: Seq<Option<Seq<u8>>>,
    content: Seq<u8>,
)
    requires
        list.len() > 0,
        results.len() == kept_targets(list).len(),
    ensures
        ({
            let offers = resolved(kept_targets(list), results);
            let start = next(SessionView::idle(), EventView::OwnershipChanged { timestamp });
            let sent = next(start.0, EventView::Acknowledged);
            let delivered = next(sent.0, EventView::ConversionCompleted);
            let listed = next(delivered.0, EventView::TargetList(list));
            let named = run(listed.0, resolution_events(results));
            &&& start.1 == ActionView::Convert { target: Conversion::TargetList, timestamp }
            &&& sent.1 == ActionView::WaitForEvent
            &&& delivered.1 == ActionView::ReadTargetList { max_entries: MAX_TARGETS }
            &&& listed.1 == ActionView::ResolveName { atom: list[0] }
            &&& last_action(listed.0, resolution_events(results)) == closing_action(
                offers,
                timestamp,
            )
            &&& match first_usable(offers) {
                None => named == SessionView::idle(),
                Some(chosen) => {
                    let asked = next(named, EventView::Acknowledged);
                    let ready = next(asked.0, EventView::ConversionCompleted);
                    let done = next(ready.0, EventView::Content(content));
                    &&& named.phase == Phase::RequestingContent
                    &&& named.timestamp == timestamp
                    &&& named.offers == offers
                    &&& named.chosen == chosen
                    &&& asked.1 == ActionView::WaitForEvent
                    &&& ready.1 == ActionView::ReadContent {
                        atom: offers[chosen].0,
                        max_length: MAX_CONTENT_LENGTH,
                    }
                    &&& done.0 == SessionView::idle()
                    &&& done.1 == ActionView::Emit(
                        ClipboardInfoView {
                            content: standard_encoding(content),
                            content_type: offers[chosen].1,
                            mime_types: names_of(offers),
                        },
                    )
                },
            }
        }),
{
    let start = next(SessionView::idle(), EventView::OwnershipChanged { timestamp });
    let sent = next(start.0, EventView::Acknowledged);
    let delivered = next(sent.0, EventView::ConversionCompleted);
    let listed = next(delivered.0, EventView::TargetList(list));
    let kept = kept_targets(list);
    assert(kept.len() > 0 && kept[0] == list[0]);
    assert(listed.0.wf());
    lemma_resolution(listed.0, results);
    assert(kept.skip(0) =~= kept);
    assert(Seq::<(u32, Seq<char>)>::empty() + resolved(kept, results) =~= resolved(
        kept,
        results,
    ));
}

/// A negotiation never changes its timestamp: as long as the session
/// negotiates it holds the timestamp it held before, and a conversion
/// request carries that timestamp.
pub proof fn lemma_timestamp_kept(s: SessionView, e: EventView)
    requires
        s.negotiating(),
    ensures
        next(s, e).0.negotiating() ==> next(s, e).0.timestamp == s.timestamp,
        match next(s, e).1 {
            ActionView::Convert { timestamp, .. } => timestamp == s.timestamp,
            _ => true,
        },
{
}

/// A negotiation starts with the timestamp of the ownership change and asks
/// for the target list with it.
pub proof fn lemma_timestamp_taken(timestamp: u32)
    ensures
        next(SessionView::idle(), EventView::OwnershipChanged { timestamp }).0.timestamp
            == timestamp,
        next(SessionView::idle(), EventView::OwnershipChanged { timestamp }).1
            == (ActionView::Convert { target: Conversion::TargetList, timestamp }),
{
}

/// A failed round trip ends the negotiation and nothing else: the failure
/// is reported, the session is as it was before its first event, and the
/// next ownership change starts a negotiation of its own.
pub proof fn lemma_failure_isolated(s: SessionView, timestamp: u32)
    requires
        s.negotiating(),
    ensures
        next(s, EventView::RoundTripFailed) == abandoned(NegotiationError::Protocol),
        next(s, EventView::RoundTripFailed).0 == SessionView::idle(),
        next(
            next(s, EventView::RoundTripFailed).0,
            EventView::OwnershipChanged { timestamp },
        ) == (
            SessionView { phase: Phase::RequestingTargets, timestamp, ..SessionView::idle() },
            ActionView::Convert { target: Conversion::TargetList, timestamp },
        ),
{
}

/// Every transition keeps a session well formed.
pub proof fn lemma_next_wf(s: SessionView, e: EventView)
    requires
        s.wf(),
    ensures
        next(s, e).0.wf(),
{
    if s.phase == Phase::Resolving {
        let name = match e {
            EventView::Name(bytes) => Some(lossy_text(bytes)),
            _ => None,
        };
        let offers = match name {
            Some(text) => s.offers.push((s.targets[s.cursor], text)),
            None => s.offers,
        };
        lemma_first_usable(offers);
    }
}

/// Only the loss of the connection stops a session.
pub proof fn lemma_stops_on_loss_only(s: SessionView, e: EventView)
    requires
        s.phase != Phase::Stopped,
    ensures
        next(s, e).0.phase == Phase::Stopped <==> e is ConnectionLost,
{
}

/// The content of the record that a negotiation hands out decodes to the
/// bytes that the owner delivered.
pub proof fn lemma_content_round_trip(s: SessionView, content: Seq<u8>)
    ensures
        standard_decoding(outcome(s, content).content) == Some(content),
{
    crate::transcode::lemma_decoding_inverts_encoding(content);
}

} // verus!
