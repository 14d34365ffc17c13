//! The negotiation with a selection owner as a state machine. The caller owns
//! the connection to the display server: it carries out each `Action` and
//! hands back the `Event` that came of it. Every decision is taken here.

use crate::targets::{first_usable, names_of, offered_names, offers_view, select_target, Offer};
use crate::transcode::{encodable, encode, standard_encoding};
use vstd::prelude::*;

verus! {

/// The most entries of a target list that a negotiation reads.
pub const MAX_TARGETS: u32 = 1024;

/// The length asked for when the content is read: the largest there is.
pub const MAX_CONTENT_LENGTH: u32 = 0xffff_ffff;

/// Where a session stands between two events.
#[derive(Debug, Clone, Copy, PartialEq, Eq, Structural)]
pub enum Phase {
    /// No negotiation runs; the next ownership change starts one.
    Watching,
    /// The request for the target list is being sent.
    RequestingTargets,
    /// Waiting for the notification that the target list was delivered.
    AwaitingTargets,
    /// The delivered target list is being read.
    ReadingTargets,
    /// The targets are resolved to names, one round trip each.
    Resolving,
    /// The request for the chosen target's data is being sent.
    RequestingContent,
    /// Waiting for the notification that the data was delivered.
    AwaitingContent,
    /// The delivered data is being read.
    ReadingContent,
    /// The connection is lost; nothing more will be done.
    Stopped,
}

/// Why a negotiation was given up. Neither ends the session.
#[derive(Debug, Clone, Copy, PartialEq, Eq, Structural)]
pub enum NegotiationError {
    /// A round trip to the display server failed, or its answer was not the
    /// one the protocol allows at that point.
    Protocol,
    /// The owner offers nothing but meta-types.
    NoUsableTarget,
}

/// What a conversion request asks the owner for.
#[derive(Debug, Clone, Copy, PartialEq, Eq, Structural)]
pub enum Conversion {
    /// The list of the targets it offers.
    TargetList,
    /// Its content as the target with this identifier.
    Content(u32),
}

/// The outcome of a successful negotiation.
#[derive(Debug, Clone, PartialEq, Eq)]
pub struct ClipboardInfo {
    pub content: String,
    pub content_type: String,
    pub mime_types: Vec<String>,
}

/// What a `ClipboardInfo` holds.
pub struct ClipboardInfoView {
    pub content: Seq<char>,
    pub content_type: Seq<char>,
    pub mime_types: Seq<Seq<char>>,
}

impl View for ClipboardInfo {
    type V = ClipboardInfoView;

    open spec fn view(&self) -> ClipboardInfoView {
        ClipboardInfoView {
            content: self.content@,
            content_type: self.content_type@,
            mime_types: self.mime_types.deep_view(),
        }
    }
}

/// What the caller reports back after carrying out an action.
#[derive(Debug, Clone, PartialEq, Eq)]
pub enum Event {
    /// The action was carried out and gave nothing to report.
    Acknowledged,
    /// The selection has a new owner; the server's timestamp of the change.
    OwnershipChanged { timestamp: u32 },
    /// The owner has delivered what the last conversion request asked for.
    ConversionCompleted,
    /// Some other event arrived from the display server.
    Unrelated,
    /// The delivered target list, as far as it was read.
    TargetList(Vec<u32>),
    /// The bytes of the name that an identifier resolved to.
    Name(Vec<u8>),
    /// The server had no name for the identifier.
    NameUnavailable,
    /// The delivered content.
    Content(Vec<u8>),
    /// The round trip that the action asked for failed.
    RoundTripFailed,
    /// The connection to the display server is gone.
    ConnectionLost,
}

/// What an `Event` holds.
pub enum EventView {
    Acknowledged,
    OwnershipChanged { timestamp: u32 },
    ConversionCompleted,
    Unrelated,
    TargetList(Seq<u32>),
    Name(Seq<u8>),
    NameUnavailable,
    Content(Seq<u8>),
    RoundTripFailed,
    ConnectionLost,
}

impl View for Event {
    type V = EventView;

    open spec fn view(&self) -> EventView {
        match *self {
            Event::Acknowledged => EventView::Acknowledged,
            Event::OwnershipChanged { timestamp } => EventView::OwnershipChanged { timestamp },
            Event::ConversionCompleted => EventView::ConversionCompleted,
            Event::Unrelated => EventView::Unrelated,
            Event::TargetList(list) => EventView::TargetList(list@),
            Event::Name(bytes) => EventView::Name(bytes@),
            Event::NameUnavailable => EventView::NameUnavailable,
            Event::Content(bytes) => EventView::Content(bytes@),
            Event::RoundTripFailed => EventView::RoundTripFailed,
            Event::ConnectionLost => EventView::ConnectionLost,
        }
    }
}

/// What the caller is to do next.
#[derive(Debug, Clone, PartialEq, Eq)]
pub enum Action {
    /// Block until the display server delivers its next event.
    WaitForEvent,
    /// Ask the owner to convert the selection, with this timestamp on the
    /// wire, and flush the request.
    Convert { target: Conversion, timestamp: u32 },
    /// Read the delivered property as identifiers, at most `max_entries`.
    ReadTargetList { max_entries: u32 },
    /// Ask the server for the name of this identifier.
    ResolveName { atom: u32 },
    /// Read the delivered property as bytes of type `atom`, up to
    /// `max_length`, and have the server delete it.
    ReadContent { atom: u32, max_length: u32 },
    /// Hand the outcome of the negotiation on.
    Emit(ClipboardInfo),
    /// Log that the negotiation was given up.
    Report(NegotiationError),
    /// End the process: the connection is lost.
    Terminate,
}

/// What an `Action` holds.
pub enum ActionView {
    WaitForEvent,
    Convert { target: Conversion, timestamp: u32 },
    ReadTargetList { max_entries: u32 },
    ResolveName { atom: u32 },
    ReadContent { atom: u32, max_length: u32 },
    Emit(ClipboardInfoView),
    Report(NegotiationError),
    Terminate,
}

impl View for Action {
    type V = ActionView;

    open spec fn view(&self) -> ActionView {
        match *self {
            Action::WaitForEvent => ActionView::WaitForEvent,
            Action::Convert { target, timestamp } => ActionView::Convert { target, timestamp },
            Action::ReadTargetList { max_entries } => ActionView::ReadTargetList { max_entries },
            Action::ResolveName { atom } => ActionView::ResolveName { atom },
            Action::ReadContent { atom, max_length } => ActionView::ReadContent {
                atom,
                max_length,
            },
            Action::Emit(info) => ActionView::Emit(info@),
            Action::Report(error) => ActionView::Report(error),
            Action::Terminate => ActionView::Terminate,
        }
    }
}

/// What a `Session` holds.
pub struct SessionView {
    pub phase: Phase,
    /// The timestamp of the ownership change that is being negotiated.
    pub timestamp: u32,
    /// The identifiers that the owner offers, in its order.
    pub targets: Seq<u32>,
    /// How many of `targets` have been through resolution.
    pub cursor: int,
    /// Those of them that resolved, with their names, in the owner's order.
    pub offers: Seq<(u32, Seq<char>)>,
    /// The position in `offers` of the target that was chosen.
    pub chosen: int,
}

impl SessionView {
    /// A session in which no negotiation runs.
    pub open spec fn idle() -> SessionView {
        SessionView {
            phase: Phase::Watching,
            timestamp: 0,
            targets: Seq::empty(),
            cursor: 0,
            offers: Seq::empty(),
            chosen: 0,
        }
    }

    /// A session that has lost its connection.
    pub open spec fn stopped() -> SessionView {
        SessionView { phase: Phase::Stopped, ..SessionView::idle() }
    }

    /// Whether a negotiation is under way.
    pub open spec fn negotiating(self) -> bool {
        self.phase != Phase::Watching && self.phase != Phase::Stopped
    }

    /// Whether the chosen target's data is being fetched.
    pub open spec fn fetching(self) -> bool {
        ||| self.phase == Phase::RequestingContent
        ||| self.phase == Phase::AwaitingContent
        ||| self.phase == Phase::ReadingContent
    }

    /// What holds of every session: while names are resolved an identifier
    /// is still pending, and while content is fetched the chosen offer is
    /// the first usable one.
    pub open spec fn wf(self) -> bool {
        &&& self.phase == Phase::Resolving ==> 0 <= self.cursor < self.targets.len()
            && self.targets.len() <= MAX_TARGETS
        &&& self.fetching() ==> first_usable(self.offers) == Some(self.chosen)
    }
}

/// The text that `String::from_utf8_lossy` makes of a byte sequence.
pub uninterp spec fn lossy_text(bytes: Seq<u8>) -> Seq<char>;

/// The entries of a delivered target list that a negotiation keeps: the
/// first `MAX_TARGETS` of them.
pub open spec fn kept_targets(list: Seq<u32>) -> Seq<u32> {
    if list.len() <= MAX_TARGETS {
        list
    } else {
        list.take(MAX_TARGETS as int)
    }
}

/// A negotiation given up: the session watches again, and the caller is
/// told why.
pub open spec fn abandoned(error: NegotiationError) -> (SessionView, ActionView) {
    (SessionView::idle(), ActionView::Report(error))
}

/// What follows the resolution of the pending identifier, to `name` or to
/// nothing: the next identifier is resolved, or, after the last, the first
/// usable offer is asked for, or the negotiation ends for want of one.
pub open spec fn after_resolution(s: SessionView, name: Option<Seq<char>>) -> (
    SessionView,
    ActionView,
) {
    let offers = match name {
        Some(text) => s.offers.push((s.targets[s.cursor], text)),
        None => s.offers,
    };
    let cursor = s.cursor + 1;
    if cursor < s.targets.len() {
        (SessionView { cursor, offers, ..s }, ActionView::ResolveName { atom: s.targets[cursor] })
    } else {
        match first_usable(offers) {
            Some(chosen) => (
                SessionView { phase: Phase::RequestingContent, cursor, offers, chosen, ..s },
                ActionView::Convert {
                    target: Conversion::Content(offers[chosen].0),
                    timestamp: s.timestamp,
                },
            ),
            None => abandoned(NegotiationError::NoUsableTarget),
        }
    }
}

/// The record that a negotiation ends with, once the content has arrived.
pub open spec fn outcome(s: SessionView, content: Seq<u8>) -> ClipboardInfoView {
    ClipboardInfoView {
        content: standard_encoding(content),
        content_type: s.offers[s.chosen].1,
        mime_types: names_of(s.offers),
    }
}

/// The transition of a session: the state after `e` and what the caller is
/// to do next.
pub open spec fn next(s: SessionView, e: EventView) -> (SessionView, ActionView) {
    if s.phase == Phase::Stopped {
        (s, ActionView::Terminate)
    } else if e is ConnectionLost {
        (SessionView::stopped(), ActionView::Terminate)
    } else {
        match s.phase {
            Phase::Watching => match e {
                EventView::OwnershipChanged { timestamp } => (
                    SessionView {
                        phase: Phase::RequestingTargets,
                        timestamp,
                        ..SessionView::idle()
                    },
                    ActionView::Convert { target: Conversion::TargetList, timestamp },
                ),
                _ => (s, ActionView::WaitForEvent),
            },
            Phase::RequestingTargets => match e {
                EventView::Acknowledged => (
                    SessionView { phase: Phase::AwaitingTargets, ..s },
                    ActionView::WaitForEvent,
                ),
                _ => abandoned(NegotiationError::Protocol),
            },
            Phase::AwaitingTargets => match e {
                EventView::ConversionCompleted => (
                    SessionView { phase: Phase::ReadingTargets, ..s },
                    ActionView::ReadTargetList { max_entries: MAX_TARGETS },
                ),
                EventView::OwnershipChanged { .. } | EventView::Unrelated => (
                    s,
                    ActionView::WaitForEvent,
                ),
                _ => abandoned(NegotiationError::Protocol),
            },
            Phase::ReadingTargets => match e {
                EventView::TargetList(list) => {
                    let targets = kept_targets(list);
                    if targets.len() == 0 {
                        abandoned(NegotiationError::NoUsableTarget)
                    } else {
                        (
                            SessionView {
                                phase: Phase::Resolving,
                                targets,
                                cursor: 0,
                                offers: Seq::empty(),
                                ..s
                            },
                            ActionView::ResolveName { atom: targets[0] },
                        )
                    }
                },
                _ => abandoned(NegotiationError::Protocol),
            },
            Phase::Resolving => match e {
                EventView::Name(bytes) => after_resolution(s, Some(lossy_text(bytes))),
                EventView::NameUnavailable => after_resolution(s, None),
                _ => abandoned(NegotiationError::Protocol),
            },
            Phase::RequestingContent => match e {
                EventView::Acknowledged => (
                    SessionView { phase: Phase::AwaitingContent, ..s },
                    ActionView::WaitForEvent,
                ),
                _ => abandoned(NegotiationError::Protocol),
            },
            Phase::AwaitingContent => match e {
                EventView::ConversionCompleted => (
                    SessionView { phase: Phase::ReadingContent, ..s },
                    ActionView::ReadContent {
                        atom: s.offers[s.chosen].0,
                        max_length: MAX_CONTENT_LENGTH,
                    },
                ),
                EventView::OwnershipChanged { .. } | EventView::Unrelated => (
                    s,
                    ActionView::WaitForEvent,
                ),
                _ => abandoned(NegotiationError::Protocol),
            },
            Phase::ReadingContent => match e {
                EventView::Content(bytes) => (
                    SessionView::idle(),
                    ActionView::Emit(outcome(s, bytes)),
                ),
                _ => abandoned(NegotiationError::Protocol),
            },
            Phase::Stopped => (s, ActionView::Terminate),
        }
    }
}

/// Whether the content that an event carries has a text that fits in memory.
pub open spec fn within_limits(e: EventView) -> bool {
    match e {
        EventView::Content(bytes) => encodable(bytes.len()),
        _ => true,
    }
}

/// `String::from_utf8_lossy`, made an owned `String`: the result is the
/// text that this function makes of the bytes, which depends on them alone.
#[verifier::external_body]
fn text_of(bytes: &[u8]) -> (text: String)
    ensures
        text@ == lossy_text(bytes@),
{
    String::from_utf8_lossy(bytes).into_owned()
}

/// The state of the watcher between two events. It starts out watching;
/// `step` takes it from event to event.
#[derive(Debug)]
pub struct Session {
    phase: Phase,
    timestamp: u32,
    targets: Vec<u32>,
    cursor: usize,
    offers: Vec<Offer>,
    chosen: usize,
}

impl View for Session {
    type V = SessionView;

    closed spec fn view(&self) -> SessionView {
        SessionView {
            phase: self.phase,
            timestamp: self.timestamp,
            targets: self.targets@,
            cursor: self.cursor as int,
            offers: offers_view(self.offers@),
            chosen: self.chosen as int,
        }
    }
}

impl Session {
    /// A session that watches for the first ownership change. The caller
    /// begins by waiting for an event.
    pub fn new() -> (session: Session)
        ensures
            session@ == SessionView::idle(),
            session@.wf(),
    {
        let session = Session {
            phase: Phase::Watching,
            timestamp: 0,
            targets: Vec::new(),
            cursor: 0,
            offers: Vec::new(),
            chosen: 0,
        };
        assert(session@.offers =~= Seq::empty());
        session
    }

    /// Where the session stands.
    pub fn phase(&self) -> (phase: Phase)
        ensures
            phase == self@.phase,
    {
        self.phase
    }

    /// The timestamp of the ownership change under negotiation.
    pub fn timestamp(&self) -> (timestamp: u32)
        ensures
            timestamp == self@.timestamp,
    {
        self.timestamp
    }

    /// Drops what the session holds and leaves it in `phase`.
    fn reset(&mut self, phase: Phase)
        ensures
            final(self)@ == (SessionView { phase, ..SessionView::idle() }),
    {
        self.phase = phase;
        self.timestamp = 0;
        self.targets = Vec::new();
        self.cursor = 0;
        self.offers = Vec::new();
        self.chosen = 0;
        assert(self@.offers =~= Seq::empty());
    }

    /// Gives the negotiation up.
    fn abandon(&mut self, error: NegotiationError) -> (action: Action)
        ensures
            final(self)@ == abandoned(error).0,
            action@ == abandoned(error).1,
            final(self)@.wf(),
    {
        self.reset(Phase::Watching);
        Action::Report(error)
    }

    /// Takes in how the pending identifier resolved, to `name` or to nothing
    /// at all, and says what to do next: resolve the next identifier, or,
    /// after the last, ask for the first usable offer, or report that there
    /// is none.
    pub fn name_resolved(&mut self, name: Option<String>) -> (action: Action)
        requires
            old(self)@.wf(),
            old(self)@.phase == Phase::Resolving,
        ensures
            final(self)@.wf(),
            final(self)@ == after_resolution(
                old(self)@,
                match name {
                    Some(text) => Some(text@),
                    None => None,
                },
            ).0,
            action@ == after_resolution(
                old(self)@,
                match name {
                    Some(text) => Some(text@),
                    None => None,
                },
            ).1,
    {
        let ghost before = self@;
        let atom = self.targets[self.cursor];
        if let Some(text) = name {
            self.offers.push(Offer { atom, name: text });
            assert(self@.offers =~= before.offers.push((atom, text@)));
        }
        self.cursor = self.cursor + 1;
        if self.cursor < self.targets.len() {
            Action::ResolveName { atom: self.targets[self.cursor] }
        } else {
            match select_target(&self.offers) {
                Some(chosen) => {
                    proof {
                        crate::targets::lemma_first_usable(self@.offers);
                    }
                    self.phase = Phase::RequestingContent;
                    self.chosen = chosen;
                    Action::Convert {
                        target: Conversion::Content(self.offers[chosen].atom),
                        timestamp: self.timestamp,
                    }
                },
                None => self.abandon(NegotiationError::NoUsableTarget),
            }
        }
    }

    /// Takes in a delivered target list: keeps its first `MAX_TARGETS`
    /// entries and starts to resolve them, or gives up where there are none.
    fn targets_read(&mut self, list: Vec<u32>) -> (action: Action)
        requires
            old(self)@.wf(),
            old(self)@.phase == Phase::ReadingTargets,
        ensures
            final(self)@.wf(),
            final(self)@ == next(old(self)@, EventView::TargetList(list@)).0,
            action@ == next(old(self)@, EventView::TargetList(list@)).1,
    {
        let mut targets = list;
        if targets.len() > MAX_TARGETS as usize {
            targets.truncate(MAX_TARGETS as usize);
        }
        assert(targets@ =~= kept_targets(list@));
        if targets.len() == 0 {
            self.abandon(NegotiationError::NoUsableTarget)
        } else {
            let atom = targets[0];
            self.phase = Phase::Resolving;
            self.targets = targets;
            self.cursor = 0;
            self.offers = Vec::new();
            assert(self@.offers =~= Seq::empty());
            Action::ResolveName { atom }
        }
    }

    /// Takes in the delivered content: encodes it and hands the record out.
    fn content_read(&mut self, bytes: Vec<u8>) -> (action: Action)
        requires
            old(self)@.wf(),
            old(self)@.phase == Phase::ReadingContent,
            encodable(bytes@.len()),
        ensures
            final(self)@.wf(),
            final(self)@ == SessionView::idle(),
            action@ == ActionView::Emit(outcome(old(self)@, bytes@)),
    {
        proof {
            crate::targets::lemma_first_usable(self@.offers);
        }
        let info = ClipboardInfo {
            content: encode(bytes.as_slice()),
            content_type: self.offers[self.chosen].name.clone(),
            mime_types: offered_names(&self.offers),
        };
        self.reset(Phase::Watching);
        Action::Emit(info)
    }

    /// Takes in the event that came of the last action and says what to do
    /// next, as `next` has it. An event that the protocol does not allow at
    /// this point ends the negotiation, never the session; only the loss of
    /// the connection stops it.
    pub fn step(&mut self, event: Event) -> (action: Action)
        requires
            old(self)@.wf(),
            within_limits(event@),
        ensures
            final(self)@.wf(),
            final(self)@ == next(old(self)@, event@).0,
            action@ == next(old(self)@, event@).1,
    {
        match (self.phase, event) {
            (Phase::Stopped, _) => Action::Terminate,
            (_, Event::ConnectionLost) => {
                self.reset(Phase::Stopped);
                Action::Terminate
            },
            (Phase::Watching, Event::OwnershipChanged { timestamp }) => {
                self.reset(Phase::RequestingTargets);
                self.timestamp = timestamp;
                Action::Convert { target: Conversion::TargetList, timestamp }
            },
            (Phase::Watching, _) => Action::WaitForEvent,
            (Phase::RequestingTargets, Event::Acknowledged) => {
                self.phase = Phase::AwaitingTargets;
                Action::WaitForEvent
            },
            (Phase::AwaitingTargets, Event::ConversionCompleted) => {
                self.phase = Phase::ReadingTargets;
                Action::ReadTargetList { max_entries: MAX_TARGETS }
            },
            (Phase::AwaitingTargets, Event::OwnershipChanged { .. })
            | (Phase::AwaitingTargets, Event::Unrelated)
            | (Phase::AwaitingContent, Event::OwnershipChanged { .. })
            | (Phase::AwaitingContent, Event::Unrelated) => Action::WaitForEvent,
            (Phase::ReadingTargets, Event::TargetList(list)) => self.targets_read(list),
            (Phase::Resolving, Event::Name(bytes)) => {
                let text = text_of(bytes.as_slice());
                self.name_resolved(Some(text))
            },
            (Phase::Resolving, Event::NameUnavailable) => self.name_resolved(None),
            (Phase::RequestingContent, Event::Acknowledged) => {
                self.phase = Phase::AwaitingContent;
                Action::WaitForEvent
            },
            (Phase::AwaitingContent, Event::ConversionCompleted) => {
                proof {
                    crate::targets::lemma_first_usable(self@.offers);
                }
                self.phase = Phase::ReadingContent;
                Action::ReadContent {
                    atom: self.offers[self.chosen].atom,
                    max_length: MAX_CONTENT_LENGTH,
                }
            },
            (Phase::ReadingContent, Event::Content(bytes)) => self.content_read(bytes),
            _ => self.abandon(NegotiationError::Protocol),
        }
    }
}

} // verus!
