use clipboard_watch::negotiation::{
    Action, ClipboardInfo, Conversion, Event, NegotiationError, Phase, Session, MAX_CONTENT_LENGTH,
    MAX_TARGETS,
};

/// Takes a fresh negotiation up to the point where the target list is asked for.
fn until_targets_are_read(session: &mut Session, timestamp: u32) {
    assert_eq!(
        session.step(Event::OwnershipChanged { timestamp }),
        Action::Convert { target: Conversion::TargetList, timestamp }
    );
    assert_eq!(session.step(Event::Acknowledged), Action::WaitForEvent);
    assert_eq!(
        session.step(Event::ConversionCompleted),
        Action::ReadTargetList { max_entries: 1024 }
    );
}

/// Delivers a target list and resolves each identifier to the given name;
/// returns the action that follows the last resolution.
fn offer(session: &mut Session, names: &[Option<&str>]) -> Action {
    let atoms: Vec<u32> = (0..names.len()).map(|i| 500 + i as u32).collect();
    let mut action = session.step(Event::TargetList(atoms.clone()));
    for (i, name) in names.iter().enumerate() {
        assert_eq!(action, Action::ResolveName { atom: atoms[i] });
        assert_eq!(session.phase(), Phase::Resolving);
        action = match name {
            Some(text) => session.step(Event::Name(text.as_bytes().to_vec())),
            None => session.step(Event::NameUnavailable),
        };
    }
    action
}

fn names(list: &[&str]) -> Vec<String> {
    list.iter().map(|name| name.to_string()).collect()
}

#[test]
fn a_new_session_watches() {
    let session = Session::new();
    assert_eq!(session.phase(), Phase::Watching);
    assert_eq!(session.timestamp(), 0);
}

#[test]
fn limits_are_those_of_the_protocol() {
    assert_eq!(MAX_TARGETS, 1024);
    assert_eq!(MAX_CONTENT_LENGTH, u32::MAX);
}

#[test]
fn a_watching_session_waits_through_other_events() {
    let mut session = Session::new();
    assert_eq!(session.step(Event::Acknowledged), Action::WaitForEvent);
    assert_eq!(session.step(Event::Unrelated), Action::WaitForEvent);
    assert_eq!(session.step(Event::ConversionCompleted), Action::WaitForEvent);
    assert_eq!(session.step(Event::RoundTripFailed), Action::WaitForEvent);
    assert_eq!(session.step(Event::Content(vec![1, 2, 3])), Action::WaitForEvent);
    assert_eq!(session.phase(), Phase::Watching);
}

#[test]
fn end_to_end_text_plain() {
    let mut session = Session::new();
    until_targets_are_read(&mut session, 4711);
    let action = offer(&mut session, &[Some("TARGETS"), Some("TIMESTAMP"), Some("text/plain")]);
    assert_eq!(action, Action::Convert { target: Conversion::Content(502), timestamp: 4711 });
    assert_eq!(session.phase(), Phase::RequestingContent);
    assert_eq!(session.step(Event::Acknowledged), Action::WaitForEvent);
    assert_eq!(
        session.step(Event::ConversionCompleted),
        Action::ReadContent { atom: 502, max_length: u32::MAX }
    );
    assert_eq!(
        session.step(Event::Content(vec![0x68, 0x69])),
        Action::Emit(ClipboardInfo {
            content: "aGk=".to_string(),
            content_type: "text/plain".to_string(),
            mime_types: names(&["TARGETS", "TIMESTAMP", "text/plain"]),
        })
    );
    assert_eq!(session.phase(), Phase::Watching);
    assert_eq!(session.step(Event::Acknowledged), Action::WaitForEvent);
}

#[test]
fn meta_types_alone_give_no_usable_target() {
    let mut session = Session::new();
    until_targets_are_read(&mut session, 1);
    let action = offer(&mut session, &[Some("TARGETS"), Some("TIMESTAMP")]);
    assert_eq!(action, Action::Report(NegotiationError::NoUsableTarget));
    assert_eq!(session.phase(), Phase::Watching);
}

#[test]
fn utf8_string_is_chosen_after_targets() {
    let mut session = Session::new();
    until_targets_are_read(&mut session, 1);
    let action = offer(&mut session, &[Some("TARGETS"), Some("UTF8_STRING")]);
    assert_eq!(action, Action::Convert { target: Conversion::Content(501), timestamp: 1 });
    session.step(Event::Acknowledged);
    session.step(Event::ConversionCompleted);
    match session.step(Event::Content(b"x".to_vec())) {
        Action::Emit(info) => assert_eq!(info.content_type, "UTF8_STRING"),
        other => panic!("no record: {:?}", other),
    }
}

#[test]
fn first_match_wins_over_later_types() {
    let mut session = Session::new();
    until_targets_are_read(&mut session, 1);
    let action = offer(&mut session, &[Some("MULTIPLE"), Some("image/png"), Some("text/plain")]);
    assert_eq!(action, Action::Convert { target: Conversion::Content(501), timestamp: 1 });
    session.step(Event::Acknowledged);
    session.step(Event::ConversionCompleted);
    match session.step(Event::Content(vec![0x89, 0x50])) {
        Action::Emit(info) => {
            assert_eq!(info.content_type, "image/png");
            assert_eq!(info.mime_types, names(&["MULTIPLE", "image/png", "text/plain"]));
            assert_eq!(info.content, "iVA=");
        }
        other => panic!("no record: {:?}", other),
    }
}

#[test]
fn an_empty_target_list_gives_no_usable_target() {
    let mut session = Session::new();
    until_targets_are_read(&mut session, 1);
    assert_eq!(
        session.step(Event::TargetList(Vec::new())),
        Action::Report(NegotiationError::NoUsableTarget)
    );
    assert_eq!(session.phase(), Phase::Watching);
}

#[test]
fn unresolved_identifiers_are_dropped_in_place() {
    let mut session = Session::new();
    until_targets_are_read(&mut session, 9);
    let action = offer(
        &mut session,
        &[Some("TARGETS"), None, Some("text/html"), None, Some("text/plain"), None],
    );
    assert_eq!(action, Action::Convert { target: Conversion::Content(502), timestamp: 9 });
    session.step(Event::Acknowledged);
    assert_eq!(
        session.step(Event::ConversionCompleted),
        Action::ReadContent { atom: 502, max_length: u32::MAX }
    );
    match session.step(Event::Content(Vec::new())) {
        Action::Emit(info) => {
            assert_eq!(info.mime_types, names(&["TARGETS", "text/html", "text/plain"]));
            assert_eq!(info.content_type, "text/html");
            assert_eq!(info.content, "");
        }
        other => panic!("no record: {:?}", other),
    }
}

#[test]
fn nothing_resolved_gives_no_usable_target() {
    let mut session = Session::new();
    until_targets_are_read(&mut session, 9);
    assert_eq!(
        offer(&mut session, &[None, None]),
        Action::Report(NegotiationError::NoUsableTarget)
    );
}

#[test]
fn names_that_are_not_utf8_are_made_text() {
    let mut session = Session::new();
    until_targets_are_read(&mut session, 9);
    assert_eq!(session.step(Event::TargetList(vec![77])), Action::ResolveName { atom: 77 });
    assert_eq!(
        session.step(Event::Name(vec![0x61, 0xff, 0x62])),
        Action::Convert { target: Conversion::Content(77), timestamp: 9 }
    );
    session.step(Event::Acknowledged);
    session.step(Event::ConversionCompleted);
    match session.step(Event::Content(vec![0])) {
        Action::Emit(info) => {
            assert_eq!(info.content_type, "a\u{fffd}b");
            assert_eq!(info.mime_types, names(&["a\u{fffd}b"]));
            assert_eq!(info.content, "AA==");
        }
        other => panic!("no record: {:?}", other),
    }
}

#[test]
fn a_long_target_list_is_cut_to_the_limit() {
    let mut session = Session::new();
    until_targets_are_read(&mut session, 9);
    let atoms: Vec<u32> = (0..1030u32).collect();
    let mut action = session.step(Event::TargetList(atoms));
    let mut asked: u32 = 0;
    while let Action::ResolveName { atom } = action {
        assert_eq!(atom, asked);
        asked += 1;
        action = session.step(Event::Name(b"TARGETS".to_vec()));
    }
    assert_eq!(asked, 1024);
    assert_eq!(action, Action::Report(NegotiationError::NoUsableTarget));
}

#[test]
fn stray_events_do_not_complete_a_wait() {
    let mut session = Session::new();
    session.step(Event::OwnershipChanged { timestamp: 5 });
    session.step(Event::Acknowledged);
    assert_eq!(session.step(Event::Unrelated), Action::WaitForEvent);
    assert_eq!(session.step(Event::OwnershipChanged { timestamp: 6 }), Action::WaitForEvent);
    assert_eq!(session.phase(), Phase::AwaitingTargets);
    assert_eq!(session.timestamp(), 5);
    assert_eq!(
        session.step(Event::ConversionCompleted),
        Action::ReadTargetList { max_entries: 1024 }
    );
    let action = offer(&mut session, &[Some("text/plain")]);
    assert_eq!(action, Action::Convert { target: Conversion::Content(500), timestamp: 5 });
    session.step(Event::Acknowledged);
    assert_eq!(session.step(Event::Unrelated), Action::WaitForEvent);
    assert_eq!(session.step(Event::OwnershipChanged { timestamp: 7 }), Action::WaitForEvent);
    assert_eq!(session.phase(), Phase::AwaitingContent);
    assert_eq!(session.timestamp(), 5);
}

#[test]
fn both_requests_carry_the_timestamp_of_the_event() {
    let mut session = Session::new();
    until_targets_are_read(&mut session, 3);
    assert_eq!(session.timestamp(), 3);
    let action = offer(&mut session, &[Some("text/plain")]);
    assert_eq!(action, Action::Convert { target: Conversion::Content(500), timestamp: 3 });
    session.step(Event::Acknowledged);
    session.step(Event::ConversionCompleted);
    session.step(Event::Content(Vec::new()));
    until_targets_are_read(&mut session, 2);
    assert_eq!(session.timestamp(), 2);
    let action = offer(&mut session, &[Some("text/plain")]);
    assert_eq!(action, Action::Convert { target: Conversion::Content(500), timestamp: 2 });
}

#[test]
fn a_failure_in_the_second_phase_does_not_end_the_session() {
    let mut session = Session::new();
    until_targets_are_read(&mut session, 10);
    offer(&mut session, &[Some("text/plain")]);
    session.step(Event::Acknowledged);
    session.step(Event::ConversionCompleted);
    assert_eq!(session.phase(), Phase::ReadingContent);
    assert_eq!(
        session.step(Event::RoundTripFailed),
        Action::Report(NegotiationError::Protocol)
    );
    assert_eq!(session.phase(), Phase::Watching);
    assert_eq!(session.step(Event::Acknowledged), Action::WaitForEvent);

    until_targets_are_read(&mut session, 11);
    offer(&mut session, &[Some("TARGETS"), Some("text/plain")]);
    session.step(Event::Acknowledged);
    session.step(Event::ConversionCompleted);
    assert_eq!(
        session.step(Event::Content(b"hi".to_vec())),
        Action::Emit(ClipboardInfo {
            content: "aGk=".to_string(),
            content_type: "text/plain".to_string(),
            mime_types: names(&["TARGETS", "text/plain"]),
        })
    );
}

#[test]
fn a_failed_round_trip_ends_the_negotiation_in_every_phase() {
    let mut depth: usize = 0;
    while depth < 8 {
        let mut session = Session::new();
        let events = vec![
            Event::OwnershipChanged { timestamp: 1 },
            Event::Acknowledged,
            Event::ConversionCompleted,
            Event::TargetList(vec![10, 11]),
            Event::Name(b"text/plain".to_vec()),
            Event::NameUnavailable,
            Event::Acknowledged,
            Event::ConversionCompleted,
        ];
        for event in events.into_iter().take(depth + 1) {
            session.step(event);
        }
        assert_ne!(session.phase(), Phase::Watching);
        assert_eq!(
            session.step(Event::RoundTripFailed),
            Action::Report(NegotiationError::Protocol)
        );
        assert_eq!(session.phase(), Phase::Watching);
        depth += 1;
    }
}

#[test]
fn an_event_out_of_place_ends_the_negotiation() {
    let mut session = Session::new();
    session.step(Event::OwnershipChanged { timestamp: 1 });
    assert_eq!(
        session.step(Event::Content(vec![1])),
        Action::Report(NegotiationError::Protocol)
    );
    assert_eq!(session.phase(), Phase::Watching);

    until_targets_are_read(&mut session, 2);
    assert_eq!(
        session.step(Event::Name(b"text/plain".to_vec())),
        Action::Report(NegotiationError::Protocol)
    );
    assert_eq!(session.phase(), Phase::Watching);
}

#[test]
fn a_lost_connection_stops_the_session() {
    let mut session = Session::new();
    assert_eq!(session.step(Event::ConnectionLost), Action::Terminate);
    assert_eq!(session.phase(), Phase::Stopped);
    assert_eq!(session.step(Event::OwnershipChanged { timestamp: 1 }), Action::Terminate);
    assert_eq!(session.phase(), Phase::Stopped);

    let mut session = Session::new();
    until_targets_are_read(&mut session, 2);
    assert_eq!(session.step(Event::ConnectionLost), Action::Terminate);
    assert_eq!(session.phase(), Phase::Stopped);
}

#[test]
fn name_resolved_takes_the_text_as_it_is() {
    let mut session = Session::new();
    until_targets_are_read(&mut session, 8);
    assert_eq!(session.step(Event::TargetList(vec![40, 41, 42])), Action::ResolveName { atom: 40 });
    assert_eq!(
        session.name_resolved(Some("SAVE_TARGETS".to_string())),
        Action::ResolveName { atom: 41 }
    );
    assert_eq!(session.name_resolved(None), Action::ResolveName { atom: 42 });
    assert_eq!(
        session.name_resolved(Some("image/png".to_string())),
        Action::Convert { target: Conversion::Content(42), timestamp: 8 }
    );
}
