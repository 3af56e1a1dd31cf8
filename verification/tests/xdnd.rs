use drag::atom::XDNDAtoms;
use drag::event::{SelectionRequestInfo, WireClientMessage};
use drag::xdnd::{DragSource, MotionOutcome, PayloadError, ProbeOutcome, XDNDState};
use drag::DragItem;

fn atoms() -> XDNDAtoms {
    // aware, enter, selection, position, action_copy, leave, status,
    // drop, xa_atom, uri-list
    XDNDAtoms::new(1, 2, 3, 4, 5, 6, 7, 8, 9, 10)
}

fn source() -> DragSource {
    DragSource::new(atoms(), 42)
}

#[test]
fn a_fresh_source_is_idle() {
    let src = source();
    assert_eq!(src.state, XDNDState::default());
    assert!(!src.state.exchange_started);
    assert!(!src.state.status_received);
    assert!(!src.cursor_in_source);
}

#[test]
fn valid_paths_are_accepted() {
    let mut src = source();
    let item = DragItem::Files(vec![b"/tmp/a.png".to_vec(), b"/home/u/b".to_vec()]);
    assert_eq!(src.set_drag_item(item), Ok(()));
    assert_eq!(src.paths.len(), 2);
}

#[test]
fn an_empty_file_list_is_rejected() {
    let mut src = source();
    assert_eq!(
        src.set_drag_item(DragItem::Files(vec![])),
        Err(PayloadError::EmptyList)
    );
}

#[test]
fn a_relative_path_is_rejected() {
    let mut src = source();
    assert_eq!(
        src.set_drag_item(DragItem::Files(vec![b"a.png".to_vec()])),
        Err(PayloadError::InvalidPath)
    );
    assert_eq!(src.paths.len(), 0);
}

#[test]
fn a_path_with_a_nul_byte_is_rejected() {
    let mut src = source();
    assert_eq!(
        src.set_drag_item(DragItem::Files(vec![b"/tmp/a\0b".to_vec()])),
        Err(PayloadError::InvalidPath)
    );
}

#[test]
fn motion_over_an_unknown_window_asks_for_a_probe() {
    let mut src = source();
    assert_eq!(
        src.on_motion(Some(500), 10, 20, 1000),
        MotionOutcome::Probe { target: 500 }
    );
    assert!(!src.state.exchange_started);
}

#[test]
fn motion_without_a_located_window_is_ignored() {
    let mut src = source();
    assert_eq!(src.on_motion(None, 10, 20, 1000), MotionOutcome::Ignore);
}

#[test]
fn an_aware_target_gets_an_enter_message() {
    let mut src = source();
    let out = src.on_probe_result(500, Some(5), 1000);
    assert_eq!(
        out,
        ProbeOutcome::Enter {
            selection: 3,
            claim_time: 1000,
            enter: WireClientMessage {
                window: 500,
                message_type: 2,
                format: 32,
                data0: 42,
                data1: 5 << 24,
                data2: 10,
                data3: 0,
                data4: 0,
            },
        }
    );
    assert!(src.state.exchange_started);
    assert_eq!(src.state.target_window, 500);
    assert!(!src.state.status_received);
    assert_eq!(src.state.last_position_timestamp, 0);
}

#[test]
fn a_stray_status_before_the_exchange_cannot_arm_the_drop() {
    let mut src = source();
    // an accepted status arrives while the machine is idle
    assert_eq!(src.on_client_message(7, 1), None);
    // entering a fresh exchange clears it
    src.on_probe_result(500, Some(5), 1000);
    assert!(!src.state.status_received);
    // so a release still produces no drop message
    assert_eq!(src.on_button_release(), None);
}

#[test]
fn a_target_advertising_a_newer_version_is_ignored() {
    let mut src = source();
    let before = src.state;
    assert_eq!(src.on_probe_result(500, Some(6), 1000), ProbeOutcome::Ignore);
    assert_eq!(src.state, before);
}

#[test]
fn a_target_without_the_aware_property_is_ignored() {
    let mut src = source();
    let before = src.state;
    assert_eq!(src.on_probe_result(500, None, 1000), ProbeOutcome::Ignore);
    assert_eq!(src.state, before);
}

#[test]
fn motion_over_the_exchange_target_sends_a_position() {
    let mut src = source();
    src.on_probe_result(500, Some(5), 1000);
    let out = src.on_motion(Some(500), 100, 200, 1234);
    assert_eq!(
        out,
        MotionOutcome::Position {
            msg: WireClientMessage {
                window: 500,
                message_type: 4,
                format: 32,
                data0: 42,
                data1: 0,
                data2: (100 << 16) | 200,
                data3: 1234,
                data4: 5,
            },
        }
    );
    assert_eq!(src.state.last_position_timestamp, 1234);
}

#[test]
fn release_without_status_produces_no_drop() {
    let mut src = source();
    src.on_probe_result(500, Some(5), 1000);
    src.on_motion(Some(500), 100, 200, 1234);
    assert_eq!(src.on_button_release(), None);
}

#[test]
fn release_after_accepting_status_produces_the_drop() {
    let mut src = source();
    src.on_probe_result(500, Some(5), 1000);
    src.on_motion(Some(500), 100, 200, 1234);
    // status message, acceptance bit set
    assert_eq!(src.on_client_message(7, 1), None);
    assert!(src.state.status_received);
    let drop_msg = src.on_button_release().unwrap();
    assert_eq!(
        drop_msg,
        WireClientMessage {
            window: 500,
            message_type: 8,
            format: 32,
            data0: 42,
            data1: 0,
            data2: 1234,
            data3: 0,
            data4: 0,
        }
    );
    // the state persists until a later leave or reset clears it
    assert!(src.state.exchange_started);
    assert!(src.state.status_received);
}

#[test]
fn switching_targets_leaves_the_old_one_through_idle() {
    let mut src = source();
    src.on_probe_result(500, Some(5), 1000);
    let out = src.on_motion(Some(600), 100, 200, 2000);
    assert_eq!(
        out,
        MotionOutcome::LeaveAndProbe {
            leave: WireClientMessage {
                window: 500,
                message_type: 6,
                format: 32,
                data0: 42,
                data1: 0,
                data2: 0,
                data3: 0,
                data4: 0,
            },
            target: 600,
        }
    );
    // the machine passed back through the idle state
    assert_eq!(src.state, XDNDState::default());
    // only then does the new target get its enter
    let out = src.on_probe_result(600, Some(4), 2000);
    assert!(matches!(out, ProbeOutcome::Enter { .. }));
    assert_eq!(src.state.target_window, 600);
}

#[test]
fn a_rejecting_status_emits_leave_and_resets_fully() {
    let mut src = source();
    src.on_probe_result(500, Some(5), 1000);
    src.on_motion(Some(500), 100, 200, 1234);
    // acceptance bit unset
    let leave = src.on_client_message(7, 0).unwrap();
    assert_eq!(leave.window, 500);
    assert_eq!(leave.message_type, 6);
    assert_eq!(leave.data0, 42);
    assert_eq!(src.state, XDNDState::default());
    // a release right after produces nothing
    assert_eq!(src.on_button_release(), None);
}

#[test]
fn a_rejecting_status_while_idle_only_resets() {
    let mut src = source();
    assert_eq!(src.on_client_message(7, 0), None);
    assert_eq!(src.state, XDNDState::default());
}

#[test]
fn other_client_messages_are_ignored() {
    let mut src = source();
    src.on_probe_result(500, Some(5), 1000);
    let before = src.state;
    assert_eq!(src.on_client_message(99, 0), None);
    assert_eq!(src.state, before);
}

#[test]
fn motion_is_suppressed_while_the_cursor_is_over_the_source() {
    let mut src = source();
    src.on_enter_source();
    assert_eq!(src.on_motion(Some(500), 10, 20, 1000), MotionOutcome::Ignore);
    src.on_leave_source();
    assert_eq!(
        src.on_motion(Some(500), 10, 20, 1000),
        MotionOutcome::Probe { target: 500 }
    );
}

#[test]
fn selection_requests_are_answered_during_an_exchange() {
    let mut src = source();
    src.set_drag_item(DragItem::Files(vec![b"/tmp/a.png".to_vec()]))
        .unwrap();
    src.on_probe_result(500, Some(5), 1000);
    let req = SelectionRequestInfo {
        requestor: 500,
        selection: 3,
        target: 10,
        property: 77,
        time: 4321,
    };
    let reply = src.on_selection_request(&req).unwrap();
    assert_eq!(reply.requestor, 500);
    assert_eq!(reply.selection, 3);
    assert_eq!(reply.target, 10);
    assert_eq!(reply.property, 77);
    assert_eq!(reply.time, 4321);
    assert_eq!(reply.data, b"file:///tmp/a.png\r\n".to_vec());
}

#[test]
fn selection_requests_list_every_dragged_path() {
    let mut src = source();
    src.set_drag_item(DragItem::Files(vec![b"/a".to_vec(), b"/b".to_vec()]))
        .unwrap();
    src.on_probe_result(500, Some(5), 1000);
    let req = SelectionRequestInfo {
        requestor: 500,
        selection: 3,
        target: 10,
        property: 77,
        time: 1,
    };
    let reply = src.on_selection_request(&req).unwrap();
    assert_eq!(reply.data, b"file:///a\r\nfile:///b\r\n".to_vec());
}

#[test]
fn selection_requests_outside_an_exchange_are_silent() {
    let mut src = source();
    src.set_drag_item(DragItem::Files(vec![b"/tmp/a.png".to_vec()]))
        .unwrap();
    let req = SelectionRequestInfo {
        requestor: 500,
        selection: 3,
        target: 10,
        property: 77,
        time: 1,
    };
    assert!(src.on_selection_request(&req).is_none());
}
