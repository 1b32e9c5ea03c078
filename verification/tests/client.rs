use drawing_board::client::KEEP_ALIVE_SECONDS;
use drawing_board::{
    connect_to_server, downlink_step, uplink_step, Brush, BrushType, ClientView, Color,
    DownlinkAction, LinePos, LineSyncType, ListenerEvent, Message, MessageType, Peer, Phase,
    PointerProperties, Reaction, SenderAction, ServerState, Termination, UplinkEvent,
};

const ME: u128 = 0x11;
const ALICE: u128 = 0xa11ce;
const BOB: u128 = 0xb0b;

fn point(x: f32, y: f32) -> LinePos {
    LinePos { x: x.to_bits(), y: y.to_bits() }
}

fn brush(width: f32) -> Brush {
    Brush { width: width.to_bits(), color: Color { r: 9, g: 8, b: 7, a: 6 }, kind: BrushType::Marker }
}

fn pointer(x: f32, y: f32) -> PointerProperties {
    PointerProperties { pointer_pos: point(x, y), brush: brush(3.0) }
}

fn fresh(name: &str) -> Peer {
    Peer { name: String::from(name), pointer: PointerProperties::default() }
}

fn held() -> Brush {
    brush(5.0)
}

#[test]
fn default_pointer_rests_at_the_origin() {
    let pointer = PointerProperties::default();
    assert_eq!(pointer.pointer_pos, point(0.0, 0.0));
    assert_eq!(
        pointer.brush,
        Brush { width: 0.0f32.to_bits(), color: Color::transparent(), kind: BrushType::Marker }
    );
}

#[test]
fn new_view_is_empty() {
    let view = ClientView::new();
    assert!(view.peer_map().is_empty());
    assert!(view.line_list().is_empty());
    assert_eq!(view.peer(ALICE), None);
}

#[test]
fn client_list_replaces_the_peers() {
    let mut view = ClientView::new();
    view.receive(Message::new(BOB, MessageType::Connecting(String::from("bob"))), held());
    let roster = vec![
        (String::from("alice"), ALICE),
        (String::from("me"), ME),
        (String::from("alice again"), ALICE),
    ];
    let reaction = view.receive(Message::new(ME, MessageType::ClientList(roster)), held());
    assert_eq!(reaction, Reaction::Nothing);
    assert_eq!(view.peer_map().len(), 2);
    assert_eq!(view.peer(ALICE), Some(&fresh("alice again")));
    assert_eq!(view.peer(ME), Some(&fresh("me")));
    assert_eq!(view.peer(BOB), None);
}

#[test]
fn peers_come_and_go() {
    let mut view = ClientView::new();
    view.receive(Message::new(ALICE, MessageType::Connecting(String::from("alice"))), held());
    view.receive(Message::new(BOB, MessageType::Connecting(String::from("bob"))), held());
    assert_eq!(view.peer(ALICE), Some(&fresh("alice")));
    assert_eq!(view.peer(BOB), Some(&fresh("bob")));
    assert_eq!(
        view.receive(Message::new(ALICE, MessageType::Disconnecting), held()),
        Reaction::Nothing
    );
    assert_eq!(view.peer(ALICE), None);
    assert_eq!(view.peer(BOB), Some(&fresh("bob")));
    view.receive(Message::new(ALICE, MessageType::Disconnecting), held());
    assert_eq!(view.peer_map().len(), 1);
}

#[test]
fn cursor_moves_only_a_known_peer() {
    let mut view = ClientView::new();
    view.receive(Message::new(ALICE, MessageType::Connecting(String::from("alice"))), held());
    view.receive(Message::new(ALICE, MessageType::CursorPosition(pointer(4.0, 5.0))), held());
    assert_eq!(
        view.peer(ALICE),
        Some(&Peer { name: String::from("alice"), pointer: pointer(4.0, 5.0) })
    );
    view.receive(Message::new(BOB, MessageType::CursorPosition(pointer(1.0, 1.0))), held());
    assert_eq!(view.peer(BOB), None);
    assert_eq!(view.peer_map().len(), 1);
}

#[test]
fn keep_alive_changes_nothing() {
    let mut view = ClientView::new();
    view.receive(Message::new(ALICE, MessageType::Connecting(String::from("alice"))), held());
    view.receive(Message::new(0, MessageType::AddLine(vec![point(1.0, 1.0)], brush(1.0))), held());
    let lines = view.line_list().clone();
    assert_eq!(view.receive(Message::new(0, MessageType::KeepAlive), held()), Reaction::Nothing);
    assert_eq!(view.line_list(), &lines);
    assert_eq!(view.peer_map().len(), 1);
}

#[test]
fn announced_line_is_taken_over_once() {
    let mut view = ClientView::new();
    let line = vec![point(1.0, 1.0), point(2.0, 2.0)];
    let add = Message::new(ALICE, MessageType::AddLine(line.clone(), brush(1.0)));
    assert_eq!(view.receive(add.clone(), held()), Reaction::Nothing);
    assert_eq!(view.line_list(), &vec![(line.clone(), brush(1.0)), (vec![], held())]);
    assert_eq!(view.receive(add, held()), Reaction::Nothing);
    assert_eq!(view.line_list(), &vec![(line.clone(), brush(1.0)), (vec![], held())]);
    let other_brush = Message::new(ALICE, MessageType::AddLine(line.clone(), brush(2.0)));
    view.receive(other_brush, held());
    assert_eq!(
        view.line_list(),
        &vec![
            (line.clone(), brush(1.0)),
            (vec![], held()),
            (line.clone(), brush(2.0)),
            (vec![], held())
        ]
    );
}

#[test]
fn change_reaches_the_first_equal_line() {
    let mut view = ClientView::new();
    let a = vec![point(1.0, 1.0)];
    let b = vec![point(2.0, 2.0)];
    let c = vec![point(3.0, 3.0)];
    let all = vec![(a.clone(), brush(1.0)), (b.clone(), brush(2.0)), (c.clone(), brush(3.0))];
    view.receive(Message::new(0, MessageType::SyncLine(LineSyncType::Full(all))), held());

    let change = Message::new(ALICE, MessageType::ModifyLine(b.clone(), Some(brush(9.0))));
    assert_eq!(view.receive(change, held()), Reaction::Nothing);
    assert_eq!(
        view.line_list(),
        &vec![(a.clone(), brush(1.0)), (b.clone(), brush(9.0)), (c.clone(), brush(3.0))]
    );

    let removal = Message::new(ALICE, MessageType::ModifyLine(a.clone(), None));
    assert_eq!(view.receive(removal, held()), Reaction::Nothing);
    assert_eq!(view.line_list(), &vec![(c.clone(), brush(3.0)), (b.clone(), brush(9.0))]);
}

#[test]
fn change_of_unknown_line_asks_the_server() {
    let mut view = ClientView::new();
    let known = vec![point(1.0, 1.0)];
    let unknown = vec![point(8.0, 8.0)];
    view.receive(Message::new(0, MessageType::AddLine(known.clone(), brush(1.0))), held());
    let before = view.line_list().clone();
    for change in [Some(brush(2.0)), None] {
        let reaction =
            view.receive(Message::new(ALICE, MessageType::ModifyLine(unknown.clone(), change)), held());
        assert_eq!(
            reaction,
            Reaction::Request(MessageType::RequestSyncLine(Some(unknown.clone())))
        );
        assert_eq!(view.line_list(), &before);
    }
}

#[test]
fn sync_answers_bring_the_view_up_to_date() {
    let mut view = ClientView::new();
    view.receive(Message::new(0, MessageType::AddLine(vec![point(1.0, 1.0)], brush(1.0))), held());
    let all = vec![(vec![point(5.0, 5.0)], brush(5.0)), (vec![point(6.0, 6.0)], brush(6.0))];
    let full = Message::new(0, MessageType::SyncLine(LineSyncType::Full(all.clone())));
    assert_eq!(view.receive(full, held()), Reaction::Nothing);
    assert_eq!(view.line_list(), &all);

    let one = (vec![point(7.0, 7.0)], brush(7.0));
    let partial = Message::new(0, MessageType::SyncLine(LineSyncType::Partial(Some(one.clone()))));
    assert_eq!(view.receive(partial, held()), Reaction::Nothing);
    assert_eq!(view.line_list().len(), 3);
    assert_eq!(view.line_list()[2], one);

    let absent = Message::new(0, MessageType::SyncLine(LineSyncType::Partial(None)));
    assert_eq!(view.receive(absent, held()), Reaction::Desync);
    assert_eq!(view.line_list().len(), 3);
}

#[test]
fn request_from_the_server_is_passed_over() {
    let mut view = ClientView::new();
    let reaction = view.receive(Message::new(0, MessageType::RequestSyncLine(None)), held());
    assert_eq!(reaction, Reaction::Unexpected);
    assert!(view.line_list().is_empty());
}

#[test]
fn clear_forgets_everything() {
    let mut view = ClientView::new();
    view.receive(Message::new(ALICE, MessageType::Connecting(String::from("alice"))), held());
    view.receive(Message::new(0, MessageType::AddLine(vec![point(1.0, 1.0)], brush(1.0))), held());
    view.clear();
    assert!(view.peer_map().is_empty());
    assert!(view.line_list().is_empty());
}

#[test]
fn stroke_is_recorded_point_by_point() {
    let mut view = ClientView::new();
    assert!(view.pointer_at(point(1.0, 1.0), held()));
    assert_eq!(view.line_list(), &vec![(vec![point(1.0, 1.0)], held())]);
    assert!(!view.pointer_at(point(1.0, 1.0), held()));
    assert!(view.pointer_at(point(0.0, 2.0), brush(6.0)));
    assert!(!view.pointer_at(point(-0.0, 2.0), brush(7.0)));
    assert!(view.pointer_at(point(1.0, 1.0), brush(8.0)));
    assert_eq!(
        view.line_list(),
        &vec![(vec![point(1.0, 1.0), point(0.0, 2.0), point(1.0, 1.0)], brush(8.0))]
    );
}

#[test]
fn lifting_the_pointer_finishes_the_stroke() {
    let mut view = ClientView::new();
    assert_eq!(view.pointer_released(held()), None);
    assert_eq!(view.line_list(), &vec![(vec![], held())]);
    assert_eq!(view.pointer_released(held()), None);
    assert_eq!(view.line_list(), &vec![(vec![], held())]);

    view.pointer_at(point(1.0, 1.0), brush(2.0));
    view.pointer_at(point(2.0, 2.0), brush(2.0));
    let finished = view.pointer_released(held());
    let line = vec![point(1.0, 1.0), point(2.0, 2.0)];
    assert_eq!(finished, Some(MessageType::AddLine(line.clone(), brush(2.0))));
    assert_eq!(view.line_list(), &vec![(line, brush(2.0)), (vec![], held())]);
    assert_eq!(view.pointer_released(held()), None);
    assert_eq!(view.line_list().len(), 2);
}

#[test]
fn client_greets_with_its_name() {
    assert_eq!(
        connect_to_server(String::from("alice"), ALICE),
        Message { uuid: ALICE, msg_type: MessageType::Connecting(String::from("alice")) }
    );
}

#[test]
fn uplink_writes_under_the_identifier_of_the_client() {
    assert_eq!(KEEP_ALIVE_SECONDS, 10);
    let cursor = MessageType::CursorPosition(pointer(1.0, 2.0));
    assert_eq!(
        uplink_step(ME, Phase::Running, UplinkEvent::Outgoing(cursor.clone())),
        (Phase::Running, SenderAction::Write(Message::new(ME, cursor)))
    );
    assert_eq!(
        uplink_step(ME, Phase::Running, UplinkEvent::Idle),
        (Phase::Running, SenderAction::Write(Message::new(ME, MessageType::KeepAlive)))
    );
    assert_eq!(
        uplink_step(ME, Phase::Running, UplinkEvent::QueueClosed),
        (Phase::Stopped, SenderAction::Halt(Termination::ChannelClosed))
    );
    assert_eq!(
        uplink_step(ME, Phase::Running, UplinkEvent::WriteFailed),
        (Phase::Stopped, SenderAction::Halt(Termination::ConnectionLost))
    );
    assert_eq!(
        uplink_step(ME, Phase::Running, UplinkEvent::Cancelled),
        (Phase::Stopped, SenderAction::Halt(Termination::Cancelled))
    );
    assert_eq!(
        uplink_step(ME, Phase::Stopped, UplinkEvent::Idle),
        (Phase::Stopped, SenderAction::Nothing)
    );
}

#[test]
fn downlink_delivers_until_it_fails() {
    let message = Message::new(0, MessageType::KeepAlive);
    assert_eq!(
        downlink_step(Phase::Running, ListenerEvent::Received(message.clone())),
        (Phase::Running, DownlinkAction::Deliver(message.clone()))
    );
    assert_eq!(
        downlink_step(Phase::Running, ListenerEvent::Undecodable),
        (Phase::Stopped, DownlinkAction::Halt(Termination::Malformed))
    );
    assert_eq!(
        downlink_step(Phase::Running, ListenerEvent::StreamClosed),
        (Phase::Stopped, DownlinkAction::Halt(Termination::ConnectionLost))
    );
    assert_eq!(
        downlink_step(Phase::Running, ListenerEvent::DeliveryFailed),
        (Phase::Stopped, DownlinkAction::Halt(Termination::ChannelClosed))
    );
    assert_eq!(
        downlink_step(Phase::Running, ListenerEvent::Cancelled),
        (Phase::Stopped, DownlinkAction::Halt(Termination::Cancelled))
    );
    assert_eq!(
        downlink_step(Phase::Stopped, ListenerEvent::Received(message)),
        (Phase::Stopped, DownlinkAction::Nothing)
    );
    let nan = Message::new(
        0,
        MessageType::AddLine(vec![LinePos { x: 0x7fc0_0000, y: 0 }], brush(1.0)),
    );
    assert_eq!(
        downlink_step(Phase::Running, ListenerEvent::Received(nan)),
        (Phase::Stopped, DownlinkAction::Halt(Termination::Malformed))
    );
}

#[test]
fn rubbing_out_puts_the_last_line_in_place() {
    let mut view = ClientView::new();
    let a = (vec![point(1.0, 1.0)], brush(1.0));
    let b = (vec![point(2.0, 2.0)], brush(2.0));
    let c = (vec![point(3.0, 3.0)], brush(3.0));
    view.set_lines(vec![a.clone(), b.clone(), c.clone()]);
    assert_eq!(view.line_list(), &vec![a.clone(), b.clone(), c.clone()]);
    view.erase(0);
    assert_eq!(view.line_list(), &vec![c.clone(), b.clone()]);
    view.erase(1);
    assert_eq!(view.line_list(), &vec![c.clone()]);
    view.erase(0);
    assert!(view.line_list().is_empty());
}

#[test]
fn setting_lines_keeps_the_peers() {
    let mut view = ClientView::new();
    view.receive(Message::new(ALICE, MessageType::Connecting(String::from("alice"))), held());
    view.set_lines(vec![(vec![point(1.0, 1.0)], brush(1.0))]);
    assert_eq!(view.peer(ALICE), Some(&fresh("alice")));
    view.set_lines(vec![]);
    assert!(view.line_list().is_empty());
    assert_eq!(view.peer_map().len(), 1);
}

#[test]
fn client_heals_through_sync() {
    let mut server = ServerState::new();
    let known = vec![point(1.0, 1.0)];
    let missed = vec![point(2.0, 2.0)];
    server.apply(&MessageType::AddLine(known.clone(), brush(1.0)));
    server.apply(&MessageType::AddLine(missed.clone(), brush(2.0)));

    let mut view = ClientView::new();
    view.set_lines(vec![(known.clone(), brush(1.0))]);
    let change = MessageType::ModifyLine(missed.clone(), Some(brush(3.0)));
    server.apply(&change);
    let reaction = view.receive(Message::new(ALICE, change), held());
    let request = match reaction {
        Reaction::Request(MessageType::RequestSyncLine(selector)) => selector,
        other => panic!("no request: {:?}", other),
    };
    assert_eq!(request, Some(missed.clone()));
    let answer = server.sync(&request);
    assert_eq!(answer, LineSyncType::Partial(Some((missed.clone(), brush(3.0)))));
    view.receive(Message::new(0, MessageType::SyncLine(answer)), held());
    assert_eq!(
        view.line_list(),
        &vec![(known.clone(), brush(1.0)), (missed.clone(), brush(3.0))]
    );

    let mut late = ClientView::new();
    late.set_lines(vec![(vec![point(9.0, 9.0)], brush(9.0))]);
    late.receive(Message::new(0, MessageType::SyncLine(server.sync(&None))), held());
    let mut shown = late.line_list().clone();
    shown.sort_by_key(|line| line.0[0].x);
    assert_eq!(shown, vec![(known, brush(1.0)), (missed, brush(3.0))]);
}

#[test]
fn answer_without_a_line_drops_the_stale_copy() {
    let mut view = ClientView::new();
    let known = vec![point(1.0, 1.0)];
    let stale = vec![point(8.0, 8.0)];
    view.set_lines(vec![(known.clone(), brush(1.0))]);

    let change = Message::new(ALICE, MessageType::ModifyLine(stale.clone(), Some(brush(2.0))));
    assert_eq!(
        view.receive(change, held()),
        Reaction::Request(MessageType::RequestSyncLine(Some(stale.clone())))
    );
    view.receive(Message::new(ALICE, MessageType::AddLine(stale.clone(), brush(2.0))), held());
    assert_eq!(
        view.line_list(),
        &vec![(known.clone(), brush(1.0)), (stale.clone(), brush(2.0)), (vec![], held())]
    );

    let absent = Message::new(0, MessageType::SyncLine(LineSyncType::Partial(None)));
    assert_eq!(view.receive(absent.clone(), held()), Reaction::Desync);
    assert_eq!(view.line_list(), &vec![(known.clone(), brush(1.0)), (vec![], held())]);

    assert_eq!(view.receive(absent, held()), Reaction::Desync);
    assert_eq!(view.line_list(), &vec![(known, brush(1.0)), (vec![], held())]);
}

#[test]
fn answers_settle_the_questions_in_the_order_asked() {
    let mut view = ClientView::new();
    let first = vec![point(1.0, 1.0)];
    let second = vec![point(2.0, 2.0)];
    for asked in [&first, &second] {
        let change = Message::new(ALICE, MessageType::ModifyLine(asked.clone(), None));
        assert_eq!(
            view.receive(change, held()),
            Reaction::Request(MessageType::RequestSyncLine(Some(asked.clone())))
        );
    }
    view.set_lines(vec![(first.clone(), brush(1.0)), (second.clone(), brush(2.0))]);

    let found = (first.clone(), brush(3.0));
    let with_line = Message::new(0, MessageType::SyncLine(LineSyncType::Partial(Some(found.clone()))));
    assert_eq!(view.receive(with_line, held()), Reaction::Nothing);
    assert_eq!(
        view.line_list(),
        &vec![(first.clone(), brush(1.0)), (second.clone(), brush(2.0)), found.clone()]
    );

    let absent = Message::new(0, MessageType::SyncLine(LineSyncType::Partial(None)));
    assert_eq!(view.receive(absent, held()), Reaction::Desync);
    assert_eq!(view.line_list(), &vec![(first.clone(), brush(1.0)), found]);
}

#[test]
fn leaving_the_board_forgets_the_questions() {
    let mut view = ClientView::new();
    let asked = vec![point(1.0, 1.0)];
    view.receive(Message::new(ALICE, MessageType::ModifyLine(asked.clone(), None)), held());
    view.clear();
    view.set_lines(vec![(asked.clone(), brush(1.0))]);
    let absent = Message::new(0, MessageType::SyncLine(LineSyncType::Partial(None)));
    assert_eq!(view.receive(absent, held()), Reaction::Desync);
    assert_eq!(view.line_list(), &vec![(asked, brush(1.0))]);
}
