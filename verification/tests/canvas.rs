use drawing_board::{
    Brush, BrushType, CanvasOutcome, Color, LinePos, LineSyncType, MessageType, ServerState,
};

fn point(x: f32, y: f32) -> LinePos {
    LinePos { x: x.to_bits(), y: y.to_bits() }
}

fn brush(width: f32, kind: BrushType) -> Brush {
    Brush { width: width.to_bits(), color: Color { r: 10, g: 20, b: 30, a: 255 }, kind }
}

fn full(state: &ServerState) -> Vec<(Vec<LinePos>, Brush)> {
    match state.sync(&None) {
        LineSyncType::Full(lines) => lines,
        LineSyncType::Partial(_) => panic!("a request for everything got a partial answer"),
    }
}

#[test]
fn new_server_has_empty_canvas() {
    let state = ServerState::new();
    assert_eq!(full(&state), vec![]);
    assert_eq!(state.snapshot(), vec![]);
}

#[test]
fn add_line_is_stored_and_synced() {
    let mut state = ServerState::new();
    let line = vec![point(1.0, 2.0), point(3.0, 4.0)];
    let marker = brush(2.5, BrushType::Marker);
    let outcome = state.apply(&MessageType::AddLine(line.clone(), marker));
    assert_eq!(outcome, CanvasOutcome::Stored);
    assert_eq!(state.get(&line), Some(marker));
    assert_eq!(full(&state), vec![(line, marker)]);
}

#[test]
fn add_line_twice_yields_one_entry() {
    let mut state = ServerState::new();
    let line = vec![point(0.5, 0.5), point(0.75, 0.25)];
    let pencil = brush(1.0, BrushType::Pencil);
    assert_eq!(state.apply(&MessageType::AddLine(line.clone(), pencil)), CanvasOutcome::Stored);
    let once = full(&state);
    assert_eq!(state.apply(&MessageType::AddLine(line.clone(), pencil)), CanvasOutcome::Stored);
    let twice = full(&state);
    assert_eq!(once, twice);
    assert_eq!(twice.len(), 1);
    assert_eq!(twice[0], (line, pencil));
}

#[test]
fn add_line_again_replaces_the_brush() {
    let mut state = ServerState::new();
    let line = vec![point(0.5, 0.5)];
    state.apply(&MessageType::AddLine(line.clone(), brush(1.0, BrushType::Pencil)));
    state.apply(&MessageType::AddLine(line.clone(), brush(4.0, BrushType::Graffiti)));
    assert_eq!(full(&state), vec![(line, brush(4.0, BrushType::Graffiti))]);
}

#[test]
fn full_sync_after_n_additions_has_n_entries() {
    let mut state = ServerState::new();
    let mut added: Vec<(Vec<LinePos>, Brush)> = Vec::new();
    for i in 0..25u32 {
        let line = vec![point(i as f32, 0.0), point(i as f32, 1.0 + i as f32)];
        let with = brush(1.0 + i as f32, BrushType::Marker);
        assert_eq!(state.apply(&MessageType::AddLine(line.clone(), with)), CanvasOutcome::Stored);
        added.push((line, with));
    }
    let listed = full(&state);
    assert_eq!(listed.len(), 25);
    for entry in &added {
        assert_eq!(listed.iter().filter(|other| *other == entry).count(), 1);
    }
    for entry in &listed {
        assert!(added.contains(entry));
    }
}

#[test]
fn modify_with_brush_updates_a_line_that_is_there() {
    let mut state = ServerState::new();
    let line = vec![point(1.0, 1.0), point(2.0, 2.0)];
    state.apply(&MessageType::AddLine(line.clone(), brush(1.0, BrushType::Marker)));
    let outcome =
        state.apply(&MessageType::ModifyLine(line.clone(), Some(brush(9.0, BrushType::Pencil))));
    assert_eq!(outcome, CanvasOutcome::Updated);
    assert_eq!(state.get(&line), Some(brush(9.0, BrushType::Pencil)));
    assert_eq!(full(&state).len(), 1);
}

#[test]
fn modify_with_brush_on_absent_line_is_desync() {
    let mut state = ServerState::new();
    let there = vec![point(1.0, 1.0)];
    let absent = vec![point(7.0, 7.0)];
    state.apply(&MessageType::AddLine(there.clone(), brush(1.0, BrushType::Marker)));
    let before = full(&state);
    let outcome =
        state.apply(&MessageType::ModifyLine(absent.clone(), Some(brush(3.0, BrushType::Marker))));
    assert_eq!(outcome, CanvasOutcome::Desync);
    assert!(outcome.is_desync());
    assert!(outcome.is_noop());
    assert_eq!(full(&state), before);
    assert_eq!(state.get(&absent), None);
}

#[test]
fn modify_without_brush_removes_a_line() {
    let mut state = ServerState::new();
    let keep = vec![point(1.0, 1.0)];
    let drop = vec![point(2.0, 2.0)];
    state.apply(&MessageType::AddLine(keep.clone(), brush(1.0, BrushType::Marker)));
    state.apply(&MessageType::AddLine(drop.clone(), brush(2.0, BrushType::Marker)));
    assert_eq!(state.apply(&MessageType::ModifyLine(drop.clone(), None)), CanvasOutcome::Removed);
    assert_eq!(state.get(&drop), None);
    assert_eq!(full(&state), vec![(keep, brush(1.0, BrushType::Marker))]);
}

#[test]
fn modify_without_brush_on_absent_line_is_noop() {
    let mut state = ServerState::new();
    let there = vec![point(1.0, 1.0)];
    state.apply(&MessageType::AddLine(there.clone(), brush(1.0, BrushType::Marker)));
    let before = full(&state);
    let outcome = state.apply(&MessageType::ModifyLine(vec![point(5.0, 5.0)], None));
    assert_eq!(outcome, CanvasOutcome::Missing);
    assert!(!outcome.is_desync());
    assert!(outcome.is_noop());
    assert_eq!(full(&state), before);
    let again = state.apply(&MessageType::ModifyLine(vec![], None));
    assert_eq!(again, CanvasOutcome::Missing);
    assert_eq!(full(&state), before);
}

#[test]
fn messages_take_effect_in_arrival_order() {
    let line = vec![point(1.0, 1.0)];
    let first = brush(1.0, BrushType::Marker);
    let second = brush(2.0, BrushType::Pencil);

    let mut one = ServerState::new();
    let outcomes = one.apply_all(&vec![
        MessageType::AddLine(line.clone(), first),
        MessageType::ModifyLine(line.clone(), Some(second)),
        MessageType::ModifyLine(line.clone(), None),
        MessageType::AddLine(line.clone(), second),
    ]);
    assert_eq!(
        outcomes,
        vec![
            CanvasOutcome::Stored,
            CanvasOutcome::Updated,
            CanvasOutcome::Removed,
            CanvasOutcome::Stored
        ]
    );
    assert_eq!(full(&one), vec![(line.clone(), second)]);

    let mut other = ServerState::new();
    let outcomes = other.apply_all(&vec![
        MessageType::ModifyLine(line.clone(), Some(second)),
        MessageType::AddLine(line.clone(), second),
        MessageType::AddLine(line.clone(), first),
        MessageType::ModifyLine(line.clone(), None),
    ]);
    assert_eq!(
        outcomes,
        vec![
            CanvasOutcome::Desync,
            CanvasOutcome::Stored,
            CanvasOutcome::Stored,
            CanvasOutcome::Removed
        ]
    );
    assert_eq!(full(&other), vec![]);
}

#[test]
fn a_queue_gives_what_its_messages_give_one_by_one() {
    let messages = vec![
        MessageType::AddLine(vec![point(1.0, 1.0)], brush(1.0, BrushType::Marker)),
        MessageType::AddLine(vec![point(2.0, 2.0)], brush(2.0, BrushType::Marker)),
        MessageType::ModifyLine(vec![point(1.0, 1.0)], Some(brush(3.0, BrushType::Eraser))),
        MessageType::ModifyLine(vec![point(2.0, 2.0)], None),
        MessageType::KeepAlive,
    ];
    let mut batch = ServerState::new();
    let outcomes = batch.apply_all(&messages);
    let mut single = ServerState::new();
    let mut expected = Vec::new();
    for message in &messages {
        expected.push(single.apply(message));
    }
    assert_eq!(outcomes, expected);
    assert_eq!(full(&batch), full(&single));
    assert_eq!(full(&batch), vec![(vec![point(1.0, 1.0)], brush(3.0, BrushType::Eraser))]);
}

#[test]
fn empty_line_is_never_stored() {
    let mut state = ServerState::new();
    let outcome = state.apply(&MessageType::AddLine(vec![], brush(1.0, BrushType::Marker)));
    assert_eq!(outcome, CanvasOutcome::Rejected);
    assert_eq!(full(&state), vec![]);
    assert_eq!(state.get(&vec![]), None);
}

#[test]
fn line_with_nan_is_rejected() {
    let mut state = ServerState::new();
    let line = vec![point(1.0, 1.0), point(f32::NAN, 2.0)];
    let outcome = state.apply(&MessageType::AddLine(line, brush(1.0, BrushType::Marker)));
    assert_eq!(outcome, CanvasOutcome::Rejected);
    let negative_nan = vec![LinePos { x: 0xffc0_0000, y: 0 }];
    let outcome = state.apply(&MessageType::AddLine(negative_nan, brush(1.0, BrushType::Marker)));
    assert_eq!(outcome, CanvasOutcome::Rejected);
    assert_eq!(full(&state), vec![]);
}

#[test]
fn infinite_coordinates_are_numbers() {
    let mut state = ServerState::new();
    let line = vec![point(f32::INFINITY, f32::NEG_INFINITY)];
    let outcome = state.apply(&MessageType::AddLine(line.clone(), brush(1.0, BrushType::Marker)));
    assert_eq!(outcome, CanvasOutcome::Stored);
    assert_eq!(full(&state), vec![(line, brush(1.0, BrushType::Marker))]);
}

#[test]
fn brush_without_positive_width_is_rejected() {
    let mut state = ServerState::new();
    let line = vec![point(1.0, 1.0)];
    for width in [0.0f32, -0.0, -1.0, f32::NAN, f32::NEG_INFINITY] {
        let outcome =
            state.apply(&MessageType::AddLine(line.clone(), brush(width, BrushType::Marker)));
        assert_eq!(outcome, CanvasOutcome::Rejected);
    }
    assert_eq!(full(&state), vec![]);
    state.apply(&MessageType::AddLine(line.clone(), brush(1.0, BrushType::Marker)));
    let outcome =
        state.apply(&MessageType::ModifyLine(line.clone(), Some(brush(0.0, BrushType::Marker))));
    assert_eq!(outcome, CanvasOutcome::Rejected);
    assert_eq!(state.get(&line), Some(brush(1.0, BrushType::Marker)));
}

#[test]
fn zero_and_negative_zero_name_the_same_line() {
    let mut state = ServerState::new();
    let plus = vec![point(0.0, 1.0)];
    let minus = vec![point(-0.0, 1.0)];
    state.apply(&MessageType::AddLine(minus.clone(), brush(1.0, BrushType::Marker)));
    assert_eq!(state.get(&plus), Some(brush(1.0, BrushType::Marker)));
    state.apply(&MessageType::AddLine(plus.clone(), brush(2.0, BrushType::Marker)));
    assert_eq!(full(&state), vec![(plus.clone(), brush(2.0, BrushType::Marker))]);
    assert_eq!(state.apply(&MessageType::ModifyLine(minus, None)), CanvasOutcome::Removed);
    assert_eq!(full(&state), vec![]);
}

#[test]
fn order_of_points_is_part_of_the_identity() {
    let mut state = ServerState::new();
    let forth = vec![point(1.0, 1.0), point(2.0, 2.0)];
    let back = vec![point(2.0, 2.0), point(1.0, 1.0)];
    state.apply(&MessageType::AddLine(forth.clone(), brush(1.0, BrushType::Marker)));
    assert_eq!(state.get(&back), None);
    state.apply(&MessageType::AddLine(back.clone(), brush(2.0, BrushType::Marker)));
    assert_eq!(full(&state).len(), 2);
}

#[test]
fn partial_sync_answers_with_the_line_or_nothing() {
    let mut state = ServerState::new();
    let line = vec![point(-0.0, 1.0), point(2.0, 3.0)];
    state.apply(&MessageType::AddLine(line.clone(), brush(1.0, BrushType::Marker)));
    assert_eq!(
        state.sync(&Some(line.clone())),
        LineSyncType::Partial(Some((
            vec![point(0.0, 1.0), point(2.0, 3.0)],
            brush(1.0, BrushType::Marker)
        )))
    );
    assert_eq!(state.sync(&Some(vec![point(9.0, 9.0)])), LineSyncType::Partial(None));
    assert_eq!(state.sync(&Some(vec![])), LineSyncType::Partial(None));
}

#[test]
fn sync_does_not_change_the_canvas() {
    let mut state = ServerState::new();
    let line = vec![point(1.0, 1.0)];
    state.apply(&MessageType::AddLine(line.clone(), brush(1.0, BrushType::Marker)));
    let before = full(&state);
    let _ = state.sync(&Some(line));
    let _ = state.sync(&Some(vec![point(4.0, 4.0)]));
    let _ = state.sync(&None);
    assert_eq!(full(&state), before);
}

#[test]
fn other_messages_leave_the_canvas_alone() {
    let mut state = ServerState::new();
    state.apply(&MessageType::AddLine(vec![point(1.0, 1.0)], brush(1.0, BrushType::Marker)));
    let before = full(&state);
    for message in [
        MessageType::KeepAlive,
        MessageType::Disconnecting,
        MessageType::Connecting(String::from("alice")),
        MessageType::ClientList(vec![]),
        MessageType::RequestSyncLine(None),
        MessageType::SyncLine(LineSyncType::Partial(None)),
    ] {
        let outcome = state.apply(&message);
        assert_eq!(outcome, CanvasOutcome::Ignored);
        assert!(outcome.is_noop());
    }
    assert_eq!(full(&state), before);
}
