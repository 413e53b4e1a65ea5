use hexpick::coord::HexCoordinate;
use hexpick::grid::{CellHandle, GridBounds, GridIndex};
use hexpick::layout::{HexLayout, Orientation, WorldPos};
use hexpick::picking;
use hexpick::selection::{HighlightCommand, SelectionState};

fn small_grid() -> GridIndex {
    let b = GridBounds::new(-5, 5, -4, 4).unwrap();
    let n = b.cells().len();
    let handles = (0..n).map(|i| Some(CellHandle::new(i as u64))).collect();
    GridIndex::build(b, handles).unwrap()
}

#[test]
fn first_selection_emits_one_highlight() {
    let g = small_grid();
    let c = HexCoordinate::new(0, 0);
    let h = g.lookup(c).unwrap();
    let mut state = SelectionState::Unselected;
    let cmds = state.apply_resolved(Some(c), &g);
    assert_eq!(cmds, vec![HighlightCommand::Highlight(h)]);
    assert_eq!(state, SelectionState::Selected(c));
}

#[test]
fn reselecting_same_cell_is_a_no_op() {
    let g = small_grid();
    let c = HexCoordinate::new(2, -1);
    let mut state = SelectionState::Unselected;
    let first = state.apply_resolved(Some(c), &g);
    let second = state.apply_resolved(Some(c), &g);
    let highlights = |cmds: &Vec<HighlightCommand>| {
        cmds.iter()
            .filter(|c| matches!(c, HighlightCommand::Highlight(_)))
            .count()
    };
    assert_eq!(highlights(&first) + highlights(&second), 1);
    assert!(second.is_empty());
    assert_eq!(state, SelectionState::Selected(c));
}

#[test]
fn selection_sticks_through_missed_frames() {
    let g = small_grid();
    let c = HexCoordinate::new(-3, 2);
    let mut state = SelectionState::Unselected;
    state.apply_resolved(Some(c), &g);
    for _ in 0..10 {
        let cmds = state.apply_resolved(None, &g);
        assert!(cmds.is_empty());
        assert_eq!(state, SelectionState::Selected(c));
    }
}

#[test]
fn off_grid_resolution_leaves_selection_unchanged() {
    let g = small_grid();
    let c = HexCoordinate::new(1, 1);
    let mut state = SelectionState::Unselected;
    state.apply_resolved(Some(c), &g);
    let cmds = state.apply_resolved(Some(HexCoordinate::new(50, 50)), &g);
    assert!(cmds.is_empty());
    assert_eq!(state, SelectionState::Selected(c));
}

#[test]
fn swapping_selection_emits_ordered_commands() {
    let g = small_grid();
    let a = HexCoordinate::new(0, 0);
    let b = HexCoordinate::new(1, 0);
    let ha = g.lookup(a).unwrap();
    let hb = g.lookup(b).unwrap();
    let mut state = SelectionState::Unselected;
    state.apply_resolved(Some(a), &g);
    let cmds = state.apply_resolved(Some(b), &g);
    assert_eq!(
        cmds,
        vec![HighlightCommand::Unhighlight(ha), HighlightCommand::Highlight(hb)]
    );
    assert_eq!(state, SelectionState::Selected(b));

    // Replay the emitted commands against a little appearance store: A ends
    // up default, B highlighted.
    let mut highlighted: Vec<CellHandle> = vec![ha];
    for cmd in cmds {
        match cmd {
            HighlightCommand::Highlight(h) => {
                if !highlighted.contains(&h) {
                    highlighted.push(h);
                }
            }
            HighlightCommand::Unhighlight(h) => {
                highlighted.retain(|x| *x != h);
            }
        }
    }
    assert!(!highlighted.contains(&ha));
    assert!(highlighted.contains(&hb));
    assert_eq!(highlighted.len(), 1);
}

#[test]
fn stale_previous_selection_is_skipped_silently() {
    let g = small_grid();
    let c = HexCoordinate::new(0, 0);
    let h = g.lookup(c).unwrap();
    // A previously selected coordinate that no longer has a cell: the
    // unhighlight is skipped, never treated as a failure.
    let mut state = SelectionState::Selected(HexCoordinate::new(77, 77));
    let cmds = state.apply_resolved(Some(c), &g);
    assert_eq!(cmds, vec![HighlightCommand::Highlight(h)]);
    assert_eq!(state, SelectionState::Selected(c));
}

#[test]
fn resolve_composes_transform_and_lookup() {
    let g = small_grid();
    let l = HexLayout::new(Orientation::FlatTop, 1_000_000, 1_000_000).unwrap();
    let near_center = WorldPos { x: 3_100_000, y: 50_000 };
    let (c, h) = picking::resolve(near_center, &l, &g).unwrap();
    assert_eq!(c, HexCoordinate::new(2, -1));
    assert_eq!(h, g.lookup(c).unwrap());
    let far_away = WorldPos { x: 500_000_000, y: 0 };
    assert_eq!(picking::resolve(far_away, &l, &g), None);
}

#[test]
fn frame_drives_the_state_machine() {
    let g = small_grid();
    let l = HexLayout::new(Orientation::FlatTop, 1_000_000, 1_000_000).unwrap();
    let mut state = SelectionState::Unselected;

    // cursor over the center of (0, 0)
    let cmds = picking::frame(&mut state, Some(WorldPos { x: 0, y: 0 }), &l, &g);
    let h00 = g.lookup(HexCoordinate::new(0, 0)).unwrap();
    assert_eq!(cmds, vec![HighlightCommand::Highlight(h00)]);
    assert_eq!(state, SelectionState::Selected(HexCoordinate::new(0, 0)));

    // cursor lost: nothing changes
    let cmds = picking::frame(&mut state, None, &l, &g);
    assert!(cmds.is_empty());
    assert_eq!(state, SelectionState::Selected(HexCoordinate::new(0, 0)));

    // cursor over the center of (1, 0): swap
    let h10 = g.lookup(HexCoordinate::new(1, 0)).unwrap();
    let cmds = picking::frame(
        &mut state,
        Some(WorldPos { x: 1_500_000, y: 866_025 }),
        &l,
        &g,
    );
    assert_eq!(
        cmds,
        vec![
            HighlightCommand::Unhighlight(h00),
            HighlightCommand::Highlight(h10)
        ]
    );
    assert_eq!(state, SelectionState::Selected(HexCoordinate::new(1, 0)));
}
