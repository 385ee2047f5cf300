use cell_defense::cell_rules::{CellEvents, CellRules};
use cell_defense::defense_layer::{DefenseLayer, TileRect};
use cell_defense::tile_layer::TileEntry;

const E: CellRules = CellRules::Empty;
const B: CellRules = CellRules::BasicFilled;

fn layer(x: i32, y: i32, w: i32, h: i32) -> DefenseLayer {
    DefenseLayer { update_phys_interval: 3, phys_clock: 0, rect: TileRect { x, y, w, h } }
}

#[test]
fn empty_cell_with_three_live_neighbors_is_born() {
    let board = vec![B, B, E, E, E, B, E, E, E];
    let l = layer(0, 0, 3, 3);
    let step = l.update_tiles(&board);
    assert_eq!(step.next[4], B);
    let at_center: Vec<_> = step.events.iter().filter(|e| e.tile_x == 1 && e.tile_y == 1).collect();
    assert_eq!(at_center.len(), 1);
    assert_eq!(at_center[0].event, CellEvents::CellCreate);
}

#[test]
fn crowded_cell_decays_and_raises_extra_overpopulate() {
    let board = vec![B, B, B, B, B, B, E, E, E];
    let l = layer(0, 0, 3, 3);
    let step = l.update_tiles(&board);
    assert_eq!(step.next[4], E);
    let at_center: Vec<_> = step.events.iter().filter(|e| e.tile_x == 1 && e.tile_y == 1).collect();
    assert_eq!(at_center.len(), 1);
    assert_eq!(at_center[0].event, CellEvents::ExtraOverpopulateDeath);
}

#[test]
fn off_board_neighbors_are_force_empty() {
    let board = vec![B, B, B, E];
    let l = layer(0, 0, 2, 2);
    let step = l.update_tiles(&board);
    assert_eq!(step.next, vec![B, B, B, B]);
    assert_eq!(step.events.len(), 1);
    assert_eq!(step.events[0].event, CellEvents::CellCreate);
    assert_eq!((step.events[0].tile_x, step.events[0].tile_y), (1, 1));
}

#[test]
fn step_reads_only_the_snapshot() {
    let board = vec![E, B, E, E, B, E, E, B, E];
    let l = layer(0, 0, 3, 3);
    let step = l.update_tiles(&board);
    assert_eq!(step.next, vec![E, E, E, B, B, B, E, E, E]);
    let again = l.update_tiles(&step.next);
    assert_eq!(again.next, board);
}

#[test]
fn event_positions_are_tile_centres_in_world_units() {
    let board = vec![B, B, E, E, E, B, E, E, E];
    let l = layer(10, -2, 3, 3);
    let step = l.update_tiles(&board);
    let e = step.events.iter().find(|e| e.event == CellEvents::CellCreate && e.tile_x == 11).unwrap();
    assert_eq!(e.tile_y, -1);
    assert_eq!((e.world_x, e.world_y), (11 * 64 + 32, -32));
}

#[test]
fn events_come_in_row_major_order() {
    let board = vec![B, B, B, B, B, B, B, B, B];
    let l = layer(0, 0, 3, 3);
    let step = l.update_tiles(&board);
    let tiles: Vec<(i32, i32)> = step.events.iter().map(|e| (e.tile_x, e.tile_y)).collect();
    assert_eq!(tiles, vec![(1, 0), (0, 1), (1, 1), (2, 1), (1, 2)]);
    assert!(step.events.iter().all(|e| e.event == CellEvents::ExtraOverpopulateDeath));
    assert_eq!(step.next, vec![B, E, B, E, E, E, B, E, B]);
}

#[test]
fn empty_board() {
    let l = layer(0, 0, 0, 0);
    let step = l.update_tiles(&vec![]);
    assert!(step.next.is_empty());
    assert!(step.events.is_empty());
}

#[test]
fn index_is_row_major() {
    let r = TileRect { x: 5, y: 5, w: 4, h: 3 };
    assert_eq!(DefenseLayer::map_vec_to_index(r, 0, 0), 0);
    assert_eq!(DefenseLayer::map_vec_to_index(r, 3, 0), 3);
    assert_eq!(DefenseLayer::map_vec_to_index(r, 1, 2), 9);
}

#[test]
fn generation_runs_every_interval_ticks() {
    let mut l = layer(0, 0, 1, 1);
    assert!(!l.physics_process());
    assert!(!l.physics_process());
    assert!(l.physics_process());
    assert_eq!(l.phys_clock, 0);
    assert!(!l.physics_process());
    assert_eq!(l.phys_clock, 1);
    l.phys_clock = 7;
    assert!(l.physics_process());
    assert_eq!(l.phys_clock, 0);
}

#[test]
fn writes_skip_force_empty() {
    let board = vec![B, CellRules::ForceEmpty, CellRules::PermaCell, E];
    let l = layer(4, 7, 2, 2);
    let step = l.update_tiles(&board);
    assert_eq!(step.next, vec![E, CellRules::ForceEmpty, CellRules::PermaCell, E]);
    assert_eq!(
        step.writes,
        vec![
            TileEntry { x: 4, y: 7, kind: E },
            TileEntry { x: 4, y: 8, kind: CellRules::PermaCell },
            TileEntry { x: 5, y: 8, kind: E },
        ]
    );
}
