use chess_game::grid::Grid;
use chess_game::piece_registry::{Config, Movement, MovementKind, PieceConfig, PieceKind, PieceRegistry};
use chess_game::selection::{PossibleChoice, Selection};

#[test]
fn splat_fills_every_cell() {
    let grid = Grid::splat(7u32);
    for y in 0..8 {
        for x in 0..8 {
            assert_eq!(*grid.get(x, y), 7);
        }
    }
}

#[test]
fn from_reads_rows() {
    let mut rows = [[0usize; 8]; 8];
    for y in 0..8 {
        for x in 0..8 {
            rows[y][x] = 10 * y + x;
        }
    }
    let grid = Grid::from(rows);
    assert_eq!(*grid.get(3, 5), 53);
    assert_eq!(*grid.get(7, 0), 7);
}

#[test]
fn get_mut_changes_one_cell() {
    let mut grid = Grid::splat(0i32);
    *grid.get_mut(2, 6) = 9;
    assert_eq!(*grid.get(2, 6), 9);
    assert_eq!(*grid.get(6, 2), 0);
}

#[test]
fn iter_is_row_major() {
    let mut grid = Grid::splat(0u8);
    *grid.get_mut(1, 0) = 1;
    *grid.get_mut(0, 1) = 2;
    let cells = grid.iter();
    assert_eq!(cells.len(), 64);
    assert_eq!(cells[1], (1, 0, 1));
    assert_eq!(cells[8], (0, 1, 2));
    for (i, (x, y, _)) in cells.iter().enumerate() {
        assert_eq!((*x, *y), (i % 8, i / 8));
    }
}

#[test]
fn possible_choice_marks() {
    let mut choice = PossibleChoice::new();
    assert!(choice.iter().into_iter().all(|(_, _, a)| !a));
    choice.add(4, 2);
    assert!(choice.is_available(4, 2));
    assert!(!choice.is_available(2, 4));
    let marked: Vec<(usize, usize)> =
        choice.iter().into_iter().filter(|(_, _, a)| *a).map(|(x, y, _)| (x, y)).collect();
    assert_eq!(marked, vec![(4, 2)]);
}

#[test]
fn new_selection_is_empty() {
    let selection = Selection::new(5, 1);
    assert_eq!((selection.x, selection.y), (5, 1));
    assert!(selection.choice.iter().into_iter().all(|(_, _, a)| !a));
}

#[test]
fn registry_numbers_kinds_in_order() {
    let mut registry = PieceRegistry::new();
    assert_eq!(registry.len(), 0);
    let a = registry.register_piece(vec![Movement(MovementKind::Blocking, 0, 1)]);
    let b = registry.register_piece(vec![]);
    assert_eq!(a, PieceKind(0));
    assert_eq!(b, PieceKind(1));
    assert_eq!(registry.get_movement(a).unwrap(), &[Movement(MovementKind::Blocking, 0, 1)][..]);
    assert_eq!(registry.get_movement(b).unwrap().len(), 0);
    assert!(registry.get_movement(PieceKind(2)).is_none());
}

#[test]
fn standard_registry() {
    let registry = PieceRegistry::fake_it();
    assert_eq!(registry.len(), 6);
    assert_eq!(
        registry.get_movement(PieceKind(0)).unwrap(),
        &[
            Movement(MovementKind::Blocking, 0, 1),
            Movement(MovementKind::Eating, 1, 1),
            Movement(MovementKind::Eating, -1, 1),
            Movement(MovementKind::FirstMove, 0, 2),
        ][..]
    );
    assert_eq!(registry.get_movement(PieceKind(2)).unwrap().len(), 8);
    assert!(registry
        .get_movement(PieceKind(4))
        .unwrap()
        .iter()
        .all(|m| m.0 == MovementKind::Trailing));
    assert!(registry.get_movement(PieceKind(6)).is_none());
}

#[test]
fn registry_from_config_keeps_order() {
    let config = Config {
        pieces: vec![
            PieceConfig {
                name: "Rook".to_string(),
                movements: vec![Movement(MovementKind::Trailing, 0, 1)],
                black_sprite: "black_rook.svg".to_string(),
                white_sprite: "white_rook.svg".to_string(),
            },
            PieceConfig {
                name: "Knight".to_string(),
                movements: vec![Movement(MovementKind::NotFriend, 1, 2), Movement(MovementKind::NotFriend, 2, 1)],
                black_sprite: "black_knight.svg".to_string(),
                white_sprite: "white_knight.svg".to_string(),
            },
        ],
    };
    let registry = PieceRegistry::from_config(&config);
    assert_eq!(registry.len(), 2);
    assert_eq!(registry.get_movement(PieceKind(0)).unwrap(), &[Movement(MovementKind::Trailing, 0, 1)][..]);
    assert_eq!(
        registry.get_movement(PieceKind(1)).unwrap(),
        &[Movement(MovementKind::NotFriend, 1, 2), Movement(MovementKind::NotFriend, 2, 1)][..]
    );
}
