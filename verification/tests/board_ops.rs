use gameoflife::GameOfLife;

#[test]
fn set_is_idempotent() {
    let mut once = GameOfLife::new();
    once.set(3, -4);

    let mut twice = GameOfLife::new();
    twice.set(3, -4);
    twice.set(3, -4);

    assert_eq!(once, twice);
    assert!(twice.get(3, -4));
}

#[test]
fn unset_is_idempotent() {
    let mut once = GameOfLife::new();
    once.set(3, -4);
    once.set(5, 5);
    once.unset(3, -4);

    let mut twice = GameOfLife::new();
    twice.set(3, -4);
    twice.set(5, 5);
    twice.unset(3, -4);
    twice.unset(3, -4);

    assert_eq!(once, twice);
    assert!(!twice.get(3, -4));
    assert!(twice.get(5, 5));
}

#[test]
fn toggle_returns_negated_pre_state() {
    let mut game = GameOfLife::new();

    let before = game.get(2, 7);
    let reported = game.toggle(2, 7);
    assert_eq!(reported, !before);
    assert_eq!(game.get(2, 7), reported);

    let before = game.get(2, 7);
    let reported = game.toggle(2, 7);
    assert_eq!(reported, !before);
    assert_eq!(game.get(2, 7), reported);
}

#[test]
fn clear_kills_every_cell() {
    let mut game = GameOfLife::new();
    game.set(0, 0);
    game.set(-3, 9);
    game.set(1000000, -1000000);
    game.clear();

    assert!(!game.get(0, 0));
    assert!(!game.get(-3, 9));
    assert!(!game.get(1000000, -1000000));
    assert!(!game.get(17, 17));
    assert_eq!(game, GameOfLife::new());
}

#[test]
fn cells_at_is_row_major_with_origin() {
    let mut game = GameOfLife::new();
    game.set(5, 10);
    game.set(6, 11);
    game.set(4, 10);

    let window = game.cells_at(3, 2, 4, 10);
    assert_eq!(window, vec![1, 1, 0, 0, 0, 1]);

    let width = 3;
    let height = 2;
    for dy in 0..height {
        for dx in 0..width {
            let idx = (dy * width + dx) as usize;
            let expected = if game.get(4 + dx, 10 + dy) { 1 } else { 0 };
            assert_eq!(window[idx], expected);
        }
    }
}

#[test]
fn cells_is_cells_at_from_origin() {
    let mut game = GameOfLife::new();
    game.set(0, 0);
    game.set(2, 1);

    assert_eq!(game.cells(3, 2), game.cells_at(3, 2, 0, 0));
    assert_eq!(game.cells(3, 2), vec![1, 0, 0, 0, 0, 1]);
    assert_eq!(game.cells(0, 0), Vec::<u8>::new());
}

#[test]
fn tick_advances_blinker_scenario() {
    let mut game = GameOfLife::new();
    game.set(1, 1);
    game.set(2, 1);
    game.set(3, 1);

    game.tick();
    for x in -1..=5 {
        for y in -1..=5 {
            let expected = x == 2 && (0..=2).contains(&y);
            assert_eq!(game.get(x, y), expected, "wrong cell at ({x}, {y})");
        }
    }

    game.tick();
    for x in -1..=5 {
        for y in -1..=5 {
            let expected = y == 1 && (1..=3).contains(&x);
            assert_eq!(game.get(x, y), expected, "wrong cell at ({x}, {y})");
        }
    }
}

#[test]
fn tick_on_empty_board_stays_empty() {
    let mut game = GameOfLife::new();
    game.tick();
    assert_eq!(game, GameOfLife::new());
    assert!(game.can_undo());
}

#[test]
fn undo_reverses_tick() {
    let mut game = GameOfLife::new();
    game.set(1, 1);
    game.set(2, 1);
    game.set(3, 1);
    let before = game.clone();

    game.tick();
    assert_ne!(before, game);
    assert!(game.undo());
    assert_eq!(before, game);
}

#[test]
fn undo_without_history_reports_false() {
    let mut game = GameOfLife::new();
    game.set(4, 4);
    assert!(!game.can_undo());
    assert!(!game.undo());
    assert!(game.get(4, 4));
}

#[test]
fn history_is_capped_at_255_snapshots() {
    let mut game = GameOfLife::new();
    game.set(1, 1);
    game.set(2, 1);
    game.set(3, 1);

    for _ in 0..300 {
        game.tick();
    }

    let mut undos = 0;
    while game.can_undo() {
        assert!(game.undo());
        undos += 1;
    }
    assert_eq!(undos, 255);
    assert!(!game.undo());
}

#[test]
fn equality_ignores_undo_history() {
    let mut plain = GameOfLife::new();
    plain.set(1, 1);
    plain.set(2, 1);
    plain.set(3, 1);

    // A blinker has period 2: two ticks restore the live cells while the
    // history keeps both snapshots.
    let mut travelled = GameOfLife::new();
    travelled.set(1, 1);
    travelled.set(2, 1);
    travelled.set(3, 1);
    travelled.tick();
    travelled.tick();

    assert!(!plain.can_undo());
    assert!(travelled.can_undo());
    assert_eq!(plain, travelled);
    assert!(plain.same_state(&travelled));
}
