use gameoflife::{GameOfLife, Viewport};

#[test]
fn render_walks_rows_top_down() {
    let mut game = GameOfLife::new();
    game.set(0, 0);
    game.set(1, 1);

    let viewport = Viewport::new(0, 1, 0, 1);
    let render = viewport.render(&game);
    assert_eq!(render.text().as_str(), "◻◼\n◼◻\n");
}

#[test]
fn render_normalizes_reversed_bounds() {
    let mut game = GameOfLife::new();
    game.set(0, 0);
    game.set(1, 1);

    let ascending = Viewport::new(0, 1, 0, 1);
    let descending = Viewport::new(1, 0, 1, 0);
    assert_eq!(
        ascending.render(&game).text(),
        descending.render(&game).text()
    );
}

#[test]
fn render_covers_negative_windows() {
    let mut game = GameOfLife::new();
    game.set(-2, -2);

    let viewport = Viewport::new(-3, -1, -3, -1);
    let render = viewport.render(&game);
    assert_eq!(render.text().as_str(), "◻◻◻\n◻◼◻\n◻◻◻\n");
}

#[test]
fn default_text_window_is_six_by_six() {
    let mut game = GameOfLife::new();
    game.set(1, 1);
    game.set(2, 1);
    game.set(3, 1);

    let text = game.to_text();
    let lines: Vec<&str> = text.lines().collect();
    assert_eq!(lines.len(), 6);
    for line in &lines {
        assert_eq!(line.chars().count(), 6);
    }
    // Rows print from y = 5 down to y = 0; the blinker sits on row y = 1.
    assert_eq!(lines[4], "◻◼◼◼◻◻");
}
