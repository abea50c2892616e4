//! Windowed text rendering: a viewport is a pair of inclusive coordinate
//! ranges, and a render walks its rows from the top down, emitting one glyph
//! per cell and a newline after each row.

use crate::board::GameOfLife;
use vstd::prelude::*;

verus! {

/// The glyph printed for one cell: a filled square when alive, an empty one
/// when dead.
pub open spec fn glyph(alive: bool) -> char {
    if alive {
        '◼'
    } else {
        '◻'
    }
}

/// The glyphs of the row at height `y`, columns `x_min` through `x_max` left
/// to right, peeled from the right end so that emission order matches.
pub open spec fn row_chars(s: Set<(int, int)>, y: int, x_min: int, x_max: int) -> Seq<char>
    decreases x_max - x_min + 1,
{
    if x_min > x_max {
        Seq::empty()
    } else {
        row_chars(s, y, x_min, x_max - 1).push(glyph(s.contains((x_max, y))))
    }
}

/// The full rendering of the window: rows from `y_max` at the top down to
/// `y_min`, each followed by a newline, peeled from the bottom row so that
/// emission order matches.
pub open spec fn grid_chars(
    s: Set<(int, int)>,
    x_min: int,
    x_max: int,
    y_min: int,
    y_max: int,
) -> Seq<char>
    decreases y_max - y_min + 1,
{
    if y_min > y_max {
        Seq::empty()
    } else {
        grid_chars(s, x_min, x_max, y_min + 1, y_max) + row_chars(s, y_min, x_min, x_max).push(
            '\n',
        )
    }
}

/// Relies on String::push: appends exactly the one given character.
#[verifier::external_body]
fn push_char(s: &mut String, c: char)
    ensures
        final(s)@ == old(s)@.push(c),
{
    s.push(c);
}

/// Reusable viewing bounds for rendering board states: two inclusive
/// coordinate ranges whose endpoints may be given in either order.
#[derive(Debug)]
pub struct Viewport {
    x_a: i32,
    x_b: i32,
    y_a: i32,
    y_b: i32,
}

/// A finished rendering of one board through one viewport. Its view is the
/// rendered text as a sequence of characters.
#[derive(Debug)]
pub struct ViewportRender {
    text: String,
}

impl View for ViewportRender {
    type V = Seq<char>;

    closed spec fn view(&self) -> Seq<char> {
        self.text@
    }
}

impl ViewportRender {
    /// The rendered text.
    pub fn text(&self) -> (r: &String)
        ensures
            r@ == self@,
    {
        &self.text
    }

    /// The rendered text, surrendering the render.
    pub fn into_text(self) -> (r: String)
        ensures
            r@ == self@,
    {
        self.text
    }
}

impl Clone for Viewport {
    /// A copy with the same bounds.
    fn clone(&self) -> (r: Self)
        ensures
            r == *self,
    {
        Viewport { x_a: self.x_a, x_b: self.x_b, y_a: self.y_a, y_b: self.y_b }
    }
}

impl Viewport {
    /// The smaller of the viewport's x endpoints.
    pub closed spec fn x_min(&self) -> int {
        if self.x_a <= self.x_b {
            self.x_a as int
        } else {
            self.x_b as int
        }
    }

    /// The larger of the viewport's x endpoints.
    pub closed spec fn x_max(&self) -> int {
        if self.x_a <= self.x_b {
            self.x_b as int
        } else {
            self.x_a as int
        }
    }

    /// The smaller of the viewport's y endpoints.
    pub closed spec fn y_min(&self) -> int {
        if self.y_a <= self.y_b {
            self.y_a as int
        } else {
            self.y_b as int
        }
    }

    /// The larger of the viewport's y endpoints.
    pub closed spec fn y_max(&self) -> int {
        if self.y_a <= self.y_b {
            self.y_b as int
        } else {
            self.y_a as int
        }
    }

    /// A viewport over the inclusive ranges `x_start..=x_end` and
    /// `y_start..=y_end`; either range's endpoints may come in either order.
    pub fn new(x_start: i32, x_end: i32, y_start: i32, y_end: i32) -> (r: Viewport)
        ensures
            r.x_min() == (if x_start <= x_end {
                x_start as int
            } else {
                x_end as int
            }),
            r.x_max() == (if x_start <= x_end {
                x_end as int
            } else {
                x_start as int
            }),
            r.y_min() == (if y_start <= y_end {
                y_start as int
            } else {
                y_end as int
            }),
            r.y_max() == (if y_start <= y_end {
                y_end as int
            } else {
                y_start as int
            }),
    {
        Viewport { x_a: x_start, x_b: x_end, y_a: y_start, y_b: y_end }
    }

    /// The two endpoints of an inclusive range in ascending order.
    fn ordered_bounds(a: i32, b: i32) -> (r: (i32, i32))
        ensures
            r.0 as int == (if a <= b {
                a as int
            } else {
                b as int
            }),
            r.1 as int == (if a <= b {
                b as int
            } else {
                a as int
            }),
    {
        if a <= b {
            (a, b)
        } else {
            (b, a)
        }
    }

    /// Renders the window of `game` this viewport describes: rows from the
    /// window's top down to its bottom, one glyph per cell, a newline after
    /// each row.
    #[verifier::loop_isolation(false)]
    pub fn render(&self, game: &GameOfLife) -> (r: ViewportRender)
        ensures
            r@ == grid_chars(game@, self.x_min(), self.x_max(), self.y_min(), self.y_max()),
    {
        let (x_lo, x_hi) = Self::ordered_bounds(self.x_a, self.x_b);
        let (y_lo, y_hi) = Self::ordered_bounds(self.y_a, self.y_b);
        let ghost g: Set<(int, int)> = game@;
        let mut text = String::new();
        let mut y: i64 = y_hi as i64;
        while y >= y_lo as i64
            invariant
                y_lo as int - 1 <= y as int <= y_hi as int,
                text@ == grid_chars(g, x_lo as int, x_hi as int, y as int + 1, y_hi as int),
            decreases y - y_lo + 1,
        {
            let mut x: i64 = x_lo as i64;
            while x <= x_hi as i64
                invariant
                    y_lo as int <= y as int <= y_hi as int,
                    x_lo as int <= x as int <= x_hi as int + 1,
                    text@ == grid_chars(g, x_lo as int, x_hi as int, y as int + 1, y_hi as int)
                        + row_chars(g, y as int, x_lo as int, x as int - 1),
                decreases x_hi - x + 1,
            {
                let alive = game.get(x as i32, y as i32);
                push_char(&mut text, if alive { '◼' } else { '◻' });
                proof {
                    assert(text@ =~= grid_chars(
                        g,
                        x_lo as int,
                        x_hi as int,
                        y as int + 1,
                        y_hi as int,
                    ) + row_chars(g, y as int, x_lo as int, x as int));
                }
                x += 1;
            }
            push_char(&mut text, '\n');
            proof {
                assert(text@ =~= grid_chars(
                    g,
                    x_lo as int,
                    x_hi as int,
                    y as int,
                    y_hi as int,
                ));
            }
            y -= 1;
        }
        ViewportRender { text }
    }
}

impl GameOfLife {
    /// The board rendered through the default viewport over `0..=5` in both
    /// coordinates.
    pub fn to_text(&self) -> (r: String)
        ensures
            r@ == grid_chars(self@, 0, 5, 0, 5),
    {
        Viewport::new(0, 5, 0, 5).render(self).into_text()
    }
}

} // verus!
