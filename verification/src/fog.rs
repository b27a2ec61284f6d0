//! The fog-of-war grid: per tile, whether the player has never seen it, has
//! seen it before, or sees it now. Each simulation step ages every
//! currently-visible tile to "seen" and then reveals the square of tiles
//! around the player's tile.

use vstd::prelude::*;

verus! {

/// How much of a tile the player may currently know.
#[derive(Clone, Copy, PartialEq, Eq, Structural, Debug)]
pub enum FogLevel {
    /// Never seen: drawn fully dark.
    Hidden,
    /// Seen earlier but not now: drawn partly dark.
    Seen,
    /// In sight right now: drawn clear.
    Visible,
}

/// What `age` leaves of a fog level: visibility decays to `Seen`.
pub open spec fn aged(l: FogLevel) -> FogLevel {
    if l is Visible {
        FogLevel::Seen
    } else {
        l
    }
}

/// Whether tile `(x, y)` lies in the half-open square of side `2 * radius`
/// whose corner tile is `(cx - radius, cy - radius)`.
pub open spec fn in_reveal_square(x: int, y: int, cx: int, cy: int, radius: int) -> bool {
    &&& cx - radius <= x < cx + radius
    &&& cy - radius <= y < cy + radius
}

/// A rectangular grid of fog levels, one per map tile.
pub struct FogGrid {
    rows: Vec<Vec<FogLevel>>,
    width: usize,
}

impl FogGrid {
    /// The grid's width in tiles.
    pub closed spec fn spec_width(&self) -> nat {
        self.width as nat
    }

    /// The grid's height in tiles.
    pub closed spec fn spec_height(&self) -> nat {
        self.rows@.len()
    }

    /// The fog level of the tile at column `x`, row `y`.
    pub closed spec fn cell(&self, x: int, y: int) -> FogLevel {
        self.rows@[y]@[x]
    }

    /// Every row spans the grid's width.
    pub closed spec fn wf(&self) -> bool {
        forall|y: int|
            0 <= y < self.rows@.len() ==> (#[trigger] self.rows@[y])@.len() == self.width
    }

    /// Builds a grid of the given size with every tile hidden.
    pub fn new(width: usize, height: usize) -> (g: FogGrid)
        ensures
            g.wf(),
            g.spec_width() == width,
            g.spec_height() == height,
            forall|x: int, y: int|
                0 <= x < width && 0 <= y < height ==> #[trigger] g.cell(x, y) == FogLevel::Hidden,
    {
        let mut rows: Vec<Vec<FogLevel>> = Vec::new();
        let mut y: usize = 0;
        while y < height
            invariant
                y <= height,
                rows@.len() == y,
                forall|y2: int| 0 <= y2 < y ==> (#[trigger] rows@[y2])@.len() == width,
                forall|x: int, y2: int|
                    0 <= x < width && 0 <= y2 < y ==> #[trigger] rows@[y2]@[x]
                        == FogLevel::Hidden,
            decreases height - y,
        {
            let mut row: Vec<FogLevel> = Vec::new();
            let mut x: usize = 0;
            while x < width
                invariant
                    x <= width,
                    row@.len() == x,
                    forall|x2: int| 0 <= x2 < x ==> #[trigger] row@[x2] == FogLevel::Hidden,
                decreases width - x,
            {
                row.push(FogLevel::Hidden);
                x = x + 1;
            }
            rows.push(row);
            y = y + 1;
        }
        FogGrid { rows, width }
    }

    /// The grid's width in tiles.
    pub fn width(&self) -> (w: usize)
        ensures
            w == self.spec_width(),
    {
        self.width
    }

    /// The grid's height in tiles.
    pub fn height(&self) -> (h: usize)
        ensures
            h == self.spec_height(),
    {
        self.rows.len()
    }

    /// The fog level of tile `(x, y)`, if it lies on the grid.
    pub fn level_at(&self, x: usize, y: usize) -> (r: Option<FogLevel>)
        requires
            self.wf(),
        ensures
            match r {
                Some(l) => x < self.spec_width() && y < self.spec_height() && l == self.cell(
                    x as int,
                    y as int,
                ),
                None => !(x < self.spec_width() && y < self.spec_height()),
            },
    {
        if y < self.rows.len() && x < self.width {
            Some(self.rows[y][x])
        } else {
            None
        }
    }

    /// Ages the whole grid: every tile in sight becomes merely seen, so
    /// that only tiles the player still overlooks stay visible after the
    /// following reveal.
    pub fn age_visible(&mut self)
        requires
            old(self).wf(),
        ensures
            final(self).wf(),
            final(self).spec_width() == old(self).spec_width(),
            final(self).spec_height() == old(self).spec_height(),
            forall|x: int, y: int|
                0 <= x < old(self).spec_width() && 0 <= y < old(self).spec_height()
                    ==> #[trigger] final(self).cell(x, y) == aged(old(self).cell(x, y)),
    {
        let height = self.rows.len();
        let mut y: usize = 0;
        while y < height
            invariant
                self.width == old(self).width,
                height == self.rows@.len(),
                height == old(self).rows@.len(),
                y <= height,
                forall|y2: int|
                    0 <= y2 < height ==> (#[trigger] self.rows@[y2])@.len() == self.width,
                forall|x2: int, y2: int|
                    0 <= x2 < self.width && 0 <= y2 < y ==> #[trigger] self.rows@[y2]@[x2]
                        == aged(old(self).rows@[y2]@[x2]),
                forall|x2: int, y2: int|
                    0 <= x2 < self.width && y <= y2 < height ==> #[trigger] self.rows@[y2]@[x2]
                        == old(self).rows@[y2]@[x2],
            decreases height - y,
        {
            let width = self.width;
            let mut x: usize = 0;
            while x < width
                invariant
                    width == self.width,
                    self.width == old(self).width,
                    height == self.rows@.len(),
                    height == old(self).rows@.len(),
                    y < height,
                    x <= width,
                    forall|y2: int|
                        0 <= y2 < height ==> (#[trigger] self.rows@[y2])@.len() == self.width,
                    forall|x2: int, y2: int|
                        0 <= x2 < self.width && 0 <= y2 < y ==> #[trigger] self.rows@[y2]@[x2]
                            == aged(old(self).rows@[y2]@[x2]),
                    forall|x2: int| 0 <= x2 < x ==> #[trigger] self.rows@[y as int]@[x2] == aged(
                        old(self).rows@[y as int]@[x2],
                    ),
                    forall|x2: int| x <= x2 < width ==> #[trigger] self.rows@[y as int]@[x2]
                        == old(self).rows@[y as int]@[x2],
                    forall|x2: int, y2: int|
                        0 <= x2 < self.width && y < y2 < height ==> #[trigger] self.rows@[y2]@[x2]
                            == old(self).rows@[y2]@[x2],
                decreases width - x,
            {
                let l = self.rows[y][x];
                if let FogLevel::Visible = l {
                    self.rows[y][x] = FogLevel::Seen;
                }
                x = x + 1;
            }
            y = y + 1;
        }
    }

    /// Reveals the half-open square of side `2 * radius` around the
    /// player's tile `(cx, cy)`, clipped to the grid: every tile in it
    /// becomes visible and every other tile keeps its level.
    pub fn reveal_square(&mut self, cx: i64, cy: i64, radius: i64)
        requires
            old(self).wf(),
        ensures
            final(self).wf(),
            final(self).spec_width() == old(self).spec_width(),
            final(self).spec_height() == old(self).spec_height(),
            forall|x: int, y: int|
                0 <= x < old(self).spec_width() && 0 <= y < old(self).spec_height()
                    ==> #[trigger] final(self).cell(x, y) == (if in_reveal_square(
                    x,
                    y,
                    cx as int,
                    cy as int,
                    radius as int,
                ) {
                    FogLevel::Visible
                } else {
                    old(self).cell(x, y)
                }),
    {
        let height = self.rows.len();
        let mut y: usize = 0;
        while y < height
            invariant
                self.width == old(self).width,
                height == self.rows@.len(),
                height == old(self).rows@.len(),
                y <= height,
                forall|y2: int|
                    0 <= y2 < height ==> (#[trigger] self.rows@[y2])@.len() == self.width,
                forall|x2: int, y2: int|
                    0 <= x2 < self.width && 0 <= y2 < y ==> #[trigger] self.rows@[y2]@[x2] == (
                    if in_reveal_square(x2, y2, cx as int, cy as int, radius as int) {
                        FogLevel::Visible
                    } else {
                        old(self).rows@[y2]@[x2]
                    }),
                forall|x2: int, y2: int|
                    0 <= x2 < self.width && y <= y2 < height ==> #[trigger] self.rows@[y2]@[x2]
                        == old(self).rows@[y2]@[x2],
            decreases height - y,
        {
            let width = self.width;
            let mut x: usize = 0;
            while x < width
                invariant
                    width == self.width,
                    self.width == old(self).width,
                    height == self.rows@.len(),
                    height == old(self).rows@.len(),
                    y < height,
                    x <= width,
                    forall|y2: int|
                        0 <= y2 < height ==> (#[trigger] self.rows@[y2])@.len() == self.width,
                    forall|x2: int, y2: int|
                        0 <= x2 < self.width && 0 <= y2 < y ==> #[trigger] self.rows@[y2]@[x2] == (
                        if in_reveal_square(x2, y2, cx as int, cy as int, radius as int) {
                            FogLevel::Visible
                        } else {
                            old(self).rows@[y2]@[x2]
                        }),
                    forall|x2: int| 0 <= x2 < x ==> #[trigger] self.rows@[y as int]@[x2] == (
                    if in_reveal_square(x2, y as int, cx as int, cy as int, radius as int) {
                        FogLevel::Visible
                    } else {
                        old(self).rows@[y as int]@[x2]
                    }),
                    forall|x2: int| x <= x2 < width ==> #[trigger] self.rows@[y as int]@[x2]
                        == old(self).rows@[y as int]@[x2],
                    forall|x2: int, y2: int|
                        0 <= x2 < self.width && y < y2 < height ==> #[trigger] self.rows@[y2]@[x2]
                            == old(self).rows@[y2]@[x2],
                decreases width - x,
            {
                let in_x = (cx as i128) - (radius as i128) <= (x as i128) && (x as i128) < (
                cx as i128) + (radius as i128);
                let in_y = (cy as i128) - (radius as i128) <= (y as i128) && (y as i128) < (
                cy as i128) + (radius as i128);
                if in_x && in_y {
                    self.rows[y][x] = FogLevel::Visible;
                }
                x = x + 1;
            }
            y = y + 1;
        }
    }

    /// One fog step, as the fog system performs it each update: tiles seen
    /// last step decay to "seen", then the square around the player's tile
    /// becomes visible.
    pub fn update_visibility(&mut self, cx: i64, cy: i64, radius: i64)
        requires
            old(self).wf(),
        ensures
            final(self).wf(),
            final(self).spec_width() == old(self).spec_width(),
            final(self).spec_height() == old(self).spec_height(),
            forall|x: int, y: int|
                0 <= x < old(self).spec_width() && 0 <= y < old(self).spec_height()
                    ==> #[trigger] final(self).cell(x, y) == (if in_reveal_square(
                    x,
                    y,
                    cx as int,
                    cy as int,
                    radius as int,
                ) {
                    FogLevel::Visible
                } else {
                    aged(old(self).cell(x, y))
                }),
    {
        self.age_visible();
        self.reveal_square(cx, cy, radius);
    }
}

} // verus!
