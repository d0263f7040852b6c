//! The brick-breaker level: the playing field, the tiles of its walls, the
//! bricks and the paddle, in whole pixels (the field's origin is its
//! centre, `y` grows upwards), and the paddle steering.
use vstd::prelude::*;
use crate::input::{axis, axis_of, Key, KeySet};

verus! {

/// The edge length of a wall or paddle tile.
pub const TILE: i32 = 32;
/// The width of a brick.
pub const BRICK_W: i32 = 64;
/// The height of a brick.
pub const BRICK_H: i32 = 32;
/// The edge length of the ball.
pub const BALL_SIZE: i32 = 16;
/// The radius of the ball.
pub const BALL_R: i32 = 8;
/// Bricks per row.
pub const COLS: i32 = 13;
/// Brick rows.
pub const ROWS: i32 = 4;
/// The width of the playing field: one row of bricks.
pub const FIELD_W: i32 = COLS * BRICK_W;
/// The left edge of the playing field.
pub const LEFT: i32 = -416;
/// The right edge of the playing field.
pub const RIGHT: i32 = 416;
/// The top edge of the playing field.
pub const TOP: i32 = 300;
/// The line below which the ball is lost.
pub const BOTTOM: i32 = -350;
/// The height of the paddle's centre.
pub const PADDLE_Y: i32 = -280;
/// Tiles in the paddle: a left cap, three pipes, a right cap.
pub const PADDLE_SEGS: i32 = 5;
/// The width of the paddle.
pub const PADDLE_W: i32 = PADDLE_SEGS * TILE;
/// The height of the paddle.
pub const PADDLE_H: i32 = TILE;
/// The centre line of the left wall.
pub const WALL_LX: i32 = -432;
/// The centre line of the right wall.
pub const WALL_RX: i32 = 432;
/// The centre line of the top wall.
pub const WALL_TY: i32 = 316;
/// The centre of the top brick row.
pub const BRICK_START_Y: i32 = 200;
/// The height at which a new ball is served.
pub const BALL_START_Y: i32 = PADDLE_Y + 40;
/// The horizontal offset of every shadow from its object.
pub const SH_DX: i32 = 4;
/// The vertical offset of every shadow from its object.
pub const SH_DY: i32 = -4;
/// The tiles of the top wall between the two corners.
pub const TOP_RUN: i32 = 26;
/// The tiles of each side wall between the top corner and the cap.
pub const SIDE_RUN: i32 = 22;

/// How the field's measures follow from one another: the field is one row
/// of bricks wide and centred, the walls' centre lines lie half a tile
/// outside it, the top run fills the top wall between the corners, and the
/// ball's radius is half its size.
pub proof fn lemma_field_measures()
    ensures
        BALL_R * 2 == BALL_SIZE,
        FIELD_W == COLS * BRICK_W,
        LEFT == -RIGHT,
        RIGHT * 2 == FIELD_W,
        WALL_LX * 2 == LEFT * 2 - TILE,
        WALL_RX * 2 == RIGHT * 2 + TILE,
        WALL_TY * 2 == TOP * 2 + TILE,
        TOP_RUN == (WALL_RX - WALL_LX) as int / TILE as int - 1,
        PADDLE_W == PADDLE_SEGS * TILE,
{
}

/// The kinds of wall tile.
#[derive(Clone, Copy, Debug, PartialEq, Eq, Structural)]
pub enum WallPiece {
    TopLeftBend,
    TopRightBend,
    HorizontalPipe,
    HorizontalElbow,
    VerticalPipe,
    VerticalElbow,
    BottomCap,
}

/// One wall tile: its kind, its centre and whether it is mirrored.
#[derive(Clone, Copy, Debug, PartialEq, Eq, Structural)]
pub struct WallTile {
    pub piece: WallPiece,
    pub x: i32,
    pub y: i32,
    pub flip: bool,
}

/// The image of a wall tile.
pub open spec fn wall_object_of(p: WallPiece) -> Seq<char> {
    match p {
        WallPiece::TopLeftBend => "sprite/tlbendobject.png"@,
        WallPiece::TopRightBend => "sprite/trbendobject.png"@,
        WallPiece::HorizontalPipe => "sprite/hpipeobject.png"@,
        WallPiece::HorizontalElbow => "sprite/hellbowobject.png"@,
        WallPiece::VerticalPipe => "sprite/vpipeobject.png"@,
        WallPiece::VerticalElbow => "sprite/vellboobject.png"@,
        WallPiece::BottomCap => "sprite/bppipecapobject.png"@,
    }
}

/// The image of a wall tile's shadow.
pub open spec fn wall_shadow_of(p: WallPiece) -> Seq<char> {
    match p {
        WallPiece::TopLeftBend => "sprite/tlbendshadow.png"@,
        WallPiece::TopRightBend => "sprite/trbendshadow.png"@,
        WallPiece::HorizontalPipe => "sprite/hpipeshadow.png"@,
        WallPiece::HorizontalElbow => "sprite/hellbowshadow.png"@,
        WallPiece::VerticalPipe => "sprite/vpipeshadow.png"@,
        WallPiece::VerticalElbow => "sprite/vellboshadow.png"@,
        WallPiece::BottomCap => "sprite/bppipecapshadow.png"@,
    }
}

impl WallPiece {
    /// The image of the tile.
    pub fn object_path(&self) -> (path: &'static str)
        ensures
            path@ == wall_object_of(*self),
    {
        match self {
            WallPiece::TopLeftBend => "sprite/tlbendobject.png",
            WallPiece::TopRightBend => "sprite/trbendobject.png",
            WallPiece::HorizontalPipe => "sprite/hpipeobject.png",
            WallPiece::HorizontalElbow => "sprite/hellbowobject.png",
            WallPiece::VerticalPipe => "sprite/vpipeobject.png",
            WallPiece::VerticalElbow => "sprite/vellboobject.png",
            WallPiece::BottomCap => "sprite/bppipecapobject.png",
        }
    }

    /// The image of the tile's shadow.
    pub fn shadow_path(&self) -> (path: &'static str)
        ensures
            path@ == wall_shadow_of(*self),
    {
        match self {
            WallPiece::TopLeftBend => "sprite/tlbendshadow.png",
            WallPiece::TopRightBend => "sprite/trbendshadow.png",
            WallPiece::HorizontalPipe => "sprite/hpipeshadow.png",
            WallPiece::HorizontalElbow => "sprite/hellbowshadow.png",
            WallPiece::VerticalPipe => "sprite/vpipeshadow.png",
            WallPiece::VerticalElbow => "sprite/vellboshadow.png",
            WallPiece::BottomCap => "sprite/bppipecapshadow.png",
        }
    }
}

/// Every seventh pipe, starting with the fourth, is an elbow.
pub open spec fn is_elbow(i: int) -> bool {
    i % 7 == 3
}

/// Tile `i` of the top run, left to right.
pub open spec fn top_tile(i: int) -> WallTile {
    WallTile {
        piece: if is_elbow(i) {
            WallPiece::HorizontalElbow
        } else {
            WallPiece::HorizontalPipe
        },
        x: (WALL_LX + TILE + i * TILE) as i32,
        y: WALL_TY,
        flip: false,
    }
}

/// Tile `i` of a side run, from the top down, on the wall at `x`.
pub open spec fn side_tile(i: int, x: i32) -> WallTile {
    WallTile {
        piece: if is_elbow(i) {
            WallPiece::VerticalElbow
        } else {
            WallPiece::VerticalPipe
        },
        x: x,
        y: (WALL_TY - (i + 1) * TILE) as i32,
        flip: false,
    }
}

/// The first `n` rows of the side walls, each as its left tile then its
/// right tile.
pub open spec fn side_rows(n: nat) -> Seq<WallTile>
    decreases n,
{
    if n == 0 {
        Seq::empty()
    } else {
        side_rows((n - 1) as nat) + seq![side_tile(n - 1, WALL_LX), side_tile(n - 1, WALL_RX)]
    }
}

/// The height of the bottom caps.
pub open spec fn cap_y() -> i32 {
    (WALL_TY - (SIDE_RUN + 1) * TILE) as i32
}

/// All wall tiles, in spawning order: the top corners, the top run, the
/// side rows, the bottom caps (the right one mirrored).
pub open spec fn wall_layout_of() -> Seq<WallTile> {
    seq![
        WallTile { piece: WallPiece::TopLeftBend, x: WALL_LX, y: WALL_TY, flip: false },
        WallTile { piece: WallPiece::TopRightBend, x: WALL_RX, y: WALL_TY, flip: false },
    ] + Seq::new(TOP_RUN as nat, |i: int| top_tile(i)) + side_rows(SIDE_RUN as nat) + seq![
        WallTile { piece: WallPiece::BottomCap, x: WALL_LX, y: cap_y(), flip: false },
        WallTile { piece: WallPiece::BottomCap, x: WALL_RX, y: cap_y(), flip: true },
    ]
}

/// Lays out the walls around the playing field: a corner bend at each top
/// corner, a pipe run along the top and down each side with an elbow every
/// seven tiles, and a cap at the bottom of each side.
pub fn wall_layout() -> (tiles: Vec<WallTile>)
    ensures
        tiles@ == wall_layout_of(),
{
    let mut tiles: Vec<WallTile> = Vec::new();
    tiles.push(WallTile { piece: WallPiece::TopLeftBend, x: WALL_LX, y: WALL_TY, flip: false });
    tiles.push(WallTile { piece: WallPiece::TopRightBend, x: WALL_RX, y: WALL_TY, flip: false });
    let ghost corners = tiles@;
    let h_start: i32 = WALL_LX + TILE;
    let h_count: i32 = (WALL_RX - WALL_LX) / TILE - 1;
    let mut i: i32 = 0;
    while i < h_count
        invariant
            h_count == TOP_RUN,
            0 <= i <= h_count,
            h_start == WALL_LX + TILE,
            tiles@ == corners + Seq::new(i as nat, |k: int| top_tile(k)),
        decreases h_count - i,
    {
        let x: i32 = h_start + i * TILE;
        let piece = if i % 7 == 3 {
            WallPiece::HorizontalElbow
        } else {
            WallPiece::HorizontalPipe
        };
        tiles.push(WallTile { piece, x, y: WALL_TY, flip: false });
        assert(tiles@ =~= corners + Seq::new((i + 1) as nat, |k: int| top_tile(k)));
        i = i + 1;
    }
    let ghost top = tiles@;
    let v_count: i32 = SIDE_RUN;
    let mut i: i32 = 0;
    while i < v_count
        invariant
            v_count == SIDE_RUN,
            0 <= i <= v_count,
            tiles@ == top + side_rows(i as nat),
        decreases v_count - i,
    {
        let y: i32 = WALL_TY - (i + 1) * TILE;
        let piece = if i % 7 == 3 {
            WallPiece::VerticalElbow
        } else {
            WallPiece::VerticalPipe
        };
        tiles.push(WallTile { piece, x: WALL_LX, y, flip: false });
        tiles.push(WallTile { piece, x: WALL_RX, y, flip: false });
        assert(tiles@ =~= top + side_rows((i + 1) as nat));
        i = i + 1;
    }
    let cap_y: i32 = WALL_TY - (v_count + 1) * TILE;
    tiles.push(WallTile { piece: WallPiece::BottomCap, x: WALL_LX, y: cap_y, flip: false });
    tiles.push(WallTile { piece: WallPiece::BottomCap, x: WALL_RX, y: cap_y, flip: true });
    assert(tiles@ =~= wall_layout_of());
    tiles
}

proof fn lemma_side_rows_index(n: nat, k: int)
    requires
        0 <= k < 2 * n,
    ensures
        side_rows(n).len() == 2 * n,
        side_rows(n)[k] == side_tile(k / 2, if k % 2 == 0 { WALL_LX } else { WALL_RX }),
    decreases n,
{
    let m: nat = (n - 1) as nat;
    if k < 2 * m {
        lemma_side_rows_index(m, k);
    } else {
        if m > 0 {
            lemma_side_rows_index(m, 0);
        }
        vstd::arithmetic::div_mod::lemma_fundamental_div_mod_converse(k, 2, m as int, k - 2 * m);
    }
}

/// A tile at `(x, y)` stays out of the playing field: it lies wholly left
/// of it, right of it or above it.
pub open spec fn outside_field(x: int, y: int) -> bool {
    x + TILE / 2 <= LEFT || x - TILE / 2 >= RIGHT || y - TILE / 2 >= TOP
}

/// The walls border the playing field without entering it; the top run
/// joins the two corners tile by tile; the side walls stand on the field's
/// left and right edges, row by row at equal heights, down to the caps.
pub proof fn lemma_walls_border_field()
    ensures
        wall_layout_of().len() == 2 + TOP_RUN + 2 * SIDE_RUN + 2,
        forall|k: int|
            0 <= k < wall_layout_of().len() ==> outside_field(
                (#[trigger] wall_layout_of()[k]).x as int,
                wall_layout_of()[k].y as int,
            ),
        forall|i: int|
            0 <= i < TOP_RUN ==> (#[trigger] wall_layout_of()[2 + i]).x == WALL_LX + (i + 1)
                * TILE && wall_layout_of()[2 + i].y == WALL_TY,
        wall_layout_of()[2 + TOP_RUN - 1].x + TILE == WALL_RX,
        forall|i: int|
            0 <= i < SIDE_RUN ==> {
                let l = #[trigger] wall_layout_of()[2 + TOP_RUN + 2 * i];
                let r = wall_layout_of()[2 + TOP_RUN + 2 * i + 1];
                &&& l.x + TILE / 2 == LEFT
                &&& r.x - TILE / 2 == RIGHT
                &&& l.y == r.y
                &&& l.y == WALL_TY - (i + 1) * TILE
            },
{
    let w = wall_layout_of();
    let top = Seq::new(TOP_RUN as nat, |i: int| top_tile(i));
    lemma_side_rows_index(SIDE_RUN as nat, 0);
    let sides = side_rows(SIDE_RUN as nat);
    assert(w.len() == 2 + TOP_RUN + 2 * SIDE_RUN + 2);
    assert forall|k: int| 0 <= k < w.len() implies outside_field(
        (#[trigger] w[k]).x as int,
        w[k].y as int,
    ) by {
        if 2 + TOP_RUN <= k < 2 + TOP_RUN + 2 * SIDE_RUN {
            lemma_side_rows_index(SIDE_RUN as nat, k - 2 - TOP_RUN);
            assert(w[k] == sides[k - 2 - TOP_RUN]);
        } else if 2 <= k < 2 + TOP_RUN {
            assert(w[k] == top[k - 2]);
        }
    }
    assert forall|i: int| 0 <= i < TOP_RUN implies (#[trigger] w[2 + i]).x == WALL_LX + (i + 1)
        * TILE && w[2 + i].y == WALL_TY by {
        assert(w[2 + i] == top[i]);
    }
    assert(w[2 + TOP_RUN - 1] == top[TOP_RUN - 1]);
    assert forall|i: int| 0 <= i < SIDE_RUN implies {
        let l = #[trigger] w[2 + TOP_RUN + 2 * i];
        let r = w[2 + TOP_RUN + 2 * i + 1];
        &&& l.x + TILE / 2 == LEFT
        &&& r.x - TILE / 2 == RIGHT
        &&& l.y == r.y
        &&& l.y == WALL_TY - (i + 1) * TILE
    } by {
        lemma_side_rows_index(SIDE_RUN as nat, 2 * i);
        lemma_side_rows_index(SIDE_RUN as nat, 2 * i + 1);
        assert(w[2 + TOP_RUN + 2 * i] == sides[2 * i]);
        assert(w[2 + TOP_RUN + 2 * i + 1] == sides[2 * i + 1]);
    }
}

/// One brick: its row (which picks its image) and its centre.
#[derive(Clone, Copy, Debug, PartialEq, Eq, Structural)]
pub struct BrickTile {
    pub row: i32,
    pub x: i32,
    pub y: i32,
}

/// The brick in row `row` (from the top) and column `col` (from the left).
pub open spec fn brick_at(row: int, col: int) -> BrickTile {
    BrickTile {
        row: row as i32,
        x: (LEFT + BRICK_W / 2 + col * BRICK_W) as i32,
        y: (BRICK_START_Y - row * BRICK_H) as i32,
    }
}

/// The bricks of the first `n` rows, row by row, each left to right.
pub open spec fn brick_rows(n: nat) -> Seq<BrickTile>
    decreases n,
{
    if n == 0 {
        Seq::empty()
    } else {
        brick_rows((n - 1) as nat) + Seq::new(COLS as nat, |c: int| brick_at(n - 1, c))
    }
}

/// Lays out the bricks: `ROWS` rows of `COLS` bricks filling the width of
/// the field, the top row centred at `BRICK_START_Y`.
pub fn brick_layout() -> (bricks: Vec<BrickTile>)
    ensures
        bricks@ == brick_rows(ROWS as nat),
{
    let mut bricks: Vec<BrickTile> = Vec::new();
    let mut row: i32 = 0;
    while row < ROWS
        invariant
            0 <= row <= ROWS,
            bricks@ == brick_rows(row as nat),
        decreases ROWS - row,
    {
        let y: i32 = BRICK_START_Y - row * BRICK_H;
        let ghost done = bricks@;
        let mut col: i32 = 0;
        while col < COLS
            invariant
                0 <= row < ROWS,
                0 <= col <= COLS,
                y == BRICK_START_Y - row * BRICK_H,
                done == brick_rows(row as nat),
                bricks@ == done + Seq::new(col as nat, |c: int| brick_at(row as int, c)),
            decreases COLS - col,
        {
            let x: i32 = LEFT + BRICK_W / 2 + col * BRICK_W;
            bricks.push(BrickTile { row, x, y });
            assert(bricks@ =~= done + Seq::new((col + 1) as nat, |c: int| brick_at(row as int, c)));
            col = col + 1;
        }
        assert(bricks@ =~= brick_rows((row + 1) as nat));
        row = row + 1;
    }
    bricks
}

proof fn lemma_brick_rows_index(n: nat, k: int)
    requires
        0 <= k < n * COLS,
    ensures
        brick_rows(n).len() == n * COLS,
        brick_rows(n)[k] == brick_at(k / COLS as int, k % COLS as int),
    decreases n,
{
    assert(n > 0);
    let m: nat = (n - 1) as nat;
    if k < m * COLS {
        lemma_brick_rows_index(m, k);
    } else {
        if m > 0 {
            lemma_brick_rows_index(m, 0);
        }
        assert(brick_rows(m).len() == m * COLS);
        let c: int = k - m * COLS;
        vstd::arithmetic::div_mod::lemma_fundamental_div_mod_converse(k, COLS as int, m as int, c);
    }
}

/// Every brick lies inside the playing field, between the side walls and
/// below the top wall, well above the paddle; the bricks fill the width of
/// the field exactly; and no two bricks overlap.
pub proof fn lemma_bricks_in_field()
    ensures
        brick_rows(ROWS as nat).len() == ROWS * COLS,
        forall|k: int|
            0 <= k < ROWS * COLS ==> {
                let b = #[trigger] brick_rows(ROWS as nat)[k];
                &&& LEFT <= b.x - BRICK_W / 2
                &&& b.x + BRICK_W / 2 <= RIGHT
                &&& b.y + BRICK_H / 2 <= TOP
                &&& b.y - BRICK_H / 2 > PADDLE_Y + PADDLE_H / 2
            },
        brick_rows(ROWS as nat)[0].x - BRICK_W / 2 == LEFT,
        brick_rows(ROWS as nat)[COLS - 1].x + BRICK_W / 2 == RIGHT,
        forall|k: int, l: int|
            0 <= k < l < ROWS * COLS ==> {
                let a = #[trigger] brick_rows(ROWS as nat)[k];
                let b = #[trigger] brick_rows(ROWS as nat)[l];
                a.x + BRICK_W <= b.x || b.x + BRICK_W <= a.x || a.y + BRICK_H <= b.y || b.y
                    + BRICK_H <= a.y
            },
{
    lemma_brick_rows_index(ROWS as nat, 0);
    lemma_brick_rows_index(ROWS as nat, COLS - 1);
    assert forall|k: int| 0 <= k < ROWS * COLS implies {
        let b = #[trigger] brick_rows(ROWS as nat)[k];
        &&& LEFT <= b.x - BRICK_W / 2
        &&& b.x + BRICK_W / 2 <= RIGHT
        &&& b.y + BRICK_H / 2 <= TOP
        &&& b.y - BRICK_H / 2 > PADDLE_Y + PADDLE_H / 2
    } by {
        lemma_brick_rows_index(ROWS as nat, k);
    }
    assert forall|k: int, l: int| 0 <= k < l < ROWS * COLS implies {
        let a = #[trigger] brick_rows(ROWS as nat)[k];
        let b = #[trigger] brick_rows(ROWS as nat)[l];
        a.x + BRICK_W <= b.x || b.x + BRICK_W <= a.x || a.y + BRICK_H <= b.y || b.y + BRICK_H
            <= a.y
    } by {
        lemma_brick_rows_index(ROWS as nat, k);
        lemma_brick_rows_index(ROWS as nat, l);
        vstd::arithmetic::div_mod::lemma_fundamental_div_mod(k, COLS as int);
        vstd::arithmetic::div_mod::lemma_fundamental_div_mod(l, COLS as int);
    }
}

/// The image of a brick in `row` (three designs; the fourth row and any
/// other reuse the first).
pub open spec fn brick_object_of(row: int) -> Seq<char> {
    if row == 1 {
        "sprite/brick2object.png"@
    } else if row == 2 {
        "sprite/brick3object.png"@
    } else {
        "sprite/brick1object.png"@
    }
}

/// The image of the shadow of a brick in `row`.
pub open spec fn brick_shadow_of(row: int) -> Seq<char> {
    if row == 1 {
        "sprite/brick2shadow.png"@
    } else if row == 2 {
        "sprite/brick3shadow.png"@
    } else {
        "sprite/brick1shadow.png"@
    }
}

/// The image of a brick in `row`: three designs, the fourth row reusing
/// the first.
pub fn brick_object_path(row: i32) -> (path: &'static str)
    ensures
        path@ == brick_object_of(row as int),
{
    if row == 1 {
        "sprite/brick2object.png"
    } else if row == 2 {
        "sprite/brick3object.png"
    } else {
        "sprite/brick1object.png"
    }
}

/// The image of the shadow of a brick in `row`.
pub fn brick_shadow_path(row: i32) -> (path: &'static str)
    ensures
        path@ == brick_shadow_of(row as int),
{
    if row == 1 {
        "sprite/brick2shadow.png"
    } else if row == 2 {
        "sprite/brick3shadow.png"
    } else {
        "sprite/brick1shadow.png"
    }
}

/// The kinds of paddle tile.
#[derive(Clone, Copy, Debug, PartialEq, Eq, Structural)]
pub enum PaddlePiece {
    LeftCap,
    Pipe,
    RightCap,
}

/// The image of a paddle tile.
pub open spec fn paddle_object_of(p: PaddlePiece) -> Seq<char> {
    match p {
        PaddlePiece::LeftCap => "sprite/lpipecapobject.png"@,
        PaddlePiece::Pipe => "sprite/hpipeobject.png"@,
        PaddlePiece::RightCap => "sprite/rpipecapobject.png"@,
    }
}

/// The image of a paddle tile's shadow.
pub open spec fn paddle_shadow_of(p: PaddlePiece) -> Seq<char> {
    match p {
        PaddlePiece::LeftCap => "sprite/lpipecapshadow.png"@,
        PaddlePiece::Pipe => "sprite/hpipeshadow.png"@,
        PaddlePiece::RightCap => "sprite/rpipecapshadow.png"@,
    }
}

impl PaddlePiece {
    /// The image of the tile.
    pub fn object_path(&self) -> (path: &'static str)
        ensures
            path@ == paddle_object_of(*self),
    {
        match self {
            PaddlePiece::LeftCap => "sprite/lpipecapobject.png",
            PaddlePiece::Pipe => "sprite/hpipeobject.png",
            PaddlePiece::RightCap => "sprite/rpipecapobject.png",
        }
    }

    /// The image of the tile's shadow.
    pub fn shadow_path(&self) -> (path: &'static str)
        ensures
            path@ == paddle_shadow_of(*self),
    {
        match self {
            PaddlePiece::LeftCap => "sprite/lpipecapshadow.png",
            PaddlePiece::Pipe => "sprite/hpipeshadow.png",
            PaddlePiece::RightCap => "sprite/rpipecapshadow.png",
        }
    }
}

/// One paddle tile: its kind and its centre relative to the paddle's.
#[derive(Clone, Copy, Debug, PartialEq, Eq, Structural)]
pub struct PaddleSegment {
    pub piece: PaddlePiece,
    pub x: i32,
}

/// Paddle tile `i`, left to right.
pub open spec fn segment_at(i: int) -> PaddleSegment {
    PaddleSegment {
        piece: if i == 0 {
            PaddlePiece::LeftCap
        } else if i == PADDLE_SEGS - 1 {
            PaddlePiece::RightCap
        } else {
            PaddlePiece::Pipe
        },
        x: ((i - (PADDLE_SEGS - 1) / 2) * TILE) as i32,
    }
}

/// The paddle's tiles sit side by side, capped at both ends, and together
/// span exactly the paddle's width around its centre.
pub proof fn lemma_paddle_span()
    ensures
        segment_at(0).piece == PaddlePiece::LeftCap,
        segment_at(PADDLE_SEGS - 1).piece == PaddlePiece::RightCap,
        segment_at(0).x - TILE / 2 == -(PADDLE_W / 2),
        segment_at(PADDLE_SEGS - 1).x + TILE / 2 == PADDLE_W / 2,
        forall|i: int| 0 <= i < PADDLE_SEGS - 1 ==> #[trigger] segment_at(i + 1).x == segment_at(i).x + TILE,
{
}

/// Lays out the paddle: a left cap, pipes, a right cap, centred on the
/// paddle's position.
pub fn paddle_layout() -> (segments: Vec<PaddleSegment>)
    ensures
        segments@ == Seq::new(PADDLE_SEGS as nat, |i: int| segment_at(i)),
{
    let half: i32 = (PADDLE_SEGS - 1) / 2;
    let mut segments: Vec<PaddleSegment> = Vec::new();
    let mut i: i32 = 0;
    while i < PADDLE_SEGS
        invariant
            0 <= i <= PADDLE_SEGS,
            half == (PADDLE_SEGS - 1) / 2,
            segments@ == Seq::new(i as nat, |k: int| segment_at(k)),
        decreases PADDLE_SEGS - i,
    {
        let piece = if i == 0 {
            PaddlePiece::LeftCap
        } else if i == PADDLE_SEGS - 1 {
            PaddlePiece::RightCap
        } else {
            PaddlePiece::Pipe
        };
        segments.push(PaddleSegment { piece, x: (i - half) * TILE });
        assert(segments@ =~= Seq::new((i + 1) as nat, |k: int| segment_at(k)));
        i = i + 1;
    }
    segments
}

/// The direction in which the held keys move the paddle: left arrow or A
/// for -1, right arrow or D for 1, cancelling out; the caller leaves the
/// paddle alone when it is 0 and otherwise moves it and keeps it between
/// the walls.
pub fn move_paddle(held: &KeySet) -> (dx: i8)
    ensures
        dx == axis_of(
            held@.contains(Key::ArrowLeft) || held@.contains(Key::KeyA),
            held@.contains(Key::ArrowRight) || held@.contains(Key::KeyD),
        ),
{
    let left = held.contains(Key::ArrowLeft) || held.contains(Key::KeyA);
    let right = held.contains(Key::ArrowRight) || held.contains(Key::KeyD);
    axis(left, right)
}

/// The coin flip that picks the side a new ball is served to, from the
/// sub-second nanoseconds of the clock: heads on an even count.
pub fn rand_sign(subsec_nanos: u32) -> (heads: bool)
    ensures
        heads == (subsec_nanos % 2 == 0),
{
    subsec_nanos % 2 == 0
}

} // verus!
