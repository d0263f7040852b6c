use workshop::arkanoid::{
    brick_layout, brick_object_path, brick_shadow_path, move_paddle, paddle_layout, rand_sign,
    wall_layout, BrickTile, PaddlePiece, PaddleSegment, WallPiece, WallTile, BALL_START_Y, BOTTOM,
    FIELD_W, LEFT, PADDLE_W, RIGHT, TOP, WALL_LX, WALL_RX, WALL_TY,
};
use workshop::input::{Key, KeySet};

#[test]
fn field_measures() {
    assert_eq!(FIELD_W, 832);
    assert_eq!(LEFT, -416);
    assert_eq!(RIGHT, 416);
    assert_eq!(WALL_LX, -432);
    assert_eq!(WALL_RX, 432);
    assert_eq!(WALL_TY, 316);
    assert_eq!(PADDLE_W, 160);
    assert_eq!(TOP, 300);
    assert_eq!(BOTTOM, -350);
    assert_eq!(BALL_START_Y, -240);
}

#[test]
fn wall_tiles() {
    let w = wall_layout();
    assert_eq!(w.len(), 2 + 26 + 44 + 2);
    assert_eq!(w[0], WallTile { piece: WallPiece::TopLeftBend, x: -432, y: 316, flip: false });
    assert_eq!(w[1], WallTile { piece: WallPiece::TopRightBend, x: 432, y: 316, flip: false });
    assert_eq!(w[2], WallTile { piece: WallPiece::HorizontalPipe, x: -400, y: 316, flip: false });
    assert_eq!(w[5], WallTile { piece: WallPiece::HorizontalElbow, x: -304, y: 316, flip: false });
    assert_eq!(w[27], WallTile { piece: WallPiece::HorizontalPipe, x: 400, y: 316, flip: false });
    assert_eq!(w[28], WallTile { piece: WallPiece::VerticalPipe, x: -432, y: 284, flip: false });
    assert_eq!(w[29], WallTile { piece: WallPiece::VerticalPipe, x: 432, y: 284, flip: false });
    assert_eq!(w[34], WallTile { piece: WallPiece::VerticalElbow, x: -432, y: 188, flip: false });
    assert_eq!(w[71], WallTile { piece: WallPiece::VerticalPipe, x: 432, y: -388, flip: false });
    assert_eq!(w[72], WallTile { piece: WallPiece::BottomCap, x: -432, y: -420, flip: false });
    assert_eq!(w[73], WallTile { piece: WallPiece::BottomCap, x: 432, y: -420, flip: true });
    let elbows = w.iter().filter(|t| t.piece == WallPiece::HorizontalElbow).count();
    assert_eq!(elbows, 4);
}

#[test]
fn wall_images() {
    assert_eq!(WallPiece::HorizontalElbow.object_path(), "sprite/hellbowobject.png");
    assert_eq!(WallPiece::VerticalElbow.shadow_path(), "sprite/vellboshadow.png");
    assert_eq!(WallPiece::BottomCap.object_path(), "sprite/bppipecapobject.png");
}

#[test]
fn brick_tiles() {
    let b = brick_layout();
    assert_eq!(b.len(), 52);
    assert_eq!(b[0], BrickTile { row: 0, x: -384, y: 200 });
    assert_eq!(b[12], BrickTile { row: 0, x: 384, y: 200 });
    assert_eq!(b[13], BrickTile { row: 1, x: -384, y: 168 });
    assert_eq!(b[51], BrickTile { row: 3, x: 384, y: 104 });
    assert_eq!(brick_object_path(0), "sprite/brick1object.png");
    assert_eq!(brick_object_path(1), "sprite/brick2object.png");
    assert_eq!(brick_object_path(2), "sprite/brick3object.png");
    assert_eq!(brick_object_path(3), "sprite/brick1object.png");
    assert_eq!(brick_shadow_path(3), "sprite/brick1shadow.png");
}

#[test]
fn paddle_tiles() {
    let p = paddle_layout();
    assert_eq!(
        p,
        vec![
            PaddleSegment { piece: PaddlePiece::LeftCap, x: -64 },
            PaddleSegment { piece: PaddlePiece::Pipe, x: -32 },
            PaddleSegment { piece: PaddlePiece::Pipe, x: 0 },
            PaddleSegment { piece: PaddlePiece::Pipe, x: 32 },
            PaddleSegment { piece: PaddlePiece::RightCap, x: 64 },
        ]
    );
    assert_eq!(PaddlePiece::RightCap.shadow_path(), "sprite/rpipecapshadow.png");
}

#[test]
fn paddle_steering() {
    assert_eq!(move_paddle(&KeySet::new(vec![Key::KeyA])), -1);
    assert_eq!(move_paddle(&KeySet::new(vec![Key::ArrowRight])), 1);
    assert_eq!(move_paddle(&KeySet::new(vec![Key::KeyA, Key::KeyD])), 0);
}

#[test]
fn coin_flip() {
    assert!(rand_sign(0));
    assert!(!rand_sign(999_999_999));
    assert!(rand_sign(123_456_788));
}

#[test]
fn bricks_inside_field_without_overlap() {
    let b = brick_layout();
    for brick in &b {
        assert!(LEFT <= brick.x - 32 && brick.x + 32 <= RIGHT);
        assert!(brick.y + 16 <= TOP);
    }
    for i in 0..b.len() {
        for j in i + 1..b.len() {
            let (p, q) = (b[i], b[j]);
            assert!(p.x + 64 <= q.x || q.x + 64 <= p.x || p.y + 32 <= q.y || q.y + 32 <= p.y);
        }
    }
}

#[test]
fn walls_outside_field() {
    for t in wall_layout() {
        assert!(t.x + 16 <= LEFT || t.x - 16 >= RIGHT || t.y - 16 >= TOP);
    }
}
