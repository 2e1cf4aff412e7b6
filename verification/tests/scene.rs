use falling_blocks::models::board::{Board, BoardCell, BOARD_HEIGHT, BOARD_WIDTH};
use falling_blocks::models::dir::{HDir, VDir};
use falling_blocks::models::matrix::MatrixBody;
use falling_blocks::models::scene::Scene;
use falling_blocks::models::shape::{Shape, Transform, SHAPE_COUNT};

const E: BoardCell = BoardCell::Empty;
const F: BoardCell = BoardCell::Filled;

fn named(name: &str) -> Shape {
    Shape::new(Shape::clone(Shape::get_named(name)))
}

fn at(mut shape: Shape, x: i8, y: i8) -> Shape {
    shape.x = x;
    shape.y = y;
    shape
}

fn board_with(cells: &[(usize, usize)]) -> Board {
    let mut board = Board::new();
    for &(r, c) in cells {
        board.0[r][c] = BoardCell::Filled;
    }
    board
}

fn full_row() -> [BoardCell; BOARD_WIDTH] {
    [BoardCell::Filled; BOARD_WIDTH]
}

#[test]
fn check_if_shape_crosses_left_border() {
    let mut shape = Shape::new(Shape::clone(Shape::get_named("shape0")));
    shape.move_x(-4);
    let scene = Scene::from_parts(shape, Board::new());

    assert!(scene.check_shape_crosses_h_borders());

    let mut shape = Shape::new(Shape::clone(Shape::get_named("shape0")));
    shape.move_x(-4);
    shape.move_x(1);
    shape.rotate(VDir::Bottom, HDir::Left);
    shape.move_x(-1);
    let scene = Scene::from_parts(shape, Board::new());
    assert!(!scene.check_shape_crosses_h_borders());

    let mut shape = Shape::new(Shape::clone(Shape::get_named("shape0")));
    shape.move_x(-4);
    shape.move_x(1);
    shape.rotate(VDir::Bottom, HDir::Left);
    shape.move_x(-1);
    shape.move_x(-1);
    let scene = Scene::from_parts(shape, Board::new());
    assert!(scene.check_shape_crosses_h_borders());
}

#[test]
fn check_if_shape_crosses_right_border() {
    let mut shape = Shape::new(Shape::clone(Shape::get_named("shape0")));
    shape.move_x(5);
    let scene = Scene::from_parts(shape, Board::new());

    assert!(scene.check_shape_crosses_h_borders());

    let mut shape = Shape::new(Shape::clone(Shape::get_named("shape0")));
    shape.move_x(5);
    shape.rotate(VDir::Top, HDir::Right);
    let scene = Scene::from_parts(shape, Board::new());
    assert!(!scene.check_shape_crosses_h_borders());
}

#[test]
fn check_if_shape_crosses_bottom_border() {
    let mut shape = Shape::new(Shape::clone(Shape::get_named("shape0")));
    shape.move_y(16);
    let scene = Scene::from_parts(shape, Board::new());

    assert!(!scene.check_shape_crosses_v_borders());

    let mut shape = Shape::new(Shape::clone(Shape::get_named("shape0")));
    shape.move_y(16);
    shape.move_y(1);
    let scene = Scene::from_parts(shape, Board::new());
    assert!(scene.check_shape_crosses_v_borders());
}

#[test]
fn check_place_figure_on_board() {
    let mut scene = Scene::new();
    scene.set_figure(Shape::new(Shape::clone(Shape::get_named("shape0"))));

    let mut compare = Board::empty();
    compare[0][4] = BoardCell::Filled;
    compare[1][3] = BoardCell::Filled;
    compare[1][4] = BoardCell::Filled;
    compare[1][5] = BoardCell::Filled;
    assert_eq!(scene.place_figure_on_board(), Board::from(compare));

    scene.rotate_figure();
    let mut compare = Board::empty();
    compare[0][4] = BoardCell::Filled;
    compare[1][4] = BoardCell::Filled;
    compare[1][5] = BoardCell::Filled;
    compare[2][4] = BoardCell::Filled;
    assert_eq!(scene.place_figure_on_board(), Board::from(compare));
}

#[test]
fn check_game_over() {
    let mut scene = Scene::new();
    let shape = Shape::get_named("shape2");
    let mut heap_height: usize = shape.len();
    loop {
        if heap_height > BOARD_HEIGHT {
            break;
        }

        scene.set_figure(Shape::new(Shape::clone(shape)));
        let steps = BOARD_HEIGHT - heap_height;
        for _ in 0..steps {
            assert!(!scene.move_figure_y(1));
        }
        assert!(scene.move_figure_y(1));
        scene.credit();
        let (hight, _) = scene.figure().matrix.size();
        heap_height += hight;
    }

    scene.set_figure(Shape::new(Shape::clone(shape)));
    assert!(scene.check_shape_intersects_heap())
}

#[test]
fn new_scene_has_an_empty_heap_and_a_piece_at_the_spawn_position() {
    let scene = Scene::new();
    assert_eq!(*scene.heap(), Board::new());
    assert_eq!((scene.figure().x, scene.figure().y), (3, 0));
    assert!(!scene.check_shape_intersects_heap());
    assert!(!scene.check_shape_crosses_h_borders());
    assert!(!scene.check_shape_crosses_v_borders());
}

#[test]
fn square_piece_drops_sixteen_rows_and_locks_at_the_bottom() {
    let mut scene = Scene::from_parts(named("shape2"), Board::new());
    for tick in 1..=16 {
        assert!(!scene.move_figure_y(1));
        assert_eq!(scene.figure().y, tick);
    }
    assert!(scene.move_figure_y(1));
    assert_eq!((scene.figure().x, scene.figure().y), (3, 16));
    assert_eq!(*scene.heap(), Board::new());

    scene.merge();

    assert_eq!(*scene.heap(), board_with(&[(16, 3), (16, 4), (17, 3), (17, 4)]));
}

#[test]
fn single_complete_row_is_removed() {
    let mut heap = Board::new();
    heap.0[5] = full_row();
    let mut scene = Scene::from_parts(named("shape0"), heap);

    scene.remove_filled_lines();

    assert_eq!(*scene.heap(), Board::new());
    assert_eq!((scene.figure().x, scene.figure().y), (3, 0));
}

#[test]
fn rows_above_a_removed_row_move_down() {
    let mut heap = board_with(&[(3, 0), (15, 2), (15, 7), (17, 9)]);
    heap.0[16] = full_row();
    let mut scene = Scene::from_parts(named("shape0"), heap);

    scene.remove_filled_lines();

    assert_eq!(*scene.heap(), board_with(&[(4, 0), (16, 2), (16, 7), (17, 9)]));
}

#[test]
fn all_complete_rows_are_removed_in_one_pass() {
    let mut heap = board_with(&[(0, 1), (2, 5), (9, 0), (11, 3), (14, 8)]);
    heap.0[1] = full_row();
    heap.0[10] = full_row();
    heap.0[16] = full_row();
    heap.0[17] = full_row();
    let mut scene = Scene::from_parts(named("shape0"), heap);

    scene.remove_filled_lines();

    assert_eq!(
        *scene.heap(),
        board_with(&[(4, 1), (5, 5), (12, 0), (13, 3), (16, 8)])
    );
}

#[test]
fn a_board_of_complete_rows_becomes_empty() {
    let mut heap = Board::new();
    for r in 0..BOARD_HEIGHT {
        heap.0[r] = full_row();
    }
    let mut scene = Scene::from_parts(named("shape0"), heap);
    scene.remove_filled_lines();
    assert_eq!(*scene.heap(), Board::new());
}

#[test]
fn rows_that_are_not_complete_stay() {
    let mut heap = Board::new();
    heap.0[17] = full_row();
    heap.0[17][4] = BoardCell::Empty;
    let mut scene = Scene::from_parts(named("shape0"), heap);
    let mut expected = Board::new();
    expected.0[17] = full_row();
    expected.0[17][4] = BoardCell::Empty;

    scene.remove_filled_lines();

    assert_eq!(*scene.heap(), expected);
}

#[test]
fn credit_locks_the_piece_and_removes_the_row_it_completes() {
    // The bottom row lacks the four cells that the lying long piece fills.
    let mut heap = Board::new();
    heap.0[17] = full_row();
    for c in 3..7 {
        heap.0[17][c] = BoardCell::Empty;
    }
    heap.0[16][0] = BoardCell::Filled;
    let mut scene = Scene::from_parts(named("shape1"), heap);
    for _ in 0..16 {
        assert!(!scene.move_figure_y(1));
    }
    assert!(scene.move_figure_y(1));
    assert_eq!(scene.figure().y, 16);

    scene.credit();

    assert_eq!(*scene.heap(), board_with(&[(17, 0)]));
}

#[test]
fn get_merged_shows_heap_and_piece_and_changes_nothing() {
    let heap = board_with(&[(17, 0), (17, 1), (16, 0)]);
    let scene = Scene::from_parts(named("shape0"), board_with(&[(17, 0), (17, 1), (16, 0)]));

    let shown = scene.get_merged();

    assert_eq!(
        shown,
        board_with(&[(0, 4), (1, 3), (1, 4), (1, 5), (16, 0), (17, 0), (17, 1)])
    );
    assert_eq!(*scene.heap(), heap);
    assert_eq!((scene.figure().x, scene.figure().y), (3, 0));
    assert_eq!(scene.get_merged(), shown);
}

#[test]
fn cells_outside_the_board_are_left_out_of_the_projection() {
    let scene = Scene::from_parts(at(named("shape2"), -1, -1), Board::new());
    assert_eq!(scene.place_figure_on_board(), board_with(&[(0, 0)]));

    let scene = Scene::from_parts(at(named("shape2"), 9, 17), Board::new());
    assert_eq!(scene.place_figure_on_board(), board_with(&[(17, 9)]));

    let scene = Scene::from_parts(at(named("shape2"), 10, 3), Board::new());
    assert_eq!(scene.place_figure_on_board(), Board::new());

    let scene = Scene::from_parts(at(named("shape2"), -128, 127), Board::new());
    assert_eq!(scene.place_figure_on_board(), Board::new());
}

#[test]
fn lock_leaves_out_the_cells_outside_the_board() {
    let mut scene = Scene::from_parts(at(named("shape1"), 8, 16), board_with(&[(0, 0)]));
    scene.merge();
    assert_eq!(*scene.heap(), board_with(&[(0, 0), (17, 8), (17, 9)]));
}

#[test]
fn move_left_is_rejected_at_the_left_edge() {
    let mut scene = Scene::from_parts(named("shape0"), Board::new());
    for x in [2, 1, 0] {
        scene.move_figure_x(-1);
        assert_eq!(scene.figure().x, x);
    }
    scene.move_figure_x(-1);
    assert_eq!((scene.figure().x, scene.figure().y), (0, 0));
    scene.move_figure_x(-7);
    assert_eq!((scene.figure().x, scene.figure().y), (0, 0));
}

#[test]
fn move_right_is_rejected_at_the_right_edge() {
    let mut scene = Scene::from_parts(named("shape0"), Board::new());
    for x in [4, 5, 6, 7] {
        scene.move_figure_x(1);
        assert_eq!(scene.figure().x, x);
    }
    scene.move_figure_x(1);
    assert_eq!((scene.figure().x, scene.figure().y), (7, 0));
    scene.move_figure_x(100);
    assert_eq!((scene.figure().x, scene.figure().y), (7, 0));
}

#[test]
fn empty_columns_of_a_piece_may_leave_the_board() {
    // The standing long piece has its cells in its third column.
    let mut shape = named("shape1");
    shape.rotate(VDir::Bottom, HDir::Left);
    let mut scene = Scene::from_parts(shape, Board::new());
    for _ in 0..5 {
        scene.move_figure_x(-1);
    }
    assert_eq!(scene.figure().x, -2);
    scene.move_figure_x(-1);
    assert_eq!(scene.figure().x, -2);
    for _ in 0..9 {
        scene.move_figure_x(1);
    }
    assert_eq!(scene.figure().x, 7);
    scene.move_figure_x(1);
    assert_eq!(scene.figure().x, 7);
}

#[test]
fn move_is_rejected_where_the_heap_is() {
    let mut scene = Scene::from_parts(named("shape2"), board_with(&[(1, 2), (0, 5)]));
    scene.move_figure_x(-1);
    assert_eq!(scene.figure().x, 3);
    scene.move_figure_x(1);
    assert_eq!(scene.figure().x, 3);
    assert_eq!(*scene.heap(), board_with(&[(1, 2), (0, 5)]));
}

#[test]
fn drop_is_blocked_by_the_heap() {
    let mut scene = Scene::from_parts(named("shape2"), board_with(&[(5, 4)]));
    for _ in 0..3 {
        assert!(!scene.move_figure_y(1));
    }
    assert!(scene.move_figure_y(1));
    assert_eq!((scene.figure().x, scene.figure().y), (3, 3));
    assert_eq!(*scene.heap(), board_with(&[(5, 4)]));
}

#[test]
fn empty_rows_of_a_piece_may_leave_the_board() {
    // The bottom row of this piece is empty: the piece rests one row lower.
    let mut scene = Scene::from_parts(named("shape0"), Board::new());
    for _ in 0..16 {
        assert!(!scene.move_figure_y(1));
    }
    assert!(scene.move_figure_y(1));
    assert_eq!(scene.figure().y, 16);
    scene.merge();
    assert_eq!(*scene.heap(), board_with(&[(16, 4), (17, 3), (17, 4), (17, 5)]));
}

#[test]
fn rotation_stands_where_there_is_room() {
    let mut scene = Scene::from_parts(named("shape0"), Board::new());
    scene.rotate_figure();
    let expected: MatrixBody = vec![vec![E, F, E], vec![E, F, F], vec![E, F, E]];
    assert_eq!(*scene.figure().matrix.body(), expected);
    assert_eq!((scene.figure().x, scene.figure().y), (3, 0));
}

#[test]
fn rotation_is_rejected_at_the_left_edge() {
    // Standing long piece against the left edge: lying, it would cross it.
    let mut shape = named("shape1");
    shape.rotate(VDir::Bottom, HDir::Left);
    let mut scene = Scene::from_parts(at(shape, -2, 5), Board::new());
    let standing: MatrixBody =
        vec![vec![E, E, F, E], vec![E, E, F, E], vec![E, E, F, E], vec![E, E, F, E]];

    scene.rotate_figure();

    assert_eq!(*scene.figure().matrix.body(), standing);
    assert_eq!((scene.figure().x, scene.figure().y), (-2, 5));
}

#[test]
fn rotation_is_rejected_at_the_bottom_edge() {
    // Lying long piece on the bottom row: standing, it would cross the bottom.
    let mut scene = Scene::from_parts(at(named("shape1"), 3, 16), Board::new());
    let lying: MatrixBody =
        vec![vec![E, E, E, E], vec![F, F, F, F], vec![E, E, E, E], vec![E, E, E, E]];

    scene.rotate_figure();

    assert_eq!(*scene.figure().matrix.body(), lying);
    assert_eq!((scene.figure().x, scene.figure().y), (3, 16));
}

#[test]
fn rotation_is_rejected_where_the_heap_is() {
    let heap = board_with(&[(2, 4)]);
    let mut scene = Scene::from_parts(named("shape0"), heap);
    let before: MatrixBody = vec![vec![E, F, E], vec![F, F, F], vec![E, E, E]];

    scene.rotate_figure();

    assert_eq!(*scene.figure().matrix.body(), before);
    assert_eq!(*scene.heap(), board_with(&[(2, 4)]));
}

#[test]
fn check_empty_on_bodies() {
    assert!(Scene::check_empty(&vec![]));
    assert!(Scene::check_empty(&vec![vec![], vec![]]));
    assert!(Scene::check_empty(&vec![vec![E, E], vec![E, E]]));
    assert!(!Scene::check_empty(&vec![vec![E, E], vec![E, F]]));
    assert!(!Scene::check_empty(&vec![vec![F]]));
}

#[test]
fn reset_figure_brings_a_new_piece_and_keeps_the_heap() {
    let mut scene = Scene::from_parts(at(named("shape0"), 5, 9), board_with(&[(17, 0)]));
    scene.reset_figure();
    assert_eq!((scene.figure().x, scene.figure().y), (3, 0));
    assert_eq!(*scene.heap(), board_with(&[(17, 0)]));
    let (height, width) = scene.figure().matrix.size();
    assert!(height == width && (2..=4).contains(&height));
}

#[test]
fn stacking_any_shape_ends_with_an_overlap_at_the_spawn_position() {
    for index in 0..SHAPE_COUNT {
        let mut scene = Scene::from_parts(Shape::pick(index), Board::new());
        let mut rounds = 0;
        while !scene.check_shape_intersects_heap() {
            assert!(rounds < BOARD_HEIGHT);
            while !scene.move_figure_y(1) {}
            scene.credit();
            scene.set_figure(Shape::pick(index));
            rounds += 1;
        }
        assert!(scene.check_shape_intersects_heap());
        assert!(rounds >= 1);
    }
}
