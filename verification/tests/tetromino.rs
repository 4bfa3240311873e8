use tetris_lib::board::{GameBoard, GameBoardData};
use tetris_lib::tetromino::{
    has_collision, is_legal, is_occupied, spawn_next, spawn_next_piece, Color, Movable, NextTetromino, Piece,
    Queue, Shape, Tetromino, Tile, Translation,
};

const ALL_SHAPES: [Shape; 7] = [Shape::I, Shape::J, Shape::L, Shape::O, Shape::S, Shape::T, Shape::Z];

fn free_piece(shape: Shape, blocks: [Tile; 4]) -> Piece {
    Piece { shape, blocks, movable: Movable { can_down: true, can_left: true, can_right: true } }
}

fn no_data() -> GameBoardData {
    GameBoardData { held: false, held_piece: None, next_piece: None }
}

#[test]
fn a_piece_on_free_cells_is_legal() {
    let tiles = vec![Tile(0, 0), Tile(1, 0)];
    let blocks = [Tile(2, 0), Tile(3, 0), Tile(4, 0), Tile(5, 0)];
    assert!(is_legal(&blocks, &tiles));
    assert!(!has_collision(&blocks, &tiles));
}

#[test]
fn a_piece_left_of_the_board_is_illegal() {
    let blocks = [Tile(-1, 0), Tile(0, 0), Tile(1, 0), Tile(2, 0)];
    assert!(!is_legal(&blocks, &Vec::new()));
    assert!(has_collision(&blocks, &Vec::new()));
}

#[test]
fn a_piece_right_of_the_board_is_illegal() {
    let blocks = [Tile(7, 0), Tile(8, 0), Tile(9, 0), Tile(10, 0)];
    assert!(!is_legal(&blocks, &Vec::new()));
    let inside = [Tile(6, 0), Tile(7, 0), Tile(8, 0), Tile(9, 0)];
    assert!(is_legal(&inside, &Vec::new()));
}

#[test]
fn a_piece_below_the_floor_is_illegal() {
    let blocks = [Tile(4, 0), Tile(4, -1), Tile(5, 0), Tile(5, 1)];
    assert!(!is_legal(&blocks, &Vec::new()));
}

#[test]
fn a_piece_on_a_landed_tile_is_illegal() {
    let tiles = vec![Tile(0, 0), Tile(5, 1)];
    let blocks = [Tile(4, 0), Tile(4, 1), Tile(5, 0), Tile(5, 1)];
    assert!(!is_legal(&blocks, &tiles));
    assert!(has_collision(&blocks, &tiles));
}

#[test]
fn a_piece_beside_a_landed_tile_is_legal() {
    let tiles = vec![Tile(3, 0), Tile(6, 1), Tile(4, 2)];
    let blocks = [Tile(4, 0), Tile(4, 1), Tile(5, 0), Tile(5, 1)];
    assert!(is_legal(&blocks, &tiles));
}

#[test]
fn rows_above_the_visible_board_are_legal() {
    let blocks = [Tile(4, 20), Tile(4, 21), Tile(5, 400), Tile(5, i32::MAX)];
    assert!(is_legal(&blocks, &Vec::new()));
}

#[test]
fn occupancy_is_by_cell() {
    let tiles = vec![Tile(3, 0), Tile(6, 1)];
    assert!(is_occupied(&tiles, 3, 0));
    assert!(is_occupied(&tiles, 6, 1));
    assert!(!is_occupied(&tiles, 6, 0));
    assert!(!is_occupied(&tiles, 3, 1));
    assert!(!is_occupied(&tiles, 3 + (1i64 << 32), 0));
}

#[test]
fn base_layouts() {
    assert_eq!(Shape::I.shape(), [Tile(3, 0), Tile(4, 0), Tile(5, 0), Tile(6, 0)]);
    assert_eq!(Shape::J.shape(), [Tile(3, 1), Tile(3, 0), Tile(4, 0), Tile(5, 0)]);
    assert_eq!(Shape::L.shape(), [Tile(3, 0), Tile(4, 0), Tile(5, 0), Tile(5, 1)]);
    assert_eq!(Shape::O.shape(), [Tile(4, 1), Tile(4, 0), Tile(5, 1), Tile(5, 0)]);
    assert_eq!(Shape::S.shape(), [Tile(3, 0), Tile(4, 0), Tile(4, 1), Tile(5, 1)]);
    assert_eq!(Shape::T.shape(), [Tile(3, 0), Tile(4, 1), Tile(4, 0), Tile(5, 0)]);
    assert_eq!(Shape::Z.shape(), [Tile(3, 1), Tile(4, 1), Tile(4, 0), Tile(5, 0)]);
    for shape in ALL_SHAPES {
        assert_eq!(Shape::shape_of(&shape), shape.shape());
    }
}

#[test]
fn shapes_by_number() {
    for (index, shape) in ALL_SHAPES.iter().enumerate() {
        assert_eq!(Shape::from_index(index as u32), Some(*shape));
    }
    assert_eq!(Shape::from_index(7), None);
    assert_eq!(Shape::from_index(u32::MAX), None);
    assert_eq!(Shape::VARIANTS, 7);
}

#[test]
fn shapes_have_names_and_colours() {
    let names: Vec<&str> = ALL_SHAPES.iter().map(|s| s.name()).collect();
    assert_eq!(names, vec!["I", "J", "L", "O", "S", "T", "Z"]);
    assert_eq!(Shape::I.color(), Color { r: 55, g: 84, b: 79 });
    assert_eq!(Shape::J.color(), Color { r: 54, g: 68, b: 96 });
    assert_eq!(Shape::L.color(), Color { r: 96, g: 66, b: 50 });
    assert_eq!(Shape::O.color(), Color { r: 93, g: 83, b: 62 });
    assert_eq!(Shape::S.color(), Color { r: 65, g: 86, b: 58 });
    assert_eq!(Shape::T.color(), Color { r: 78, g: 63, b: 96 });
    assert_eq!(Shape::Z.color(), Color { r: 93, g: 53, b: 59 });
}

#[test]
fn random_shapes_are_shapes() {
    let mut seen = [false; 7];
    for _ in 0..2000 {
        let shape = Shape::random();
        let index = ALL_SHAPES.iter().position(|s| *s == shape).unwrap();
        seen[index] = true;
    }
    assert!(seen.iter().all(|s| *s));
}

#[test]
fn random_n_draws_as_many_as_asked() {
    assert_eq!(Shape::random_n(0).len(), 0);
    assert_eq!(Shape::random_n(7).len(), 7);
    assert_eq!(Shape::random_n(50).len(), 50);
    let pieces = Tetromino::random_n(7);
    assert_eq!(pieces.len(), 7);
    for piece in &pieces {
        assert_eq!(*piece, Tetromino::new(piece.shape));
    }
}

#[test]
fn pieces_enter_twenty_rows_up() {
    let piece = Tetromino::new(Shape::T);
    assert_eq!(piece.shape, Shape::T);
    assert_eq!(piece.blocks, [Tile(3, 20), Tile(4, 21), Tile(4, 20), Tile(5, 20)]);
    let batch = Tetromino::batch_of(&vec![Shape::O, Shape::I]);
    assert_eq!(batch.len(), 2);
    assert_eq!(batch[0].blocks, [Tile(4, 21), Tile(4, 20), Tile(5, 21), Tile(5, 20)]);
    assert_eq!(batch[1].blocks, [Tile(3, 20), Tile(4, 20), Tile(5, 20), Tile(6, 20)]);
}

#[test]
fn shifting_moves_each_coordinate() {
    assert_eq!(Tile::shift(Tile(3, 4), Some(-1), None), Tile(2, 4));
    assert_eq!(Tile::shift(Tile(3, 4), None, Some(5)), Tile(3, 9));
    assert_eq!(Tile::shift(Tile(3, 4), Some(3), Some(-4)), Tile(6, 0));
    assert_eq!(Tile::shift(Tile(3, 4), None, None), Tile(3, 4));
    let blocks = [Tile(3, 0), Tile(4, 1), Tile(4, 0), Tile(5, 0)];
    assert_eq!(
        Tetromino::shift_piece(blocks, Some(-8), Some(12)),
        [Tile(-5, 12), Tile(-4, 13), Tile(-4, 12), Tile(-3, 12)]
    );
    assert_eq!(Tetromino::shift_piece(blocks, None, None), blocks);
}

#[test]
fn tiles_map_to_the_screen() {
    assert_eq!(Tile(0, 0).translation(), Translation { x: -135, y: -285 });
    assert_eq!(Tile(9, 19).translation(), Translation { x: 135, y: 285 });
    assert_eq!(Tile(5, 10).translation(), Translation { x: 15, y: 15 });
    assert_eq!(Tile(-8, 12).translation(), Translation { x: -375, y: 75 });
    assert_eq!(Tile::LENGTH, 30);
    assert_eq!(Tile::STICKER_LENGTH, 28);
}

#[test]
fn permissions_at_the_walls_and_the_floor() {
    let tiles = Vec::new();
    let at_left = [Tile(0, 5), Tile(1, 5), Tile(2, 5), Tile(3, 5)];
    assert_eq!(Movable::derive(&at_left, &tiles), Movable { can_down: true, can_left: false, can_right: true });
    let at_right = [Tile(6, 5), Tile(7, 5), Tile(8, 5), Tile(9, 5)];
    assert_eq!(Movable::derive(&at_right, &tiles), Movable { can_down: true, can_left: true, can_right: false });
    let on_floor = [Tile(3, 0), Tile(4, 0), Tile(5, 0), Tile(6, 0)];
    assert_eq!(Movable::derive(&on_floor, &tiles), Movable { can_down: false, can_left: true, can_right: true });
}

#[test]
fn permissions_beside_landed_tiles() {
    let blocks = [Tile(4, 1), Tile(4, 2), Tile(5, 1), Tile(5, 2)];
    assert_eq!(
        Movable::derive(&blocks, &vec![Tile(3, 2)]),
        Movable { can_down: true, can_left: false, can_right: true }
    );
    assert_eq!(
        Movable::derive(&blocks, &vec![Tile(6, 1)]),
        Movable { can_down: true, can_left: true, can_right: false }
    );
    assert_eq!(
        Movable::derive(&blocks, &vec![Tile(5, 0)]),
        Movable { can_down: false, can_left: true, can_right: true }
    );
    assert_eq!(
        Movable::derive(&blocks, &vec![Tile(3, 0), Tile(6, 3), Tile(4, 4)]),
        Movable { can_down: true, can_left: true, can_right: true }
    );
}

#[test]
fn update_pieces_refreshes_the_flags_of_the_piece_in_play() {
    let blocks = [Tile(0, 0), Tile(1, 0), Tile(2, 0), Tile(3, 0)];
    let mut board = GameBoard { piece: Some(free_piece(Shape::I, blocks)), tiles: vec![Tile(4, 0)] };
    Movable::update_pieces(&mut board);
    let piece = board.piece.unwrap();
    assert_eq!(piece.movable, Movable { can_down: false, can_left: false, can_right: false });
    assert_eq!(piece.blocks, blocks);
    assert_eq!(piece.shape, Shape::I);
    assert_eq!(board.tiles, vec![Tile(4, 0)]);
    let mut empty = GameBoard::new();
    Movable::update_pieces(&mut empty);
    assert_eq!(empty.piece, None);
}

#[test]
fn a_low_queue_is_refilled_by_a_whole_batch() {
    let mut queue = Queue::new();
    queue.extend(&vec![Tetromino::new(Shape::I), Tetromino::new(Shape::O)]);
    assert_eq!(queue.len(), 2);
    assert!(queue.is_low());
    queue.refill_if_low(&Tetromino::random_n(7));
    assert_eq!(queue.len(), 9);
    assert!(queue.len() >= 9);
    assert!(!queue.is_low());
    assert_eq!(queue.0[0], Tetromino::new(Shape::I));
    assert_eq!(queue.0[1], Tetromino::new(Shape::O));
}

#[test]
fn a_queue_that_is_not_low_is_left_alone() {
    let mut queue = Queue::new();
    queue.extend(&Tetromino::batch_of(&ALL_SHAPES.to_vec()));
    assert_eq!(queue.len(), 7);
    queue.refill_if_low(&Tetromino::random_n(7));
    assert_eq!(queue.len(), 7);
    assert_eq!(queue.next_shape(), Some(Shape::I));
}

#[test]
fn after_every_refill_check_seven_pieces_wait() {
    for start in 0..10usize {
        let mut queue = Queue::new();
        queue.extend(&Tetromino::random_n(start));
        queue.refill_if_low(&Tetromino::random_n(7));
        assert!(queue.len() >= 7);
        assert_eq!(queue.len(), if start < 7 { start + 7 } else { start });
    }
}

#[test]
fn spawning_takes_the_front_of_the_queue() {
    let mut board = GameBoard { piece: None, tiles: vec![Tile(0, 0)] };
    let mut data = GameBoardData { held: true, held_piece: Some(Shape::L), next_piece: Some(Shape::S) };
    let mut queue = Queue::new();
    queue.extend(&Tetromino::batch_of(&vec![Shape::S, Shape::Z]));
    assert!(spawn_next(&mut board, &mut data, &mut queue));
    assert_eq!(board.piece, Some(free_piece(Shape::S, Tetromino::new(Shape::S).blocks)));
    assert_eq!(board.tiles, vec![Tile(0, 0)]);
    assert_eq!(queue.len(), 1);
    assert_eq!(queue.next_shape(), Some(Shape::Z));
    assert_eq!(data, GameBoardData { held: false, held_piece: Some(Shape::L), next_piece: Some(Shape::S) });
}

#[test]
fn spawning_leaves_a_piece_in_play_alone() {
    let piece = Piece {
        shape: Shape::T,
        blocks: [Tile(3, 5), Tile(4, 6), Tile(4, 5), Tile(5, 5)],
        movable: Movable { can_down: true, can_left: false, can_right: true },
    };
    let mut board = GameBoard { piece: Some(piece), tiles: vec![Tile(0, 0)] };
    let mut data = GameBoardData { held: true, held_piece: Some(Shape::L), next_piece: None };
    let mut queue = Queue::new();
    queue.extend(&Tetromino::batch_of(&ALL_SHAPES.to_vec()));
    assert!(!spawn_next(&mut board, &mut data, &mut queue));
    assert!(!spawn_next_piece(&mut board, &mut data, &mut queue));
    assert_eq!(board.piece, Some(piece));
    assert_eq!(board.tiles, vec![Tile(0, 0)]);
    assert_eq!(data, GameBoardData { held: true, held_piece: Some(Shape::L), next_piece: None });
    assert_eq!(queue.len(), 7);
    assert_eq!(queue.next_shape(), Some(Shape::I));
}

#[test]
fn spawn_next_piece_fills_an_empty_queue_and_spawns() {
    let mut board = GameBoard::new();
    let mut data = no_data();
    data.held = true;
    let mut queue = Queue::new();
    assert!(spawn_next_piece(&mut board, &mut data, &mut queue));
    assert_eq!(queue.len(), 6);
    let piece = board.piece.unwrap();
    assert_eq!(piece.blocks, Tetromino::new(piece.shape).blocks);
    assert_eq!(piece.movable, Movable::free());
    assert!(!data.held);
    assert!(!spawn_next_piece(&mut board, &mut data, &mut queue));
    assert_eq!(queue.len(), 13);
    assert_eq!(board.piece, Some(piece));
}

#[test]
fn spawn_movable_and_spawn_frozen() {
    let mut board = GameBoard::new();
    Tetromino::new(Shape::O).spawn_frozen(&mut board);
    assert_eq!(board.tiles, vec![Tile(4, 21), Tile(4, 20), Tile(5, 21), Tile(5, 20)]);
    assert_eq!(board.piece, None);
    Tetromino::new(Shape::I).spawn_movable(&mut board);
    assert_eq!(board.piece, Some(free_piece(Shape::I, [Tile(3, 20), Tile(4, 20), Tile(5, 20), Tile(6, 20)])));
    assert_eq!(board.tiles.len(), 4);
}

#[test]
fn clear_all_wipes_the_board() {
    let mut board = GameBoard {
        piece: Some(free_piece(Shape::I, [Tile(3, 20), Tile(4, 20), Tile(5, 20), Tile(6, 20)])),
        tiles: vec![Tile(0, 0), Tile(1, 0)],
    };
    Tile::clear_all(&mut board);
    assert_eq!(board.piece, None);
    assert!(board.tiles.is_empty());
    Tile::clear_all(&mut board);
    assert_eq!(board.piece, None);
    assert!(board.tiles.is_empty());
}

#[test]
fn the_preview_follows_the_front_of_the_queue() {
    let mut preview = NextTetromino::new();
    let mut data = no_data();
    let mut queue = Queue::new();
    queue.extend(&Tetromino::batch_of(&vec![Shape::T, Shape::T, Shape::I]));
    assert!(preview.update(&queue, &mut data));
    assert_eq!(data.next_piece, Some(Shape::T));
    assert_eq!(preview.tiles, vec![Tile(-5, 12), Tile(-4, 13), Tile(-4, 12), Tile(-3, 12)]);
    assert!(!preview.update(&queue, &mut data));
    queue.0.pop_front();
    assert!(!preview.update(&queue, &mut data));
    queue.0.pop_front();
    assert!(preview.update(&queue, &mut data));
    assert_eq!(data.next_piece, Some(Shape::I));
    assert_eq!(preview.tiles, vec![Tile(-5, 12), Tile(-4, 12), Tile(-3, 12), Tile(-2, 12)]);
    preview.clear();
    assert!(preview.tiles.is_empty());
    assert_eq!(data.next_piece, Some(Shape::I));
}

#[test]
fn the_queue_can_be_emptied() {
    let mut queue = Queue::new();
    assert_eq!(queue.next_shape(), None);
    queue.extend(&Tetromino::random_n(3));
    queue.clear();
    assert_eq!(queue.len(), 0);
}

#[test]
fn a_tile_from_a_column_and_a_row() {
    assert_eq!(Tile::from([3, 7]), Tile(3, 7));
    let tile: Tile = [-1, 0].into();
    assert_eq!(tile, Tile(-1, 0));
}
