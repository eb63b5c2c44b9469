use rust_tetris::playfield::check_collision;
use rust_tetris::render::{text_pixel_rects, PixelRect};
use rust_tetris::tetromino::spawn_tetromino;

#[test]
fn test_spawn_tetromino() {
    let tetromino = spawn_tetromino(10);
    assert!(tetromino.x >= 0 && tetromino.x < 10);
    assert!(tetromino.y >= 0);
}

#[test]
fn test_check_collision() {
    let mut playfield = vec![vec![0; 10]; 20];
    let tetromino = spawn_tetromino(10);
    assert_eq!(check_collision(&tetromino.blocks, &playfield, tetromino.x, tetromino.y), false);
    playfield[10][5] = 1;
    assert_eq!(check_collision(&tetromino.blocks, &playfield, 5, 10), true);
}

fn rect(x: i32, y: i32, width: u32, height: u32) -> PixelRect {
    PixelRect { x, y, width, height }
}

#[test]
fn test_render_text() {
    // The glyph of 'A' in the 5x7 bitmap font.
    let glyph_a: Vec<u8> = vec![0b01110, 0b10001, 0b10001, 0b11111, 0b10001, 0b10001, 0b10001];
    let rects = text_pixel_rects(&vec![Some(glyph_a)], 0, 0, 1);

    let expected_rects = vec![
        rect(1, 0, 1, 1), rect(2, 0, 1, 1), rect(3, 0, 1, 1),
        rect(0, 1, 1, 1), rect(4, 1, 1, 1),
        rect(0, 2, 1, 1), rect(4, 2, 1, 1),
        rect(0, 3, 1, 1), rect(1, 3, 1, 1), rect(2, 3, 1, 1), rect(3, 3, 1, 1), rect(4, 3, 1, 1),
        rect(0, 4, 1, 1), rect(4, 4, 1, 1),
        rect(0, 5, 1, 1), rect(4, 5, 1, 1),
        rect(0, 6, 1, 1), rect(4, 6, 1, 1),
    ];

    assert_eq!(rects.len(), expected_rects.len());
    for r in &expected_rects {
        assert!(rects.contains(r));
    }
}
