//! Screen positions, colors, and the truncating character buffer.

use snakeos::display::{Color, BLOCK_SIZE};
use snakeos::game2048::{tile_color, tile_color2, Tile};
use snakeos::world::{CharsBuf, ScreenPos};

#[test]
fn chars_buf_truncate() {
    let mut n2 = CharsBuf::<2>::new();
    n2.write_str(&format!("{}", 1));
}

#[test]
fn chars_buf_takes_only_what_fits() {
    let mut b = CharsBuf::<4>::new();
    b.write_str("ab");
    assert_eq!(b.len(), 2);
    b.write_str("cdef");
    assert_eq!(b.len(), 4);
    assert_eq!(b.chars(), vec!['a', 'b', 'c', 'd']);
    b.write_str("x");
    assert_eq!(b.chars(), vec!['a', 'b', 'c', 'd']);
}

#[test]
fn screen_pos_moves() {
    let p = ScreenPos::new(100, 60);
    assert_eq!(p.up(10), ScreenPos::new(100, 50));
    assert_eq!(p.down(10), ScreenPos::new(100, 70));
    assert_eq!(p.left(30), ScreenPos::new(70, 60));
    assert_eq!(p.right(30), ScreenPos::new(130, 60));
    assert_eq!(p.center(), ScreenPos::new(50, 30));
    assert_eq!(p.up_blocks(2, BLOCK_SIZE), ScreenPos::new(100, 44));
    assert_eq!(p.down_blocks(2, BLOCK_SIZE), ScreenPos::new(100, 76));
    assert_eq!(p.left_blocks(3, BLOCK_SIZE), ScreenPos::new(76, 60));
    assert_eq!(p.right_blocks(3, BLOCK_SIZE), ScreenPos::new(124, 60));
}

#[test]
fn tile_colors_follow_the_palettes() {
    let t = |val: Option<u64>| Tile { val, changed: false, row: 0, col: 0 };
    assert_eq!(tile_color(&t(None)), Color::White);
    assert_eq!(tile_color(&t(Some(2))), Color::RGB32(0xeee4da));
    assert_eq!(tile_color(&t(Some(2048))), Color::RGB32(0xedc22e));
    assert_eq!(tile_color(&t(Some(3))), Color::Red);
    assert_eq!(tile_color2(&t(None)), Color::RGB32(0x323846));
    assert_eq!(tile_color2(&t(Some(2))), Color::RGB32(0xe91e63));
    assert_eq!(tile_color2(&t(Some(4096))), Color::Red);
}

#[test]
fn packed_color_splits_into_channels() {
    assert_eq!(Color::RGB32(0xeee4da).rgb(), (0xee, 0xe4, 0xda));
    assert_eq!(Color::White.rgb(), (255, 255, 255));
    assert_eq!(Color::Black.rgb(), (0, 0, 0));
}
