use photopainter::epaper::buffer::{DisplayBuffer, Pixel};
use photopainter::epaper::{Color, Rgb888};
use photopainter::{EPD_7IN3F_HEIGHT, EPD_7IN3F_IMAGE_SIZE, EPD_7IN3F_WIDTH};

#[test]
fn new_buffer_is_zeroed() {
    let buf = DisplayBuffer::new(false);
    for x in [0usize, 1, 399, 799] {
        for y in [0usize, 1, 240, 479] {
            assert_eq!(buf.get_pixel(x, y), 0);
        }
    }
}

#[test]
fn set_pixel_reads_back_every_color() {
    let mut buf = DisplayBuffer::new(false);
    let colors = [
        (Color::Black, 0u8),
        (Color::White, 1),
        (Color::Green, 2),
        (Color::Blue, 3),
        (Color::Red, 4),
        (Color::Yellow, 5),
        (Color::Orange, 6),
        (Color::Clean, 7),
    ];
    for (i, (c, idx)) in colors.iter().enumerate() {
        let x = 10 + 3 * i;
        let y = 20 + 2 * i;
        buf.set_pixel(x, y, *c);
        assert_eq!(buf.get_pixel(x, y), *idx);
    }
}

#[test]
fn set_pixel_reads_back_under_rotation() {
    let mut buf = DisplayBuffer::new(true);
    buf.set_pixel(3, 7, Color::Red);
    assert_eq!(buf.get_pixel(3, 7), 4);
    // the physical storage is at the rotated coordinate
    assert_eq!(buf.get_pixel(EPD_7IN3F_WIDTH - 1 - 3, EPD_7IN3F_HEIGHT - 1 - 7), 0);
}

#[test]
fn set_pixel_out_of_range_is_noop() {
    let mut buf = DisplayBuffer::new(true);
    buf.set_pixel(EPD_7IN3F_WIDTH, 0, Color::Red);
    buf.set_pixel(0, EPD_7IN3F_HEIGHT, Color::Red);
    buf.set_pixel(usize::MAX, usize::MAX, Color::Red);
    for x in [0usize, 1, 799] {
        for y in [0usize, 1, 479] {
            assert_eq!(buf.get_pixel(x, y), 0);
        }
    }
}

#[test]
fn draw_iter_out_of_bounds_leaves_buffer_unchanged() {
    let mut buf = DisplayBuffer::new(false);
    let red = Rgb888::new(255, 0, 0);
    let pixels = [
        Pixel { x: -1, y: 0, color: red },
        Pixel { x: 0, y: -1, color: red },
        Pixel { x: 800, y: 0, color: red },
        Pixel { x: 0, y: 480, color: red },
        Pixel { x: i32::MIN, y: i32::MAX, color: red },
    ];
    buf.draw_iter(&pixels);
    for x in [0usize, 1, 399, 799] {
        for y in [0usize, 1, 240, 479] {
            assert_eq!(buf.get_pixel(x, y), 0);
        }
    }
}

#[test]
fn draw_iter_reduces_colors_to_palette() {
    let mut buf = DisplayBuffer::new(false);
    let pixels = [
        Pixel { x: 0, y: 0, color: Rgb888::new(0, 0, 0) },
        Pixel { x: 1, y: 0, color: Rgb888::new(255, 255, 255) },
        Pixel { x: 2, y: 0, color: Rgb888::new(0, 255, 0) },
        Pixel { x: 3, y: 0, color: Rgb888::new(0, 0, 255) },
        Pixel { x: 4, y: 0, color: Rgb888::new(255, 0, 0) },
        Pixel { x: 5, y: 0, color: Rgb888::new(255, 255, 0) },
        Pixel { x: 6, y: 0, color: Rgb888::new(255, 165, 0) },
        // an unmapped color defaults to white, never to the erase sentinel
        Pixel { x: 7, y: 0, color: Rgb888::new(12, 34, 56) },
    ];
    buf.draw_iter(&pixels);
    for (x, want) in [(0, 0u8), (1, 1), (2, 2), (3, 3), (4, 4), (5, 5), (6, 6), (7, 1)] {
        assert_eq!(buf.get_pixel(x, 0), want);
    }
}

#[test]
fn draw_iter_honors_rotation() {
    let mut rotated = DisplayBuffer::new(true);
    let pixels = [Pixel { x: 5, y: 6, color: Rgb888::new(0, 0, 255) }];
    rotated.draw_iter(&pixels);
    assert_eq!(rotated.get_pixel(5, 6), 3);
}

#[test]
fn rotation_round_trip_preserves_first_write() {
    let mut buf = DisplayBuffer::new(true);
    // pairs whose rotated partners sit close by in x, including x and
    // width-1-x differing by 1
    for (x, y) in [(0usize, 0usize), (399, 100), (400, 100), (123, 239), (799, 479)] {
        let rx = EPD_7IN3F_WIDTH - 1 - x;
        let ry = EPD_7IN3F_HEIGHT - 1 - y;
        buf.set_pixel(x, y, Color::Red);
        buf.set_pixel(rx, ry, Color::Green);
        assert_eq!(buf.get_pixel(x, y), 4, "first write corrupted at ({x},{y})");
        assert_eq!(buf.get_pixel(rx, ry), 2);
    }
}

#[test]
fn fill_sets_every_nibble() {
    let mut buf = DisplayBuffer::new(false);
    buf.fill(Color::White);
    for x in 0..EPD_7IN3F_WIDTH {
        for y in [0usize, 239, 479] {
            assert_eq!(buf.get_pixel(x, y), 1);
        }
    }
    let row = buf.row_bytes(7);
    assert_eq!(row.len(), EPD_7IN3F_WIDTH / 2);
    assert!(row.iter().all(|b| *b == 0x11));
}

#[test]
fn bounding_box_reports_full_panel() {
    let buf = DisplayBuffer::new(true);
    assert_eq!(buf.bounding_box(), ((0, 0), (800, 480)));
}

#[test]
fn row_bytes_match_set_pixels() {
    let mut buf = DisplayBuffer::new(false);
    buf.set_pixel(0, 3, Color::Red);
    buf.set_pixel(1, 3, Color::Blue);
    let row = buf.row_bytes(3);
    assert_eq!(row.len(), 400);
    assert_eq!(row[0], 0x43);
    assert!(row[1..].iter().all(|b| *b == 0));
    assert_eq!(EPD_7IN3F_IMAGE_SIZE, 192000);
}
