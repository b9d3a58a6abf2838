use chronos::canvas::{
    copy_square, draw_gauge, draw_glyph, fill_rect, get_pixel, paint_square, place_picture,
    put_pixel, tint_rect, Layout, Paint,
};
use chronos::font::glyph_for;
use chronos::logger::{drain, log, Logger};
use chronos::mouse::{draw_cursor_logic, handle_interrupt, init, Mouse};
use chronos::writer::{print, Writer};

const L: Layout = Layout { width: 40, height: 30, pitch: 48 };

fn frame() -> Vec<u32> {
    (0..48 * 30 + 7).map(|i| i as u32).collect()
}

#[test]
fn pixels_are_addressed_by_pitch() {
    let mut f = frame();
    put_pixel(&mut f, L, 5, 2, 0xdead);
    assert_eq!(f[2 * 48 + 5], 0xdead);
    assert_eq!(get_pixel(&f, L, 5, 2), 0xdead);
    assert_eq!(get_pixel(&f, L, 47, 29), (29 * 48 + 47) as u32);
}

#[test]
fn fill_rect_paints_only_visible_pixels() {
    let mut f = frame();
    fill_rect(&mut f, L, 35, 25, 100, 100, 9);
    for i in 0..f.len() {
        let (x, y) = (i % 48, i / 48);
        let on = (35..40).contains(&x) && (25..30).contains(&y);
        assert_eq!(f[i], if on { 9 } else { i as u32 });
    }
    let before = f.clone();
    fill_rect(&mut f, L, 40, 0, 5, 5, 1);
    fill_rect(&mut f, L, 0, 30, 5, 5, 1);
    assert_eq!(f, before);
}

#[test]
fn glyphs_are_drawn_in_grey() {
    let mut f = vec![0x123456u32; 48 * 30];
    let g = glyph_for('#');
    draw_glyph(&mut f, L, &g, 36, 20);
    let mut greys = 0;
    for i in 0..f.len() {
        let (x, y) = (i % 48, i / 48);
        let v = if (36..40).contains(&x) && (20..30).contains(&y) { g.rows[y - 20][x - 36] } else { 0 };
        if v > 0 {
            greys += 1;
            let v = v as u32;
            assert_eq!(f[i], (v << 16) | (v << 8) | v);
        } else {
            assert_eq!(f[i], 0x123456);
        }
    }
    assert!(greys > 5);
}

#[test]
fn squares_are_copied_and_pasted() {
    let mut f = frame();
    let saved = copy_square(&f, L, 3, 4);
    for k in 0..100 {
        assert_eq!(saved[k], ((4 + k / 10) * 48 + 3 + k % 10) as u32);
    }
    paint_square(&mut f, L, 3, 4, &Paint::Pointer);
    assert_eq!(f[4 * 48 + 3], 0xFF000000);
    assert_eq!(f[5 * 48 + 4], 0xFFFFFFFF);
    assert_eq!(f[13 * 48 + 12], 0xFF000000);
    assert_eq!(f[12 * 48 + 11], 0xFFFFFFFF);
    assert_eq!(f[14 * 48 + 3], (14 * 48 + 3) as u32);
    paint_square(&mut f, L, 3, 4, &Paint::Block(saved));
    assert_eq!(f, frame());
    paint_square(&mut f, L, 35, 25, &Paint::Pointer);
    assert_eq!(f[29 * 48 + 39], 0xFFFFFFFF);
    assert_eq!(f[29 * 48 + 40], (29 * 48 + 40) as u32);
    assert_eq!(f[30 * 48], (30 * 48) as u32);
}

#[test]
fn tint_blends_with_blue() {
    let mut f = vec![0x00ff_8040u32; 48 * 30];
    tint_rect(&mut f, L, 38, 28, 9, 18);
    for i in 0..f.len() {
        let (x, y) = (i % 48, i / 48);
        let on = (38..40).contains(&x) && (28..30).contains(&y);
        assert_eq!(f[i], if on { 0x007f_40a0 } else { 0x00ff_8040 });
    }
}

#[test]
fn pictures_are_placed_and_clipped() {
    let mut f = vec![0u32; 48 * 30];
    let picture: Vec<u32> = (1..=12).collect();
    place_picture(&mut f, L, &picture, 38, 1, 4, 3);
    for i in 0..f.len() {
        let (x, y) = (i % 48, i / 48);
        let expect = if (38..40).contains(&x) && (1..4).contains(&y) {
            picture[(y - 1) * 4 + (x - 38)]
        } else {
            0
        };
        assert_eq!(f[i], expect);
    }
}

#[test]
fn gauge_shows_the_share_of_the_budget() {
    let layout = Layout { width: 100, height: 20, pitch: 100 };
    for (elapsed, bar, color) in [
        (0u64, 0usize, 0x0000FF00u32),
        (25_000_000, 50, 0x0000FF00),
        (39_999_999, 79, 0x0000FF00),
        (40_000_000, 80, 0x00FFFF00),
        (49_999_999, 99, 0x00FFFF00),
        (50_000_000, 100, 0x00FF0000),
        (u64::MAX, 100, 0x00FF0000),
    ] {
        let mut f = vec![7u32; 2000];
        draw_gauge(&mut f, layout, elapsed);
        for i in 0..2000 {
            let (x, y) = (i % 100, i / 100);
            let expect = if y < 12 { 7 } else if x < bar { color } else { 0x00222222 };
            assert_eq!(f[i], expect, "elapsed {elapsed} at {x},{y}");
        }
    }
}

#[test]
fn writer_starts_at_the_padding() {
    let w = Writer::init(0xb8000, 640, 480, 640);
    assert_eq!((w.video_ptr, w.width, w.height, w.pitch), (0xb8000, 640, 480, 640));
    assert_eq!((w.cursor_x, w.cursor_y), (10, 10));
}

#[test]
fn writer_clears_to_blue() {
    let mut w = Writer::init(0, 40, 30, 48);
    w.cursor_x = 33;
    let mut f = frame();
    w.clear(&mut f);
    for i in 0..f.len() {
        let (x, y) = (i % 48, i / 48);
        assert_eq!(f[i], if x < 40 && y < 30 { 0x00102040 } else { i as u32 });
    }
    assert_eq!((w.cursor_x, w.cursor_y), (10, 10));
}

#[test]
fn writer_writes_glyphs_and_wraps() {
    let mut w = Writer::init(0, 100, 100, 100);
    let mut f = vec![0u32; 10000];
    w.write_char(&mut f, 'A');
    assert_eq!((w.cursor_x, w.cursor_y), (17, 10));
    let mut alone = vec![0u32; 10000];
    draw_glyph(&mut alone, Layout { width: 100, height: 100, pitch: 100 }, &glyph_for('A'), 10, 10);
    assert_eq!(f, alone);
    w.write_string(&mut f, "bcdefghijkl");
    // 17 + 7 * 11 = 94: the next character finds 94 + 10 >= 100 and starts a new line
    assert_eq!((w.cursor_x, w.cursor_y), (94, 10));
    w.write_char(&mut f, 'm');
    assert_eq!((w.cursor_x, w.cursor_y), (17, 28));
    w.write_char(&mut f, '\n');
    assert_eq!((w.cursor_x, w.cursor_y), (10, 46));
}

#[test]
fn writer_backspace_blanks_a_cell() {
    let mut w = Writer::init(0, 100, 100, 100);
    let mut f = vec![0xffu32; 10000];
    w.cursor_x = 8;
    w.backspace(&mut f);
    assert_eq!(w.cursor_x, 8);
    assert!(f.iter().all(|p| *p == 0xff));
    w.cursor_x = 30;
    w.cursor_y = 95;
    w.write_char(&mut f, '\x08');
    assert_eq!((w.cursor_x, w.cursor_y), (21, 95));
    for i in 0..10000 {
        let (x, y) = (i % 100, i / 100);
        let on = (21..30).contains(&x) && y >= 95;
        assert_eq!(f[i], if on { 0x00102040 } else { 0xff });
    }
}

#[test]
fn writer_clears_a_full_screen() {
    let mut w = Writer::init(0, 100, 100, 100);
    let mut f = vec![1u32; 10000];
    w.cursor_y = 62;
    w.new_line(&mut f);
    assert_eq!((w.cursor_x, w.cursor_y), (10, 80));
    assert!(f.iter().all(|p| *p == 1));
    w.new_line(&mut f);
    assert_eq!((w.cursor_x, w.cursor_y), (10, 10));
    assert!(f.iter().all(|p| *p == 0x00102040));
}

#[test]
fn print_logs_and_draws() {
    let mut logger = Logger::new();
    let mut w = Writer::init(0, 100, 100, 100);
    let mut f = vec![0u32; 10000];
    print(&mut logger, &mut w, &mut f, "ok\n");
    assert_eq!(logger.queue, vec!["ok\n".to_string()]);
    assert_eq!((w.cursor_x, w.cursor_y), (10, 28));
    let mut direct = Writer::init(0, 100, 100, 100);
    let mut g = vec![0u32; 10000];
    direct.direct_print(&mut g, "ok\n");
    assert_eq!(f, g);
    assert_eq!(direct, w);
}

#[test]
fn logger_keeps_the_newest_messages() {
    let mut logger = Logger::new();
    for i in 0..51 {
        log(&mut logger, &format!("m{i}"));
    }
    assert_eq!(logger.queue.len(), 51);
    log(&mut logger, "m51");
    assert_eq!(logger.queue.len(), 51);
    assert_eq!(logger.queue[0], "m1");
    assert_eq!(logger.queue[50], "m51");
    let all = drain(&mut logger);
    assert_eq!(all.len(), 51);
    assert_eq!(all[0], "m1");
    assert!(logger.queue.is_empty());
    assert!(drain(&mut logger).is_empty());
}

#[test]
fn mouse_starts_in_the_middle() {
    let m = Mouse::new();
    assert_eq!((m.x, m.y, m.prev_x, m.prev_y), (512, 384, 512, 384));
    assert!(!m.left_button());
}

#[test]
fn mouse_init_draws_the_pointer() {
    let mut m = Mouse::new();
    m.x = 5;
    m.y = 6;
    let mut f = frame();
    init(&mut m, &mut f, 48, 40, 30);
    assert_eq!(f[6 * 48 + 5], 0xFF000000);
    assert_eq!(f[7 * 48 + 6], 0xFFFFFFFF);
    // the next redraw puts the hidden pixels back
    m.prev_x = 5;
    m.prev_y = 6;
    m.x = 20;
    m.y = 15;
    draw_cursor_logic(&mut m, &mut f, 48);
    assert_eq!(f[6 * 48 + 5], (6 * 48 + 5) as u32);
    assert_eq!(f[15 * 48 + 14], (15 * 48 + 14) as u32);
    assert_eq!(f[15 * 48 + 20], 0xFF000000);
    assert_eq!(f[24 * 48 + 29], 0xFF000000);
    assert_eq!(f[16 * 48 + 21], 0xFFFFFFFF);
}

#[test]
fn mouse_packets_move_the_pointer() {
    let mut m = Mouse::new();
    let mut f = vec![0u32; 1024 * 768];
    init(&mut m, &mut f, 1024, 1024, 768);
    // a first byte without bit 3 is dropped
    handle_interrupt(&mut m, &mut f, 1024, 0x00);
    handle_interrupt(&mut m, &mut f, 1024, 0x09);
    assert!(m.left_button());
    handle_interrupt(&mut m, &mut f, 1024, 10);
    assert_eq!((m.x, m.y), (512, 384));
    handle_interrupt(&mut m, &mut f, 1024, 20);
    assert_eq!((m.x, m.y, m.prev_x, m.prev_y), (522, 364, 512, 384));
    assert_eq!(f[364 * 1024 + 522], 0xFF000000);
    assert_eq!(f[384 * 1024 + 512], 0);
    // negative movement: sign bits in the first byte
    for b in [0x38u8, 0xf6, 0xfb] {
        handle_interrupt(&mut m, &mut f, 1024, b);
    }
    assert_eq!((m.x, m.y), (512, 369));
    assert!(!m.left_button());
    // held on the screen
    for _ in 0..10 {
        for b in [0x08u8, 255, 255] {
            handle_interrupt(&mut m, &mut f, 1024, b);
        }
    }
    assert_eq!((m.x, m.y), (1014, 0));
    for _ in 0..10 {
        for b in [0x38u8, 0, 0] {
            handle_interrupt(&mut m, &mut f, 1024, b);
        }
    }
    assert_eq!((m.x, m.y), (0, 758));
    // a packet without movement redraws nothing
    let still = f.clone();
    for b in [0x08u8, 0, 0] {
        handle_interrupt(&mut m, &mut f, 1024, b);
    }
    assert_eq!(f, still);
    assert_eq!((m.prev_x, m.prev_y), (0, 758));
}
