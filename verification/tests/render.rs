use noise_world::palette::quantize;
use noise_world::frame::fixed_camera_frame;
use noise_world::viewport::{can_render, first_chunk_of, last_chunk_of, visible_chunks};
use noise_world::{render_chunk, render_chunks_on_screen, Generator, Pos, RowWrite, World};

fn hills(x: i32, y: i32) -> i32 {
    let mixed = (x as i64) * 40_503 + (y as i64) * 65_599 + (x as i64) * (y as i64);
    (mixed.rem_euclid(131_073) - 65_536) as i32
}

fn screen_after(rows: &[RowWrite], width: u16, height: u16) -> Vec<Option<u8>> {
    let mut screen = vec![None; width as usize * height as usize];
    for write in rows.iter() {
        assert!(write.row < height);
        assert!(write.col as usize + write.glyphs.len() <= width as usize);
        for (j, &glyph) in write.glyphs.iter().enumerate() {
            let at = write.row as usize * width as usize + write.col as usize + j;
            assert!(screen[at].is_none());
            screen[at] = Some(glyph);
        }
    }
    screen
}

fn check_frame(camera: Pos, width: u16, height: u16) {
    let mut world = World::new(hills);
    let rows = render_chunks_on_screen(&mut world, camera, width, height);
    let screen = screen_after(&rows, width, height);
    for sy in 0..height as i32 {
        for sx in 0..width as i32 {
            let expected = quantize(hills(camera.x + sx, camera.y + sy));
            let at = sy as usize * width as usize + sx as usize;
            assert_eq!(screen[at], Some(expected));
        }
    }
    let positions = visible_chunks(camera, width, height);
    assert_eq!(world.chunk_count(), positions.len());
    for &pos in positions.iter() {
        assert!(world.contains(pos));
    }
}

#[test]
fn camera_at_origin_sees_one_chunk() {
    let camera = Pos { x: 0, y: 0 };
    assert_eq!(first_chunk_of(camera), Pos { x: 0, y: 0 });
    assert_eq!(last_chunk_of(camera, 80, 24), Pos { x: 0, y: 0 });
    assert_eq!(visible_chunks(camera, 80, 24), vec![Pos { x: 0, y: 0 }]);
    let generator = Generator::new(hills);
    let chunk = generator.generate_chunk(Pos { x: 0, y: 0 });
    let rows = render_chunk(camera, 80, 24, &chunk);
    assert_eq!(rows.len(), 24);
    for (k, write) in rows.iter().enumerate() {
        assert_eq!(write.col, 0);
        assert_eq!(write.row as usize, k);
        assert_eq!(write.glyphs, chunk.row(k, 0, 80));
    }
}

#[test]
fn negative_camera_sees_four_chunks() {
    let camera = Pos { x: -10, y: -10 };
    assert_eq!(first_chunk_of(camera), Pos { x: -1, y: -1 });
    assert_eq!(last_chunk_of(camera, 20, 20), Pos { x: 0, y: 0 });
    let positions = visible_chunks(camera, 20, 20);
    assert_eq!(positions.len(), 4);
    for pos in [Pos { x: -1, y: -1 }, Pos { x: -1, y: 0 }, Pos { x: 0, y: -1 }, Pos { x: 0, y: 0 }] {
        assert!(positions.contains(&pos));
    }
    assert_eq!(
        positions,
        vec![Pos { x: -1, y: -1 }, Pos { x: 0, y: -1 }, Pos { x: -1, y: 0 }, Pos { x: 0, y: 0 }]
    );
}

#[test]
fn negative_camera_rows_of_each_chunk() {
    let camera = Pos { x: -10, y: -10 };
    let generator = Generator::new(hills);
    let top_left = generator.generate_chunk(Pos { x: -1, y: -1 });
    let rows = render_chunk(camera, 20, 20, &top_left);
    assert_eq!(rows.len(), 10);
    for (k, write) in rows.iter().enumerate() {
        assert_eq!((write.col, write.row as usize), (0, k));
        assert_eq!(write.glyphs, top_left.row(118 + k, 118, 128));
    }
    let bottom_right = generator.generate_chunk(Pos { x: 0, y: 0 });
    let rows = render_chunk(camera, 20, 20, &bottom_right);
    assert_eq!(rows.len(), 10);
    for (k, write) in rows.iter().enumerate() {
        assert_eq!((write.col, write.row as usize), (10, 10 + k));
        assert_eq!(write.glyphs, bottom_right.row(k, 0, 10));
    }
    let top_right = generator.generate_chunk(Pos { x: 0, y: -1 });
    let rows = render_chunk(camera, 20, 20, &top_right);
    assert_eq!(rows.len(), 10);
    for (k, write) in rows.iter().enumerate() {
        assert_eq!((write.col, write.row as usize), (10, k));
        assert_eq!(write.glyphs, top_right.row(118 + k, 0, 10));
    }
}

#[test]
fn frame_shows_every_visible_cell_once() {
    check_frame(Pos { x: 0, y: 0 }, 80, 24);
    check_frame(Pos { x: -10, y: -10 }, 20, 20);
    check_frame(Pos { x: 100, y: 100 }, 80, 24);
    check_frame(Pos { x: -129, y: 127 }, 300, 5);
    check_frame(Pos { x: 1000, y: -1000 }, 1, 1);
    check_frame(Pos { x: -1, y: -1 }, 2, 2);
    check_frame(Pos { x: 127, y: 127 }, 1, 1);
    check_frame(Pos { x: 128, y: 128 }, 128, 128);
}

#[test]
fn frame_at_the_far_corner_of_the_world() {
    check_frame(Pos { x: i32::MAX - 40, y: i32::MAX - 12 }, 40, 12);
    check_frame(Pos { x: i32::MIN, y: i32::MIN }, 40, 12);
}

#[test]
fn chunk_that_only_touches_the_right_edge_draws_no_glyph() {
    let camera = Pos { x: 0, y: 0 };
    assert_eq!(last_chunk_of(camera, 128, 10), Pos { x: 1, y: 0 });
    assert_eq!(visible_chunks(camera, 128, 10), vec![Pos { x: 0, y: 0 }, Pos { x: 1, y: 0 }]);
    let generator = Generator::new(hills);
    let beyond = generator.generate_chunk(Pos { x: 1, y: 0 });
    let rows = render_chunk(camera, 128, 10, &beyond);
    assert_eq!(rows.len(), 10);
    for (k, write) in rows.iter().enumerate() {
        assert_eq!((write.col, write.row as usize), (127, k));
        assert!(write.glyphs.is_empty());
    }
}

#[test]
fn chunk_off_screen_gives_no_rows() {
    let generator = Generator::new(hills);
    let far = generator.generate_chunk(Pos { x: 50, y: 50 });
    assert!(render_chunk(Pos { x: 0, y: 0 }, 80, 24, &far).is_empty());
    let above = generator.generate_chunk(Pos { x: 0, y: -2 });
    assert!(render_chunk(Pos { x: 0, y: 0 }, 80, 24, &above).is_empty());
    let edge = generator.generate_chunk(Pos { x: -16_777_216, y: 16_777_215 });
    assert!(render_chunk(Pos { x: i32::MAX, y: i32::MIN }, 80, 24, &edge).is_empty());
}

#[test]
fn frame_is_the_rows_of_each_chunk_in_turn() {
    let camera = Pos { x: 120, y: -5 };
    let mut world = World::new(hills);
    let rows = render_chunks_on_screen(&mut world, camera, 30, 12);
    let mut expected: Vec<RowWrite> = Vec::new();
    for &pos in visible_chunks(camera, 30, 12).iter() {
        let chunk = world.chunk(pos).unwrap();
        expected.extend(render_chunk(camera, 30, 12, chunk));
    }
    assert_eq!(rows, expected);
}

#[test]
fn second_frame_generates_only_new_chunks() {
    let calls = std::cell::Cell::new(0usize);
    let counted = |x: i32, y: i32| {
        calls.set(calls.get() + 1);
        hills(x, y)
    };
    let mut world = World::new(counted);
    let first = render_chunks_on_screen(&mut world, Pos { x: 0, y: 0 }, 80, 24);
    assert_eq!(world.chunk_count(), 1);
    assert_eq!(calls.get(), 16384);
    let again = render_chunks_on_screen(&mut world, Pos { x: 0, y: 0 }, 80, 24);
    assert_eq!(world.chunk_count(), 1);
    assert_eq!(calls.get(), 16384);
    assert_eq!(first, again);
    render_chunks_on_screen(&mut world, Pos { x: 60, y: 0 }, 80, 24);
    assert_eq!(world.chunk_count(), 2);
    assert_eq!(calls.get(), 2 * 16384);
}

#[test]
fn visible_chunks_go_row_by_row() {
    let positions = visible_chunks(Pos { x: -200, y: 100 }, 300, 200);
    assert_eq!(first_chunk_of(Pos { x: -200, y: 100 }), Pos { x: -2, y: 0 });
    assert_eq!(last_chunk_of(Pos { x: -200, y: 100 }, 300, 200), Pos { x: 0, y: 2 });
    let mut expected = Vec::new();
    for y in 0..=2 {
        for x in -2..=0 {
            expected.push(Pos { x, y });
        }
    }
    assert_eq!(positions, expected);
}

#[test]
fn visible_chunks_cover_every_cell_on_screen() {
    let camera = Pos { x: -300, y: 250 };
    let positions = visible_chunks(camera, 500, 140);
    for sy in 0..140 {
        for sx in 0..500 {
            let cell = Pos { x: camera.x + sx, y: camera.y + sy };
            assert!(positions.contains(&cell.chunk_of()));
        }
    }
}

#[test]
fn largest_screen_is_accepted() {
    let positions = visible_chunks(Pos { x: 0, y: 0 }, u16::MAX, u16::MAX);
    assert_eq!(positions.len(), 512 * 512);
    assert_eq!(positions[0], Pos { x: 0, y: 0 });
    assert_eq!(positions[512 * 512 - 1], Pos { x: 511, y: 511 });
}

#[test]
fn can_render_tells_when_a_frame_can_be_drawn() {
    assert!(can_render(Pos { x: 0, y: 0 }, 80, 24));
    assert!(can_render(Pos { x: i32::MIN, y: i32::MIN }, u16::MAX, u16::MAX));
    assert!(can_render(Pos { x: i32::MAX - 80, y: i32::MAX - 24 }, 80, 24));
    assert!(!can_render(Pos { x: i32::MAX - 79, y: 0 }, 80, 24));
    assert!(!can_render(Pos { x: 0, y: i32::MAX - 23 }, 80, 24));
    assert!(!can_render(Pos { x: 0, y: 0 }, 0, 24));
    assert!(!can_render(Pos { x: 0, y: 0 }, 80, 0));
}

#[test]
fn fixed_camera_frame_samples_each_screen_cell() {
    let buffer = fixed_camera_frame(&hills, 7, 5, 0);
    assert_eq!(buffer.len(), 35);
    for y in 0..5 {
        for x in 0..7 {
            assert_eq!(buffer[y * 7 + x], quantize(hills(x as i32, y as i32)));
        }
    }
}

#[test]
fn fixed_camera_frame_scrolls_with_the_offset() {
    let still = fixed_camera_frame(&hills, 10, 6, 0);
    let moved = fixed_camera_frame(&hills, 10, 6, 1);
    assert_eq!(&still[10..], &moved[..50]);
    let far = fixed_camera_frame(&hills, 3, 2, -40);
    assert_eq!(far[0], quantize(hills(0, -40)));
    assert_eq!(far[5], quantize(hills(2, -39)));
    assert!(fixed_camera_frame(&hills, 0, 9, 3).is_empty());
    assert!(fixed_camera_frame(&hills, 9, 0, 3).is_empty());
}
