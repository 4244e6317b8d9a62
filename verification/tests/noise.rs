use fastnoise_lite::{FastNoiseLite, NoiseType};
use noise_world::palette::quantize_level;
use noise_world::{render_chunks_on_screen, Chunk, Generator, Pos, World, NOISE_ONE};

fn simplex(seed: i32) -> FastNoiseLite {
    let mut noise = FastNoiseLite::new();
    noise.set_seed(Some(seed));
    noise.set_noise_type(Some(NoiseType::OpenSimplex2S));
    noise.set_frequency(Some(0.02));
    noise
}

fn to_fixed(value: f32) -> i32 {
    (value * NOISE_ONE as f32).floor() as i32
}

fn level_of(value: f32) -> usize {
    if value < -0.5 {
        0
    } else if value < 0.0 {
        1
    } else if value < 0.5 {
        2
    } else {
        3
    }
}

fn grid_of(chunk: &Chunk) -> Vec<u8> {
    let mut grid = Vec::new();
    for ly in 0..128usize {
        grid.extend(chunk.row(ly, 0, 128));
    }
    grid
}

#[test]
fn fixed_point_samples_keep_the_level_of_the_noise_value() {
    let noise = simplex(1337);
    for y in -200..200 {
        for x in -200..200 {
            let value = noise.get_noise_2d(x as f32, y as f32);
            assert!((-1.0..=1.0).contains(&value));
            assert_eq!(quantize_level(to_fixed(value)), level_of(value));
        }
    }
}

#[test]
fn fixed_point_conversion_of_chosen_values() {
    assert_eq!(to_fixed(1.0), NOISE_ONE);
    assert_eq!(to_fixed(-1.0), -NOISE_ONE);
    assert_eq!(to_fixed(0.0), 0);
    assert_eq!(to_fixed(0.5), 32768);
    assert_eq!(to_fixed(-0.5), -32768);
    assert_eq!(to_fixed(-0.000001), -1);
    assert_eq!(quantize_level(to_fixed(1.0)), 3);
    assert_eq!(quantize_level(to_fixed(-1.0)), 0);
    assert_eq!(quantize_level(to_fixed(-0.000001)), 1);
    assert_eq!(quantize_level(to_fixed(0.49999997)), 2);
}

#[test]
fn chunks_from_simplex_noise_are_deterministic_for_a_seed() {
    let first = simplex(42);
    let second = simplex(42);
    let a = Generator::new(move |x: i32, y: i32| to_fixed(first.get_noise_2d(x as f32, y as f32)));
    let b = Generator::new(move |x: i32, y: i32| to_fixed(second.get_noise_2d(x as f32, y as f32)));
    let pos = Pos { x: -3, y: 7 };
    let once = grid_of(&a.generate_chunk(pos));
    assert_eq!(once, grid_of(&a.generate_chunk(pos)));
    assert_eq!(once, grid_of(&b.generate_chunk(pos)));
    let glyphs: Vec<u8> = vec![b' ', b'.', b'o', b'#'];
    assert!(once.iter().all(|glyph| glyphs.contains(glyph)));
    assert!(once.iter().any(|&glyph| glyph != once[0]));
}

#[test]
fn world_over_simplex_noise_draws_a_full_frame() {
    let noise = simplex(7);
    let check = simplex(7);
    let mut world = World::new(move |x: i32, y: i32| to_fixed(noise.get_noise_2d(x as f32, y as f32)));
    let camera = Pos { x: -37, y: 101 };
    let rows = render_chunks_on_screen(&mut world, camera, 80, 40);
    let glyphs = [b' ', b'.', b'o', b'#'];
    let mut screen = vec![0u8; 80 * 40];
    for write in rows.iter() {
        for (j, &glyph) in write.glyphs.iter().enumerate() {
            screen[write.row as usize * 80 + write.col as usize + j] = glyph;
        }
    }
    for sy in 0..40 {
        for sx in 0..80 {
            let value = check.get_noise_2d((camera.x + sx) as f32, (camera.y + sy) as f32);
            assert_eq!(screen[sy as usize * 80 + sx as usize], glyphs[level_of(value)]);
        }
    }
    assert_eq!(world.chunk_count(), 4);
}
