use blockies::classic::{Classic, IconError};
use blockies::grid::{create_image_data, effective_width, grid_draw_count};
use blockies::seed::Seed;
use pixelate::Color;

const PNG_SIGNATURE: [u8; 8] = [137, 80, 78, 71, 13, 10, 26, 10];

fn alternating(n: usize) -> Vec<bool> {
    (0..n).map(|i| i % 3 == 0).collect()
}

#[test]
fn zero_seed_starts_at_zero() {
    let mut seed = Seed::new(&[0u8; 20]);
    assert_eq!(seed.state(), 0);
    assert_eq!(seed.next_state(), 0);
    assert_eq!(seed.state(), 1);
    assert_eq!(seed.next_state(), 1);
}

#[test]
fn empty_seed_starts_at_zero() {
    assert_eq!(Seed::new(&[]).state(), 0);
}

#[test]
fn even_seed_xors_big_endian_chunks() {
    assert_eq!(Seed::new(&[0x12, 0x34, 0x56, 0x78]).state(), 0x1234 ^ 0x5678);
}

#[test]
fn odd_seed_folds_trailing_byte_high() {
    assert_eq!(Seed::new(&[0x12, 0x34, 0x56]).state(), 0x1234 ^ 0x5600);
    assert_eq!(Seed::new(&[0xff]).state(), 0xff00);
}

#[test]
fn trailing_byte_changes_the_draws() {
    let even = Seed::new(&[1, 2, 3, 4]);
    let odd = Seed::new(&[1, 2, 3, 4, 5]);
    assert_ne!(even.state(), odd.state());
    assert_eq!(odd.state(), even.state() ^ 0x0500);
}

#[test]
fn trailing_zero_byte_keeps_the_state() {
    assert_eq!(Seed::new(&[1, 2]).state(), Seed::new(&[1, 2, 0]).state());
}

#[test]
fn width_is_widened_to_even() {
    assert_eq!(effective_width(7), 8);
    assert_eq!(effective_width(8), 8);
    assert_eq!(effective_width(0), 0);
    assert_eq!(effective_width(1), 2);
}

#[test]
fn draw_count_is_half_a_row_per_row() {
    assert_eq!(grid_draw_count(8), 32);
    assert_eq!(grid_draw_count(7), 28);
    assert_eq!(grid_draw_count(0), 0);
}

#[test]
fn grid_mirrors_each_row() {
    let size = 7;
    let w = effective_width(size);
    let bits = alternating(grid_draw_count(size));
    let grid = create_image_data(size, &bits);
    assert_eq!(grid.len(), size * w);
    for r in 0..size {
        for c in 0..w {
            assert_eq!(grid[r * w + c], grid[r * w + (w - 1 - c)]);
        }
    }
}

#[test]
fn grid_takes_draws_row_by_row() {
    let bits = vec![true, false, false, true, false, true];
    let grid = create_image_data(3, &bits);
    assert_eq!(
        grid,
        vec![1, 0, 0, 1, 0, 1, 1, 0, 0, 1, 1, 0]
    );
}

#[test]
fn grid_of_size_zero_is_empty() {
    assert!(create_image_data(0, &Vec::new()).is_empty());
}

#[test]
fn default_settings() {
    let gen = Classic::default();
    assert_eq!(gen.size, 8);
    assert_eq!(gen.scale, 16);
    assert!(gen.color.is_none());
    assert!(gen.background_color.is_none());
}

#[test]
fn drawn_color_reads_the_seed_state() {
    let gen = Classic::default();
    assert_eq!(gen.color_state(&[0x12, 0x34]), Some(0x1234));
    let fixed = Classic { color: Some(Color::Rgb(1, 2, 3)), ..Classic::default() };
    assert_eq!(fixed.color_state(&[0x12, 0x34]), None);
}

#[test]
fn grid_draws_follow_color_draws() {
    let seed = [0x12, 0x34];
    let drawn = Classic::default();
    let fixed = Classic { color: Some(Color::Rgb(1, 2, 3)), ..Classic::default() };
    let a = drawn.grid_states(&seed);
    let b = fixed.grid_states(&seed);
    assert_eq!(a.len(), 32);
    assert_eq!(b.len(), 32);
    assert_eq!(b[0], 0x1234);
    assert_eq!(a[0], 0x1237);
    for i in 0..32 {
        assert_eq!(b[i], 0x1234 + i as u64);
        assert_eq!(a[i], b[i] + 3);
    }
}

#[test]
fn fixed_colors_bypass_drawing() {
    let fg = Color::Rgb(10, 20, 30);
    let bg = Color::Rgba(1, 2, 3, 4);
    let gen = Classic { color: Some(fg), background_color: Some(bg), ..Classic::default() };
    assert_eq!(gen.palette(None), vec![bg, fg]);
    assert_eq!(gen.palette(Some(Color::Rgb(9, 9, 9))), vec![bg, fg]);
    assert_eq!(gen.color_state(&[7, 7, 7]), None);
    assert_eq!(gen.grid_states(&[0, 0])[0], 0);
}

#[test]
fn default_background_is_white() {
    let gen = Classic::default();
    let fg = Color::Rgb(10, 20, 30);
    assert_eq!(gen.palette(Some(fg)), vec![Color::Rgb(255, 255, 255), fg]);
}

#[test]
fn icon_is_a_png() {
    let gen = Classic::default();
    let bits = alternating(grid_draw_count(gen.size));
    let png = gen.create_icon(Some(Color::Rgb(200, 10, 10)), &bits).unwrap();
    assert!(png.len() > PNG_SIGNATURE.len());
    assert_eq!(&png[..8], &PNG_SIGNATURE);
}

#[test]
fn icon_is_deterministic() {
    let gen = Classic { size: 7, scale: 3, ..Classic::default() };
    let bits = alternating(grid_draw_count(7));
    let a = gen.create_icon(Some(Color::Rgb(1, 2, 3)), &bits);
    let b = gen.create_icon(Some(Color::Rgb(1, 2, 3)), &bits);
    assert_eq!(a, b);
}

#[test]
fn icon_depends_on_the_draws() {
    let gen = Classic::default();
    let n = grid_draw_count(gen.size);
    let a = gen.create_icon(Some(Color::Rgb(1, 2, 3)), &alternating(n)).unwrap();
    let b = gen.create_icon(Some(Color::Rgb(1, 2, 3)), &vec![false; n]).unwrap();
    let c = gen.create_icon(Some(Color::Rgb(3, 2, 1)), &vec![false; n]).unwrap();
    assert_ne!(a, b);
    assert_ne!(b, c);
}

#[test]
fn icon_never_fails_on_a_two_colour_palette() {
    let gen = Classic { size: 1, scale: 1, ..Classic::default() };
    let r: Result<Vec<u8>, IconError> = gen.create_icon(Some(Color::Rgb(0, 0, 0)), &vec![true]);
    assert!(r.is_ok());
}

#[test]
fn drawn_mode_sees_the_fixed_mode_stream_three_draws_on() {
    let drawn = Classic::default();
    let fixed = Classic {
        color: Some(Color::Rgb(1, 2, 3)),
        background_color: Some(Color::Rgb(4, 5, 6)),
        ..Classic::default()
    };
    let drawn_states = drawn.grid_states(&[0, 0]);
    assert_eq!(drawn_states, fixed.grid_states(&[0, 3]));
    let bit_of = |states: Vec<u64>| -> Vec<bool> { states.iter().map(|s| s % 2 == 0).collect() };
    let from_drawn = create_image_data(8, &bit_of(drawn_states));
    let from_fixed = create_image_data(8, &bit_of(fixed.grid_states(&[0, 3])));
    assert_eq!(from_drawn, from_fixed);
    let same_seed_fixed = create_image_data(8, &bit_of(fixed.grid_states(&[0, 0])));
    assert_ne!(from_drawn, same_seed_fixed);
}
