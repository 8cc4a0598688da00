use engine::drawing::{
    blit, draw_horizontal_unchecked, draw_line, draw_rectangle_unchecked, draw_triangle,
    draw_vertical_unchecked,
};
use engine::{Color, PixelSurface, Vec2};

const INK: Color = Color { r: 10, g: 20, b: 30, a: 255 };

fn blank(width: u32, height: u32) -> PixelSurface {
    PixelSurface::new(width, height, 0).unwrap()
}

/// The pixels of `surface` that hold `INK`, row by row.
fn inked(surface: &PixelSurface) -> Vec<(i32, i32)> {
    let mut found = Vec::new();
    for y in 0..surface.height() {
        for x in 0..surface.width() {
            match surface.get_pixel(x, y).unwrap() {
                (10, 20, 30) => found.push((x as i32, y as i32)),
                (0, 0, 0) => {}
                other => panic!("unexpected pixel {:?} at ({}, {})", other, x, y),
            }
        }
    }
    found
}

fn sorted(mut points: Vec<(i32, i32)>) -> Vec<(i32, i32)> {
    points.sort_by_key(|p| (p.1, p.0));
    points.dedup();
    points
}

/// The textbook error-accumulating walk, kept apart from the library.
fn walk(start: (i32, i32), end: (i32, i32)) -> Vec<(i32, i32)> {
    let dx = (end.0 - start.0).abs();
    let dy = -(end.1 - start.1).abs();
    let sx = if start.0 < end.0 { 1 } else { -1 };
    let sy = if start.1 < end.1 { 1 } else { -1 };
    let mut err = dx + dy;
    let (mut x, mut y) = start;
    let mut path = vec![(x, y)];
    while (x, y) != end {
        let e2 = 2 * err;
        if e2 >= dy {
            err += dy;
            x += sx;
        }
        if e2 <= dx {
            err += dx;
            y += sy;
        }
        path.push((x, y));
    }
    path
}

#[test]
fn line_with_gentle_slope_has_known_pixels() {
    let mut s = blank(8, 4);
    draw_line(Vec2::new(0, 0), Vec2::new(5, 2), &mut s, INK);
    assert_eq!(inked(&s), vec![(0, 0), (1, 0), (2, 1), (3, 1), (4, 2), (5, 2)]);
}

#[test]
fn line_with_steep_slope_has_known_pixels() {
    let mut s = blank(4, 8);
    draw_line(Vec2::new(3, 6), Vec2::new(1, 1), &mut s, INK);
    assert_eq!(inked(&s), vec![(1, 1), (1, 2), (2, 3), (2, 4), (3, 5), (3, 6)]);
}

#[test]
fn line_writes_three_bytes_per_pixel_at_row_major_offsets() {
    let mut s = blank(4, 3);
    draw_line(Vec2::new(1, 2), Vec2::new(2, 2), &mut s, Color::RGBA(7, 8, 9, 0));
    let mut expected = vec![0u8; 4 * 3 * 3];
    let first = (1 + 2 * 4) * 3;
    expected[first..first + 6].copy_from_slice(&[7, 8, 9, 7, 8, 9]);
    assert_eq!(s.bytes(), &expected[..]);
}

#[test]
fn line_matches_the_textbook_walk_for_every_direction() {
    let ends = [-7, -3, -1, 0, 1, 2, 5, 11, 12, 19, 25];
    for &sx in &ends {
        for &sy in &ends {
            for &ex in &ends {
                for &ey in &ends {
                    let mut s = blank(12, 20);
                    draw_line(Vec2::new(sx, sy), Vec2::new(ex, ey), &mut s, INK);
                    let path = walk((sx, sy), (ex, ey));
                    assert_eq!(path.len() as i32, (ex - sx).abs().max((ey - sy).abs()) + 1);
                    let visible: Vec<(i32, i32)> = path
                        .into_iter()
                        .filter(|p| 0 <= p.0 && p.0 < 12 && 0 <= p.1 && p.1 < 20)
                        .collect();
                    assert_eq!(inked(&s), sorted(visible), "({sx}, {sy}) to ({ex}, {ey})");
                }
            }
        }
    }
}

#[test]
fn line_plots_both_end_points() {
    let mut s = blank(64, 48);
    draw_line(Vec2::new(3, 40), Vec2::new(60, 5), &mut s, INK);
    assert_eq!(s.get_pixel(3, 40), Some((10, 20, 30)));
    assert_eq!(s.get_pixel(60, 5), Some((10, 20, 30)));
    assert_eq!(inked(&s).len(), 58);
}

#[test]
fn line_that_leaves_the_surface_is_clipped_and_still_ends() {
    let mut s = blank(4, 4);
    draw_line(Vec2::new(-2, -2), Vec2::new(6, 6), &mut s, INK);
    assert_eq!(inked(&s), vec![(0, 0), (1, 1), (2, 2), (3, 3)]);

    let mut s = blank(4, 4);
    draw_line(Vec2::new(2, 1), Vec2::new(-50, 1), &mut s, INK);
    assert_eq!(inked(&s), vec![(0, 1), (1, 1), (2, 1)]);
}

#[test]
fn line_entirely_off_the_surface_draws_nothing() {
    let mut s = blank(4, 4);
    draw_line(Vec2::new(10, 10), Vec2::new(20, 12), &mut s, INK);
    assert!(inked(&s).is_empty());
}

#[test]
fn line_between_far_apart_points_does_not_overflow() {
    let mut s = blank(3, 3);
    draw_line(Vec2::new(-70_000, 1), Vec2::new(70_000, 1), &mut s, INK);
    assert_eq!(inked(&s), vec![(0, 1), (1, 1), (2, 1)]);
}

#[test]
fn degenerate_line_on_the_surface_plots_one_pixel() {
    let mut s = blank(5, 5);
    draw_line(Vec2::new(2, 3), Vec2::new(2, 3), &mut s, INK);
    assert_eq!(inked(&s), vec![(2, 3)]);
}

#[test]
fn degenerate_line_off_the_surface_plots_nothing() {
    let mut s = blank(5, 5);
    draw_line(Vec2::new(5, 0), Vec2::new(5, 0), &mut s, INK);
    draw_line(Vec2::new(-1, -1), Vec2::new(-1, -1), &mut s, INK);
    assert!(inked(&s).is_empty());
    assert_eq!(s.bytes(), &[0u8; 75][..]);
}

#[test]
fn drawing_a_line_twice_equals_drawing_it_once() {
    let mut once = blank(32, 24);
    draw_line(Vec2::new(-4, 3), Vec2::new(40, 20), &mut once, INK);
    let mut twice = blank(32, 24);
    draw_line(Vec2::new(-4, 3), Vec2::new(40, 20), &mut twice, INK);
    draw_line(Vec2::new(-4, 3), Vec2::new(40, 20), &mut twice, INK);
    assert_eq!(once.bytes(), twice.bytes());
    assert!(!inked(&once).is_empty());
}

#[test]
fn line_leaves_other_pixels_as_they_were() {
    let mut s = PixelSurface::new(6, 6, 200).unwrap();
    draw_line(Vec2::new(0, 5), Vec2::new(5, 5), &mut s, INK);
    for y in 0..6 {
        for x in 0..6 {
            let expected = if y == 5 { (10, 20, 30) } else { (200, 200, 200) };
            assert_eq!(s.get_pixel(x, y), Some(expected));
        }
    }
}

#[test]
fn triangle_is_the_outline_of_three_lines() {
    let (p1, p2, p3) = (Vec2::new(1, 1), Vec2::new(9, 2), Vec2::new(4, 8));
    let mut s = blank(12, 10);
    draw_triangle(p1, p2, p3, &mut s, INK);
    let mut sides = walk((1, 1), (9, 2));
    sides.extend(walk((9, 2), (4, 8)));
    sides.extend(walk((4, 8), (1, 1)));
    assert_eq!(inked(&s), sorted(sides));
    assert_eq!(s.get_pixel(4, 4), Some((0, 0, 0)));
}

#[test]
fn vertical_run_covers_length_pixels_upwards() {
    let mut s = blank(5, 8);
    draw_vertical_unchecked(Vec2::new(3, 2), 4, &mut s, INK);
    assert_eq!(inked(&s), vec![(3, 2), (3, 3), (3, 4), (3, 5)]);
}

#[test]
fn horizontal_run_covers_length_pixels_along_the_row() {
    let mut s = blank(8, 3);
    draw_horizontal_unchecked(Vec2::new(1, 2), 7, &mut s, INK);
    assert_eq!(inked(&s), vec![(1, 2), (2, 2), (3, 2), (4, 2), (5, 2), (6, 2), (7, 2)]);
}

#[test]
fn runs_of_length_zero_draw_nothing() {
    let mut s = blank(4, 4);
    draw_vertical_unchecked(Vec2::new(1, 1), 0, &mut s, INK);
    draw_horizontal_unchecked(Vec2::new(1, 1), 0, &mut s, INK);
    assert!(inked(&s).is_empty());
}

#[test]
fn rectangle_is_two_vertical_and_two_horizontal_runs() {
    let mut s = blank(32, 24);
    draw_rectangle_unchecked(Vec2::new(10, 10), Vec2::new(20, 15), &mut s, INK);
    let bytes = s.bytes();
    let at = |x: usize, y: usize| (x + y * 32) * 3;
    let mut expected = Vec::new();
    for y in 10..15 {
        expected.push((10, y));
        expected.push((20, y));
    }
    for x in 10..20 {
        expected.push((x, 10));
        expected.push((x, 15));
    }
    for &(x, y) in &expected {
        let first = at(x as usize, y as usize);
        assert_eq!(&bytes[first..first + 3], &[10, 20, 30]);
    }
    assert_eq!(inked(&s), sorted(expected));
    assert_eq!(inked(&s).len(), 29);
    let corner = at(20, 15);
    assert_eq!(&bytes[corner..corner + 3], &[0, 0, 0]);
}

#[test]
fn rectangle_without_extent_draws_nothing() {
    let mut s = blank(8, 8);
    draw_rectangle_unchecked(Vec2::new(3, 3), Vec2::new(3, 3), &mut s, INK);
    assert!(inked(&s).is_empty());
}

#[test]
fn alpha_is_not_stored() {
    let mut clear = blank(2, 2);
    let mut solid = blank(2, 2);
    draw_line(Vec2::new(0, 0), Vec2::new(1, 1), &mut clear, Color::RGBA(1, 2, 3, 0));
    draw_line(Vec2::new(0, 0), Vec2::new(1, 1), &mut solid, Color::RGB(1, 2, 3));
    assert_eq!(clear.bytes(), solid.bytes());
    assert_eq!(Color::RGB(1, 2, 3).a, 255);
}

#[test]
fn blit_lays_a_smaller_image_over_the_corner() {
    let image = PixelSurface::from_bytes(2, 1, vec![1, 2, 3, 4, 5, 6]).unwrap();
    let mut s = PixelSurface::new(3, 2, 9).unwrap();
    blit(&image, &mut s);
    assert_eq!(s.bytes(), &[1, 2, 3, 4, 5, 6, 9, 9, 9, 9, 9, 9, 9, 9, 9, 9, 9, 9][..]);
}

#[test]
fn blit_leaves_out_what_lies_beyond_the_surface() {
    let image = PixelSurface::from_bytes(3, 2, (1..=18).collect()).unwrap();
    let mut s = PixelSurface::new(2, 1, 0).unwrap();
    blit(&image, &mut s);
    assert_eq!(s.bytes(), &[1, 2, 3, 4, 5, 6][..]);
    let mut tall = PixelSurface::new(1, 3, 0).unwrap();
    blit(&image, &mut tall);
    assert_eq!(tall.bytes(), &[1, 2, 3, 10, 11, 12, 0, 0, 0][..]);
}

#[test]
fn drawing_keeps_the_length_of_the_buffer() {
    let mut s = blank(7, 5);
    draw_line(Vec2::new(-3, -3), Vec2::new(20, 9), &mut s, INK);
    draw_triangle(Vec2::new(0, 0), Vec2::new(6, 0), Vec2::new(3, 4), &mut s, INK);
    draw_rectangle_unchecked(Vec2::new(1, 1), Vec2::new(5, 3), &mut s, INK);
    assert_eq!((s.width(), s.height(), s.bytes().len()), (7, 5, 7 * 5 * 3));
}
