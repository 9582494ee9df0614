use image_editor::pixel::Pixel;
use image_editor::synth::{escape_time, fractal, generate, gradient_at, HEIGHT, MAX_STEPS, WIDTH};
use num_complex::Complex;

fn start(x: u32, y: u32) -> Complex<f32> {
    let scale_x = 3.0 / WIDTH as f32;
    let scale_y = 3.0 / HEIGHT as f32;
    Complex::new(y as f32 * scale_x - 1.5, x as f32 * scale_y - 1.5)
}

fn step(z: Complex<f32>) -> Complex<f32> {
    z * z + Complex::new(-0.4, 0.6)
}

fn escaped(z: Complex<f32>) -> bool {
    !(z.norm() <= 2.0)
}

#[test]
fn generate_fills_with_the_colour() {
    let img = generate(10, 20, 30);
    assert_eq!(img.width(), 800);
    assert_eq!(img.height(), 800);
    assert_eq!(img.as_raw().len(), 800 * 800 * 4);
    for y in 0..800 {
        for x in 0..800 {
            assert_eq!(img.get_pixel(x, y), Some(Pixel { r: 10, g: 20, b: 30, a: 255 }));
        }
    }
    assert_eq!(img.get_pixel(800, 0), None);
    assert_eq!(img.get_pixel(0, 800), None);
}

#[test]
fn generate_default_is_black() {
    let img = generate(0, 0, 0);
    assert_eq!(img.get_pixel(0, 0), Some(Pixel { r: 0, g: 0, b: 0, a: 255 }));
    assert_eq!(img.get_pixel(799, 799), Some(Pixel { r: 0, g: 0, b: 0, a: 255 }));
    let white = generate(255, 255, 255);
    assert_eq!(white.get_pixel(400, 400), Some(Pixel { r: 255, g: 255, b: 255, a: 255 }));
}

#[test]
fn gradient_is_three_tenths_rounded_down() {
    assert_eq!(gradient_at(0), 0);
    assert_eq!(gradient_at(3), 0);
    assert_eq!(gradient_at(4), 1);
    assert_eq!(gradient_at(10), 3);
    assert_eq!(gradient_at(799), 239);
    assert_eq!(gradient_at(850), 255);
    assert_eq!(gradient_at(853), 255);
    assert_eq!(gradient_at(854), 255);
    assert_eq!(gradient_at(1000), 255);
    assert_eq!(gradient_at(u32::MAX), 255);
}

#[test]
fn gradient_agrees_with_single_precision() {
    for v in 0..2000u32 {
        assert_eq!(gradient_at(v), (0.3 * v as f32) as u8, "coordinate {}", v);
    }
}

#[test]
fn escape_time_counts_steps_until_escape() {
    // Doubling from 1 passes 100 at the seventh step.
    let n = escape_time(1u32, &|v: u32| v * 2, &|v: u32| v > 100);
    assert_eq!(n, 7);
    let n = escape_time(64u32, &|v: u32| v * 2, &|v: u32| v > 100);
    assert_eq!(n, 1);
}

#[test]
fn escape_time_is_zero_when_the_start_has_escaped() {
    let n = escape_time(101u32, &|v: u32| v * 2, &|v: u32| v > 100);
    assert_eq!(n, 0);
}

#[test]
fn escape_time_stops_at_the_limit() {
    assert_eq!(MAX_STEPS, 255);
    let n = escape_time(0u32, &|v: u32| v, &|_: u32| false);
    assert_eq!(n, 255);
    // 254 steps are needed: the limit is not in the way.
    let n = escape_time(0u32, &|v: u32| v + 1, &|v: u32| v >= 254);
    assert_eq!(n, 254);
    // 255 steps are needed, and the point is not asked again after the last.
    let n = escape_time(0u32, &|v: u32| v + 1, &|v: u32| {
        assert!(v < 255);
        false
    });
    assert_eq!(n, 255);
}

#[test]
fn fractal_first_pixel() {
    let img = fractal(start, step, escaped);
    assert_eq!(img.width(), 800);
    assert_eq!(img.height(), 800);
    // The iteration for the first pixel starts at (-1.5, -1.5).
    let c = (-0.4f32, 0.6f32);
    let mut z = (-1.5f32, -1.5f32);
    let mut count: u8 = 0;
    while count < 255 && (z.0 * z.0 + z.1 * z.1).sqrt() <= 2.0 {
        z = (z.0 * z.0 - z.1 * z.1 + c.0, 2.0 * z.0 * z.1 + c.1);
        count += 1;
    }
    assert_eq!(count, 0);
    assert_eq!(img.get_pixel(0, 0), Some(Pixel { r: 0, g: count, b: 0, a: 255 }));
}

#[test]
fn fractal_is_the_escape_time_image() {
    let img = fractal(start, step, escaped);
    let width = 800u32;
    let height = 800u32;
    let scale_x = 3.0 / width as f32;
    let scale_y = 3.0 / height as f32;
    let mut inside = 0u32;
    let mut zero = 0u32;
    for y in 0..height {
        for x in 0..width {
            let red = (0.3 * x as f32) as u8;
            let blue = (0.3 * y as f32) as u8;
            let cx = y as f32 * scale_x - 1.5;
            let cy = x as f32 * scale_y - 1.5;
            let c = Complex::new(-0.4, 0.6);
            let mut z = Complex::new(cx, cy);
            let mut green = 0;
            while green < 255 && z.norm() <= 2.0 {
                z = z * z + c;
                green += 1;
            }
            if green == 255 {
                inside += 1;
            }
            if green == 0 {
                zero += 1;
            }
            assert_eq!(
                img.get_pixel(x, y),
                Some(Pixel { r: red, g: green, b: blue, a: 255 }),
                "pixel ({}, {})",
                x,
                y
            );
        }
    }
    assert!(inside > 0);
    assert!(zero > 0);
}

#[test]
fn fractal_axes_are_swapped() {
    // The start point takes its real part from the row and its imaginary
    // part from the column.
    let img = fractal(
        |x: u32, y: u32| (x, y),
        |z: (u32, u32)| z,
        |z: (u32, u32)| z.0 >= 400,
    );
    assert_eq!(img.get_pixel(399, 0), Some(Pixel { r: 119, g: 255, b: 0, a: 255 }));
    assert_eq!(img.get_pixel(400, 0), Some(Pixel { r: 120, g: 0, b: 0, a: 255 }));
    assert_eq!(img.get_pixel(0, 799), Some(Pixel { r: 0, g: 255, b: 239, a: 255 }));
    assert_eq!(img.get_pixel(799, 799), Some(Pixel { r: 239, g: 0, b: 239, a: 255 }));
}

#[test]
fn fractal_visits_the_cells_row_by_row() {
    let seen = std::cell::RefCell::new(Vec::new());
    let _ = fractal(
        |x: u32, y: u32| {
            if y < 2 && (x < 2 || x == 799) {
                seen.borrow_mut().push((x, y));
            }
            0u8
        },
        |z: u8| z,
        |_: u8| true,
    );
    assert_eq!(seen.into_inner(), vec![(0, 0), (1, 0), (799, 0), (0, 1), (1, 1), (799, 1)]);
}
