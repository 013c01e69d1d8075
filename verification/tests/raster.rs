use mandelbrot::{buffer_fits, escape_time, pixel_index, render, ITERATION_BUDGET};
use num::Complex;
use std::cell::RefCell;

fn point_of(
    bounds: (usize, usize),
    pixel: (usize, usize),
    upper_left: Complex<f64>,
    lower_right: Complex<f64>,
) -> Complex<f64> {
    let (complex_w, complex_h) = (lower_right.re - upper_left.re, upper_left.im - lower_right.im);
    Complex {
        re: upper_left.re + pixel.0 as f64 * complex_w / bounds.0 as f64,
        im: upper_left.im - pixel.1 as f64 * complex_h / bounds.1 as f64,
    }
}

fn mandelbrot_escape(c: Complex<f64>, limit: u32) -> Option<u32> {
    escape_time(Complex { re: 0.0, im: 0.0 }, limit, |z: Complex<f64>| {
        let z = z * z + c;
        (z, z.norm_sqr() > 4.0)
    })
}

fn render_view(
    pixels: &mut [u8],
    bounds: (usize, usize),
    upper_left: Complex<f64>,
    lower_right: Complex<f64>,
) {
    assert!(buffer_fits(pixels.len(), bounds));
    render(
        pixels,
        bounds,
        |bounds, pixel| point_of(bounds, pixel, upper_left, lower_right),
        mandelbrot_escape,
    );
}

#[test]
fn budget_is_255() {
    assert_eq!(ITERATION_BUDGET, 255);
}

#[test]
fn pixels_are_visited_in_row_major_order() {
    let visited = RefCell::new(Vec::new());
    let mut pixels = vec![9u8; 6];
    render(
        &mut pixels,
        (3, 2),
        |bounds, pixel| {
            assert_eq!(bounds, (3, 2));
            visited.borrow_mut().push(pixel);
            pixel
        },
        |_, _| None,
    );
    assert_eq!(visited.into_inner(), vec![(0, 0), (1, 0), (2, 0), (0, 1), (1, 1), (2, 1)]);
    assert_eq!(pixels, vec![0u8; 6]);
}

#[test]
fn each_pixel_gets_the_shade_of_its_escape() {
    let mut pixels = vec![0u8; 6];
    render(
        &mut pixels,
        (3, 2),
        |_, pixel| pixel,
        |pixel: (usize, usize), _| {
            if pixel == (1, 1) {
                None
            } else {
                Some((pixel.1 * 10 + pixel.0) as u32)
            }
        },
    );
    assert_eq!(pixels, vec![255, 254, 253, 245, 0, 243]);
}

#[test]
fn escape_is_asked_with_the_fixed_budget() {
    let budgets = RefCell::new(Vec::new());
    let mut pixels = vec![0u8; 2];
    render(
        &mut pixels,
        (1, 2),
        |_, pixel| pixel,
        |_, limit| {
            budgets.borrow_mut().push(limit);
            Some(limit - 1)
        },
    );
    assert_eq!(budgets.into_inner(), vec![255, 255]);
    assert_eq!(pixels, vec![1, 1]);
}

#[test]
fn empty_grid_leaves_nothing_to_do() {
    let calls = RefCell::new(0u32);
    let mut pixels: Vec<u8> = Vec::new();
    render(
        &mut pixels,
        (0, 5),
        |_, pixel| {
            *calls.borrow_mut() += 1;
            pixel
        },
        |_, _| None,
    );
    render(
        &mut pixels,
        (5, 0),
        |_, pixel| {
            *calls.borrow_mut() += 1;
            pixel
        },
        |_, _| None,
    );
    assert_eq!(*calls.borrow(), 0);
    assert!(pixels.is_empty());
}

#[test]
fn every_byte_is_overwritten() {
    let mut pixels = vec![77u8; 20];
    render(&mut pixels, (5, 4), |_, pixel| pixel, |_, _| Some(55));
    assert_eq!(pixels, vec![200u8; 20]);
}

#[test]
fn rendering_twice_gives_the_same_bytes() {
    let bounds = (40, 30);
    let upper_left = Complex { re: -1.20, im: 0.35 };
    let lower_right = Complex { re: -1.0, im: 0.20 };
    let mut first = vec![0u8; 1200];
    let mut second = vec![0u8; 1200];
    render_view(&mut first, bounds, upper_left, lower_right);
    render_view(&mut second, bounds, upper_left, lower_right);
    assert_eq!(first, second);
}

#[test]
fn rendering_does_not_depend_on_what_the_buffer_held() {
    let bounds = (16, 16);
    let upper_left = Complex { re: -2.0, im: 1.0 };
    let lower_right = Complex { re: 1.0, im: -1.0 };
    let mut first = vec![0u8; 256];
    let mut second = vec![255u8; 256];
    render_view(&mut first, bounds, upper_left, lower_right);
    render_view(&mut second, bounds, upper_left, lower_right);
    assert_eq!(first, second);
}

#[test]
fn whole_set_view_has_black_interior_and_bright_corners() {
    let bounds = (30, 20);
    let upper_left = Complex { re: -2.0, im: 1.0 };
    let lower_right = Complex { re: 1.0, im: -1.0 };
    let mut pixels = vec![7u8; 600];
    render_view(&mut pixels, bounds, upper_left, lower_right);
    // Pixel (20, 10) is the origin, which lies in the set.
    assert_eq!(point_of(bounds, (20, 10), upper_left, lower_right), Complex { re: 0.0, im: 0.0 });
    assert_eq!(pixels[pixel_index(bounds, (20, 10))], 0);
    // Pixel (0, 0) is -2 + i, which escapes at the first step.
    assert_eq!(pixels[pixel_index(bounds, (0, 0))], 255);
    // Pixel (10, 10) is -1, whose orbit is -1, 0, -1, ...
    assert_eq!(pixels[pixel_index(bounds, (10, 10))], 0);
}

#[test]
fn seahorse_valley_end_to_end() {
    let bounds = (100, 100);
    let upper_left = Complex { re: -1.20, im: 0.35 };
    let lower_right = Complex { re: -1.0, im: 0.20 };
    let mut pixels = vec![0u8; bounds.0 * bounds.1];
    let points = RefCell::new(Vec::new());
    render(
        &mut pixels,
        bounds,
        |bounds, pixel| point_of(bounds, pixel, upper_left, lower_right),
        |point, limit| {
            points.borrow_mut().push(point);
            mandelbrot_escape(point, limit)
        },
    );
    let points = points.into_inner();
    assert_eq!(pixels.len(), 10000);
    assert_eq!(points.len(), 10000);
    // Pixel (0, 0) is evaluated at the upper left corner itself.
    assert_eq!(points[0], Complex { re: -1.20, im: 0.35 });
    for row in 0..bounds.1 {
        for col in 0..bounds.0 {
            let point = point_of(bounds, (col, row), upper_left, lower_right);
            assert_eq!(points[row * bounds.0 + col], point);
            let expected = match mandelbrot_escape(point, 255) {
                None => 0,
                Some(count) => 255 - count as u8,
            };
            assert_eq!(pixels[row * bounds.0 + col], expected);
        }
    }
    // The view straddles the boundary of the set: members and escaping points both occur.
    assert!(pixels.iter().any(|&p| p == 0));
    assert!(pixels.iter().any(|&p| p != 0));
}
