use rust_ray_tracer::camera::Camera;
use rust_ray_tracer::color::{push_color, Rgb8};
use rust_ray_tracer::renderer::{pixel_at, Renderer};

const RED: Rgb8 = Rgb8 { r: 230, g: 25, b: 26 };
const BLUE: Rgb8 = Rgb8 { r: 27, g: 28, b: 231 };
const GREEN: Rgb8 = Rgb8 { r: 1, g: 232, b: 2 };
const GRAY: Rgb8 = Rgb8 { r: 191, g: 192, b: 193 };

#[test]
fn buffer_layout_of_two_pixels_in_a_row() {
    let mut buffer: Vec<u8> = vec![];
    push_color(&mut buffer, &RED);
    push_color(&mut buffer, &BLUE);
    assert_eq!(buffer.len(), 6);
    assert_eq!(&buffer[0..3], &[230, 25, 26]);
    assert_eq!(&buffer[3..6], &[27, 28, 231]);
}

#[test]
fn push_color_keeps_what_was_there() {
    let mut buffer: Vec<u8> = vec![9, 8];
    push_color(&mut buffer, &GREEN);
    assert_eq!(buffer, vec![9, 8, 1, 232, 2]);
}

#[test]
fn pixels_are_due_row_by_row_from_the_top() {
    let camera = Camera::new(3, 2, 60).ok().unwrap();
    let mut renderer = Renderer::new(&camera);
    let mut order = vec![];
    while let Some(pixel) = renderer.next_pixel() {
        order.push(pixel);
        assert!(renderer.push_pixel(GRAY));
    }
    assert_eq!(order, vec![(0, 0), (1, 0), (2, 0), (0, 1), (1, 1), (2, 1)]);
    assert_eq!(renderer.shaded(), 6);
}

#[test]
fn next_pixel_does_not_advance() {
    let camera = Camera::new(2, 2, 60).ok().unwrap();
    let renderer = Renderer::new(&camera);
    assert_eq!(renderer.next_pixel(), Some((0, 0)));
    assert_eq!(renderer.next_pixel(), Some((0, 0)));
    assert_eq!(renderer.shaded(), 0);
}

#[test]
fn image_holds_three_bytes_per_pixel_in_scan_order() {
    let camera = Camera::new(2, 2, 60).ok().unwrap();
    let mut renderer = Renderer::new(&camera);
    for color in [RED, BLUE, GREEN, GRAY] {
        assert!(renderer.push_pixel(color));
    }
    let image = renderer.into_image().unwrap();
    assert_eq!(image.len(), 3 * 2 * 2);
    assert_eq!(image, vec![230, 25, 26, 27, 28, 231, 1, 232, 2, 191, 192, 193]);
    // pixel (i, j) starts at 3 * (j * width + i)
    let at = |i: usize, j: usize| 3 * (j * 2 + i);
    assert_eq!(&image[at(0, 0)..at(0, 0) + 3], &[230, 25, 26]);
    assert_eq!(&image[at(1, 0)..at(1, 0) + 3], &[27, 28, 231]);
    assert_eq!(&image[at(0, 1)..at(0, 1) + 3], &[1, 232, 2]);
    assert_eq!(&image[at(1, 1)..at(1, 1) + 3], &[191, 192, 193]);
}

#[test]
fn a_complete_picture_takes_no_more_colours() {
    let camera = Camera::new(2, 2, 60).ok().unwrap();
    let mut renderer = Renderer::new(&camera);
    for _ in 0..4 {
        assert!(renderer.push_pixel(RED));
    }
    assert_eq!(renderer.next_pixel(), None);
    assert!(!renderer.push_pixel(BLUE));
    assert_eq!(renderer.shaded(), 4);
    assert_eq!(renderer.into_image().unwrap(), [230u8, 25, 26].repeat(4));
}

#[test]
fn an_incomplete_picture_is_not_handed_out() {
    let camera = Camera::new(2, 2, 60).ok().unwrap();
    let mut renderer = Renderer::new(&camera);
    assert_eq!(Renderer::new(&camera).into_image(), None);
    assert!(renderer.push_pixel(RED));
    assert!(renderer.push_pixel(RED));
    assert!(renderer.push_pixel(RED));
    assert_eq!(renderer.into_image(), None);
}

#[test]
fn a_wide_picture_wraps_at_its_width() {
    let camera = Camera::new(1000, 2, 60).ok().unwrap();
    let mut renderer = Renderer::new(&camera);
    for _ in 0..999 {
        renderer.push_pixel(GRAY);
    }
    assert_eq!(renderer.next_pixel(), Some((999, 0)));
    renderer.push_pixel(GRAY);
    assert_eq!(renderer.next_pixel(), Some((0, 1)));
}

#[test]
fn buffer_layout_is_read_back_pixel_by_pixel() {
    let mut buffer: Vec<u8> = vec![];
    push_color(&mut buffer, &RED);
    push_color(&mut buffer, &BLUE);
    assert_eq!(buffer.len(), 6);
    assert_eq!(pixel_at(&buffer, 2, 0, 0), Some(RED));
    assert_eq!(pixel_at(&buffer, 2, 1, 0), Some(BLUE));
    assert_eq!(pixel_at(&buffer, 2, 0, 1), None);
    assert_eq!(pixel_at(&buffer, 2, 2, 0), None);
}

#[test]
fn what_is_rendered_is_read_back() {
    let camera = Camera::new(3, 2, 60).ok().unwrap();
    let mut renderer = Renderer::new(&camera);
    let mut given = vec![];
    while let Some((i, j)) = renderer.next_pixel() {
        let color = Rgb8 { r: i as u8, g: j as u8, b: (10 * j + i) as u8 };
        given.push((i, j, color));
        renderer.push_pixel(color);
    }
    let image = renderer.into_image().unwrap();
    assert_eq!(given.len(), 6);
    for (i, j, color) in given {
        assert_eq!(pixel_at(&image, 3, i, j), Some(color));
    }
}

#[test]
fn pixel_at_reads_nothing_outside_the_image() {
    let image: Vec<u8> = (0..12).collect();
    assert_eq!(pixel_at(&image, 2, 1, 1), Some(Rgb8 { r: 9, g: 10, b: 11 }));
    assert_eq!(pixel_at(&image, 2, 0, 2), None);
    assert_eq!(pixel_at(&image, 2, 2, 0), None);
    assert_eq!(pixel_at(&image, 0, 0, 0), None);
    assert_eq!(pixel_at(&image, u32::MAX, u32::MAX - 1, u32::MAX), None);
    assert_eq!(pixel_at(&vec![], 2, 0, 0), None);
    // an image cut short in the middle of a pixel
    assert_eq!(pixel_at(&vec![1, 2, 3, 4, 5], 2, 0, 0), Some(Rgb8 { r: 1, g: 2, b: 3 }));
    assert_eq!(pixel_at(&vec![1, 2, 3, 4, 5], 2, 1, 0), None);
}
