use ray::camera::{Camera, PixelRay};
use ray::geometry::Point;
use ray::pixels::Rgb;
use ray::scalar::Scalar;

fn s(x: f32) -> Scalar {
    Scalar::from_bits(x.to_bits())
}

fn camera(width: u32, height: u32) -> Camera {
    Camera::face_towards(
        Point::new(s(20.0), s(20.0), s(20.0)),
        Point::new(s(4.0), s(0.0), s(3.0)),
        s(std::f32::consts::TAU / 8.0),
        width,
        height,
    )
}

#[test]
fn a_camera_keeps_what_it_was_made_with() {
    let cam = camera(16, 24);
    assert_eq!(cam.width(), 16);
    assert_eq!(cam.height(), 24);
    assert_eq!(cam.eye(), Point::new(s(20.0), s(20.0), s(20.0)));
    assert_eq!(cam.target(), Point::new(s(4.0), s(0.0), s(3.0)));
    assert_eq!(f32::from_bits(cam.fov().to_bits()), std::f32::consts::TAU / 8.0);
}

#[test]
fn a_new_image_is_black() {
    let cam = camera(5, 3);
    for row in 0..3 {
        for column in 0..5 {
            assert_eq!(cam.pixel(column, row), Rgb::new(0, 0, 0));
        }
    }
    assert_eq!(cam.raw_pixels(), vec![0u8; 45]);
    assert_eq!(Rgb::black(), Rgb { r: 0, g: 0, b: 0 });
}

#[test]
fn the_default_camera() {
    let cam = Camera::default();
    assert_eq!(cam.width(), 100);
    assert_eq!(cam.height(), 100);
    assert_eq!(cam.eye(), Point::new(s(10.0), s(5.0), s(8.0)));
    assert_eq!(cam.target(), Point::new(s(0.0), s(0.0), s(0.0)));
    assert_eq!(cam.fov().to_bits(), (std::f32::consts::PI / 3.0).to_bits());
    assert_eq!(cam.get_rays().len(), 10000);
    assert_eq!(cam.raw_pixels(), vec![0u8; 30000]);
}

#[test]
fn an_image_without_pixels_has_no_rays() {
    for (width, height) in [(0u32, 0u32), (0, 7), (7, 0)] {
        let mut cam = camera(width, height);
        assert_eq!(cam.width(), width);
        assert_eq!(cam.height(), height);
        assert!(cam.get_rays().is_empty());
        assert!(cam.raw_pixels().is_empty());
        cam.write_pixels(&vec![Rgb::new(1, 2, 3); 4]);
        assert!(cam.raw_pixels().is_empty());
    }
}

#[test]
fn rays_come_row_by_row_from_the_top() {
    let cam = camera(4, 2);
    let rays = cam.get_rays();
    let expected = vec![
        PixelRay { column: 0, row: 0, horizontal: -4, vertical: 2 },
        PixelRay { column: 1, row: 0, horizontal: -2, vertical: 2 },
        PixelRay { column: 2, row: 0, horizontal: 0, vertical: 2 },
        PixelRay { column: 3, row: 0, horizontal: 2, vertical: 2 },
        PixelRay { column: 0, row: 1, horizontal: -4, vertical: 0 },
        PixelRay { column: 1, row: 1, horizontal: -2, vertical: 0 },
        PixelRay { column: 2, row: 1, horizontal: 0, vertical: 0 },
        PixelRay { column: 3, row: 1, horizontal: 2, vertical: 0 },
    ];
    assert_eq!(rays, expected);
}

#[test]
fn there_is_one_ray_for_each_pixel() {
    for (width, height) in [(1u32, 1u32), (3, 5), (5, 3), (16, 9)] {
        let cam = camera(width, height);
        let rays = cam.get_rays();
        assert_eq!(rays.len() as u32, width * height);
        for (k, ray) in rays.iter().enumerate() {
            assert_eq!(ray.column, k as u32 % width);
            assert_eq!(ray.row, k as u32 / width);
            assert_eq!(ray.horizontal, 2 * ray.column as i64 - width as i64);
            assert_eq!(ray.vertical, height as i64 - 2 * ray.row as i64);
        }
    }
}

#[test]
fn odd_sizes_have_half_pixel_offsets() {
    let cam = camera(3, 1);
    let rays = cam.get_rays();
    assert_eq!(rays[0].horizontal, -3);
    assert_eq!(rays[1].horizontal, -1);
    assert_eq!(rays[2].horizontal, 1);
    assert_eq!(rays[0].vertical, 1);
}

#[test]
fn the_centre_ray_of_an_even_image_looks_straight_ahead() {
    for (width, height) in [(2u32, 2u32), (4, 2), (16, 24), (100, 100)] {
        let cam = camera(width, height);
        let rays = cam.get_rays();
        let centre = rays[((height / 2) * width + width / 2) as usize];
        assert_eq!(centre.column, width / 2);
        assert_eq!(centre.row, height / 2);
        assert_eq!(centre.horizontal, 0);
        assert_eq!(centre.vertical, 0);
    }
}

#[test]
fn columns_that_add_up_to_the_width_are_mirrored() {
    let (width, height) = (8u32, 6u32);
    let cam = camera(width, height);
    let rays = cam.get_rays();
    for row in 0..height {
        for column in 1..width {
            let one = rays[(row * width + column) as usize];
            let other = rays[(row * width + (width - column)) as usize];
            assert_eq!(one.horizontal, -other.horizontal);
            assert_eq!(one.vertical, other.vertical);
        }
    }
    for column in 0..width {
        for row in 1..height {
            let one = rays[(row * width + column) as usize];
            let other = rays[((height - row) * width + column) as usize];
            assert_eq!(one.vertical, -other.vertical);
            assert_eq!(one.horizontal, other.horizontal);
        }
    }
}

#[test]
fn the_outermost_columns_are_not_mirrored() {
    let cam = camera(4, 2);
    let rays = cam.get_rays();
    assert_eq!(rays[0].horizontal, -4);
    assert_eq!(rays[3].horizontal, 2);
}

#[test]
fn a_pixel_that_was_put_is_there() {
    let mut cam = camera(4, 3);
    cam.put_pixel(2, 1, Rgb::new(10, 20, 30));
    assert_eq!(cam.pixel(2, 1), Rgb::new(10, 20, 30));
    for row in 0..3 {
        for column in 0..4 {
            if (column, row) != (2, 1) {
                assert_eq!(cam.pixel(column, row), Rgb::black());
            }
        }
    }
    let raw = cam.raw_pixels();
    assert_eq!(raw.len(), 36);
    assert_eq!(&raw[18..21], &[10, 20, 30]);
    assert_eq!(raw.iter().filter(|&&byte| byte != 0).count(), 3);
    cam.put_pixel(2, 1, Rgb::new(1, 2, 3));
    assert_eq!(cam.pixel(2, 1), Rgb::new(1, 2, 3));
    assert_eq!(cam.width(), 4);
    assert_eq!(cam.height(), 3);
}

#[test]
fn different_pixels_can_be_put_in_either_order() {
    let mut one = camera(3, 2);
    one.put_pixel(0, 1, Rgb::new(1, 1, 1));
    one.put_pixel(2, 0, Rgb::new(2, 2, 2));
    let mut other = camera(3, 2);
    other.put_pixel(2, 0, Rgb::new(2, 2, 2));
    other.put_pixel(0, 1, Rgb::new(1, 1, 1));
    assert_eq!(one.raw_pixels(), other.raw_pixels());
    assert_eq!(
        one.raw_pixels(),
        vec![0, 0, 0, 0, 0, 0, 2, 2, 2, 1, 1, 1, 0, 0, 0, 0, 0, 0]
    );
}

#[test]
fn pixels_are_written_in_the_order_of_the_rays() {
    let mut cam = camera(3, 2);
    let colors: Vec<Rgb> = (0..6u8).map(|k| Rgb::new(k, 10 + k, 20 + k)).collect();
    cam.write_pixels(&colors);
    for ray in cam.get_rays() {
        let k = (ray.row * 3 + ray.column) as u8;
        assert_eq!(cam.pixel(ray.column, ray.row), Rgb::new(k, 10 + k, 20 + k));
    }
    assert_eq!(
        cam.raw_pixels(),
        vec![0, 10, 20, 1, 11, 21, 2, 12, 22, 3, 13, 23, 4, 14, 24, 5, 15, 25]
    );
}

#[test]
fn too_few_colours_leave_the_rest_and_too_many_are_dropped() {
    let mut cam = camera(2, 2);
    cam.write_pixels(&vec![Rgb::new(9, 9, 9); 4]);
    cam.write_pixels(&vec![Rgb::new(1, 2, 3), Rgb::new(4, 5, 6)]);
    assert_eq!(cam.raw_pixels(), vec![1, 2, 3, 4, 5, 6, 9, 9, 9, 9, 9, 9]);
    cam.write_pixels(&vec![Rgb::new(7, 7, 7); 9]);
    assert_eq!(cam.raw_pixels(), vec![7u8; 12]);
    cam.write_pixels(&vec![]);
    assert_eq!(cam.raw_pixels(), vec![7u8; 12]);
}
