use rust_ray_tracer::camera::{Camera, CameraError};

#[test]
fn camera_keeps_its_configuration() {
    let camera = Camera::new(1920, 1080, 60).ok().unwrap();
    assert_eq!(camera.width(), 1920);
    assert_eq!(camera.height(), 1080);
    assert_eq!(camera.fov(), 60);
}

#[test]
fn camera_of_two_by_two_is_the_smallest() {
    assert!(Camera::new(2, 2, 45).is_ok());
}

#[test]
fn camera_refuses_a_single_column() {
    assert_eq!(Camera::new(1, 1080, 60).err(), Some(CameraError::Width));
    assert_eq!(Camera::new(0, 1080, 60).err(), Some(CameraError::Width));
}

#[test]
fn camera_refuses_a_single_row() {
    assert_eq!(Camera::new(1920, 1, 60).err(), Some(CameraError::Height));
    assert_eq!(Camera::new(1920, 0, 60).err(), Some(CameraError::Height));
}

#[test]
fn camera_looks_at_the_width_first() {
    assert_eq!(Camera::new(1, 1, 60).err(), Some(CameraError::Width));
}

#[test]
fn fov_is_kept_to_the_degree() {
    // an odd field of view is handed out whole: half of it is 45.5 degrees
    let camera = Camera::new(3, 3, 91).ok().unwrap();
    assert_eq!(camera.fov(), 91);
    assert_eq!(camera.fov() as f64 / 2.0, 45.5);
    assert_eq!(Camera::new(2, 2, 1).ok().unwrap().fov(), 1);
    assert_eq!(Camera::new(2, 2, 0).ok().unwrap().fov(), 0);
    assert_eq!(Camera::new(2, 2, u16::MAX).ok().unwrap().fov(), u16::MAX);
}

#[test]
fn steps_are_one_less_than_the_dimensions() {
    assert_eq!(Camera::new(1920, 1080, 60).ok().unwrap().steps(), (1919, 1079));
    assert_eq!(Camera::new(2, 2, 60).ok().unwrap().steps(), (1, 1));
    assert_eq!(
        Camera::new(u32::MAX, u32::MAX, 60).ok().unwrap().steps(),
        (u32::MAX - 1, u32::MAX - 1)
    );
}

#[test]
fn contains_the_pixels_of_the_grid_only() {
    let camera = Camera::new(4, 3, 60).ok().unwrap();
    assert!(camera.contains(0, 0));
    assert!(camera.contains(3, 2));
    assert!(!camera.contains(4, 0));
    assert!(!camera.contains(0, 3));
}
