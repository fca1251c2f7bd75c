use rust_ray_tracer::hit::Hit;
use rust_ray_tracer::tracer::{
    is_occluded, lambert_cosine, Shade, Stage, Tracer, RECURSION_DEPTH,
};

fn reports(distances: &[Option<f64>]) -> Vec<Option<u64>> {
    distances.iter().map(|d| d.map(f64::to_bits)).collect()
}

fn at(distance: f64) -> u64 {
    distance.to_bits()
}

#[test]
fn recursion_depth_is_two() {
    assert_eq!(RECURSION_DEPTH, 2);
}

#[test]
fn depth_zero_is_done_before_anything_is_cast() {
    for lights in [0usize, 1, 7] {
        let mut tracer = Tracer::new(0, lights);
        assert_eq!(tracer.stage(), Stage::Done);
        assert_eq!(tracer.on_intersect(&reports(&[Some(1.0), Some(2.0)])), None);
        assert_eq!(tracer.on_shadow(&reports(&[None]), at(5.0)), None);
        assert_eq!(tracer.on_reflect(), None);
        assert_eq!(tracer.stage(), Stage::Done);
    }
}

#[test]
fn a_new_trace_waits_for_the_primary_ray() {
    let tracer = Tracer::new(3, 2);
    assert_eq!(tracer.stage(), Stage::Intersect);
    assert_eq!(tracer.depth(), 3);
    assert_eq!(tracer.lights(), 2);
}

#[test]
fn a_ray_that_misses_everything_ends_the_trace() {
    let mut tracer = Tracer::new(2, 3);
    assert_eq!(tracer.on_intersect(&vec![None, None]), Some(Shade::Background));
    assert_eq!(tracer.stage(), Stage::Done);
    assert_eq!(tracer.on_reflect(), None);
}

#[test]
fn a_ray_that_meets_surfaces_only_behind_its_origin_ends_the_trace() {
    let mut tracer = Tracer::new(2, 3);
    let found = reports(&[Some(-3.0), Some(0.0), Some(f64::NAN)]);
    assert_eq!(tracer.on_intersect(&found), Some(Shade::Background));
    assert_eq!(tracer.stage(), Stage::Done);
}

#[test]
fn a_hit_is_shaded_light_by_light_then_reflected() {
    let mut tracer = Tracer::new(2, 2);
    let shade = tracer.on_intersect(&reports(&[Some(4.0), Some(2.5), None]));
    assert_eq!(shade, Some(Shade::Ambient(Hit { distance: at(2.5), object: 1 })));
    assert_eq!(tracer.stage(), Stage::Shadow(0));

    assert_eq!(tracer.on_shadow(&vec![None, None, None], at(9.0)), Some(Shade::Diffuse(0)));
    assert_eq!(tracer.stage(), Stage::Shadow(1));

    let shade = tracer.on_shadow(&reports(&[Some(1.0), None, None]), at(9.0));
    assert_eq!(shade, Some(Shade::Shadowed(1)));
    assert_eq!(tracer.stage(), Stage::Reflect);

    assert_eq!(tracer.on_reflect(), Some(Shade::Bounce));
    assert_eq!(tracer.stage(), Stage::Intersect);
    assert_eq!(tracer.depth(), 1);

    let shade = tracer.on_intersect(&reports(&[Some(0.7), None, None]));
    assert_eq!(shade, Some(Shade::Ambient(Hit { distance: at(0.7), object: 0 })));
    assert_eq!(tracer.on_shadow(&vec![], at(1.0)), Some(Shade::Diffuse(0)));
    assert_eq!(tracer.on_shadow(&vec![], at(1.0)), Some(Shade::Diffuse(1)));
    assert_eq!(tracer.on_reflect(), Some(Shade::Bounce));
    assert_eq!(tracer.depth(), 0);
    assert_eq!(tracer.stage(), Stage::Done);
}

#[test]
fn a_scene_without_lights_goes_straight_to_the_reflection() {
    let mut tracer = Tracer::new(1, 0);
    assert!(tracer.on_intersect(&reports(&[Some(3.0)])).is_some());
    assert_eq!(tracer.stage(), Stage::Reflect);
    assert_eq!(tracer.on_reflect(), Some(Shade::Bounce));
    assert_eq!(tracer.stage(), Stage::Done);
}

#[test]
fn a_report_out_of_turn_changes_nothing() {
    let mut tracer = Tracer::new(2, 1);
    assert_eq!(tracer.on_shadow(&vec![None], at(4.0)), None);
    assert_eq!(tracer.on_reflect(), None);
    assert_eq!(tracer.stage(), Stage::Intersect);
    assert_eq!(tracer.depth(), 2);

    assert!(tracer.on_intersect(&reports(&[Some(1.0)])).is_some());
    assert_eq!(tracer.on_intersect(&reports(&[Some(1.0)])), None);
    assert_eq!(tracer.on_reflect(), None);
    assert_eq!(tracer.stage(), Stage::Shadow(0));
}

#[test]
fn a_trace_takes_at_most_depth_times_lights_plus_two_steps() {
    let depth = 3usize;
    let lights = 4usize;
    let mut tracer = Tracer::new(depth, lights);
    let mut steps = 0usize;
    loop {
        let accepted = match tracer.stage() {
            Stage::Intersect => tracer.on_intersect(&reports(&[Some(1.0)])),
            Stage::Shadow(_) => tracer.on_shadow(&vec![None], at(1.0)),
            Stage::Reflect => tracer.on_reflect(),
            Stage::Done => break,
        };
        assert!(accepted.is_some());
        steps += 1;
    }
    assert_eq!(steps, depth * (lights + 2));
}

#[test]
fn shadow_occlusion() {
    // A light at (0, 5, -5) straight above a surface point at (0, 0, -5),
    // and a sphere of radius one around (0, 2.5, -5) in between: the shadow
    // ray meets the sphere after 1.5, the light is 5 away, so the light adds
    // nothing.
    let to_light: f64 = 5.0;
    let to_sphere: f64 = 1.5;
    let mut tracer = Tracer::new(1, 1);
    assert!(tracer.on_intersect(&reports(&[Some(1.0), None])).is_some());
    let shade = tracer.on_shadow(&reports(&[None, Some(to_sphere)]), at(to_light));
    assert_eq!(shade, Some(Shade::Shadowed(0)));
    assert_eq!(tracer.stage(), Stage::Reflect);
}

#[test]
fn a_surface_behind_the_light_does_not_hide_it() {
    let mut tracer = Tracer::new(1, 1);
    assert!(tracer.on_intersect(&reports(&[Some(1.0), None])).is_some());
    let shade = tracer.on_shadow(&reports(&[Some(9.5), None]), at(5.0));
    assert_eq!(shade, Some(Shade::Diffuse(0)));
}

#[test]
fn a_surface_behind_the_shaded_point_does_not_hide_the_light() {
    let mut tracer = Tracer::new(1, 1);
    assert!(tracer.on_intersect(&reports(&[Some(1.0), None])).is_some());
    let shade = tracer.on_shadow(&reports(&[Some(-2.0), Some(0.0)]), at(5.0));
    assert_eq!(shade, Some(Shade::Diffuse(0)));
}

#[test]
fn occlusion_is_strict() {
    let hit = |distance: f64| Some(Hit { distance: at(distance), object: 0 });
    assert!(is_occluded(hit(4.0), at(5.0)));
    assert!(is_occluded(hit(4.999999999), at(5.0)));
    assert!(!is_occluded(hit(5.0), at(5.0)));
    assert!(!is_occluded(hit(6.0), at(5.0)));
    assert!(!is_occluded(None, at(5.0)));
}

#[test]
fn a_light_at_no_distance_is_never_hidden() {
    let hit = |distance: f64| Some(Hit { distance: at(distance), object: 0 });
    assert!(!is_occluded(hit(1.0), at(f64::NAN)));
    assert!(!is_occluded(hit(1.0), at(0.0)));
    assert!(!is_occluded(hit(1.0), at(-3.0)));
    assert!(is_occluded(hit(1.0), at(f64::INFINITY)));
}

#[test]
fn the_nearest_occluder_decides() {
    let mut tracer = Tracer::new(1, 1);
    assert!(tracer.on_intersect(&reports(&[Some(1.0)])).is_some());
    let shade = tracer.on_shadow(&reports(&[Some(7.0), Some(3.0), Some(5.0)]), at(4.0));
    assert_eq!(shade, Some(Shade::Shadowed(0)));
}

#[test]
fn a_light_in_front_of_the_surface_counts_by_its_cosine() {
    for x in [1.0f64, 0.5, 0.7071067811865476, 1e-12] {
        assert_eq!(f64::from_bits(lambert_cosine(x.to_bits())), x);
    }
}

#[test]
fn a_light_behind_the_surface_adds_nothing() {
    for x in [-1.0f64, -0.5, -1e-12, 0.0, -0.0, f64::NAN] {
        assert_eq!(lambert_cosine(x.to_bits()), 0.0f64.to_bits(), "{}", x);
    }
}

#[test]
fn lambert_cosine_agrees_with_max_of_doubles() {
    for x in [-1.0f64, -0.3, 0.0, 0.3, 1.0, f64::NAN, 1e-300, -1e-300] {
        assert_eq!(f64::from_bits(lambert_cosine(x.to_bits())), x.max(0.0), "{}", x);
    }
}
