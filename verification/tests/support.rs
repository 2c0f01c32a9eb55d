use game_of_life::engine::Engine;
use game_of_life::support::init_dynamic_attributes;
use game_of_life::support::pick_cell;
use game_of_life::support::update_dynamic_attributes;
use game_of_life::support::CellAttr;
use game_of_life::support::Fraction;
use game_of_life::universe::Universe;
use nalgebra::Isometry3;
use nalgebra::Perspective3;
use nalgebra::Point3;
use nalgebra::Vector3;
use nalgebra::Vector4;

/// The cell under the pixel (`px`, `py`) of a `width` by `height` viewport,
/// seen by a camera at `position` that looks at `target`.
fn cell_under_pixel(
    px: f32,
    py: f32,
    (width, height): (f32, f32),
    position: [f32; 3],
    target: [f32; 3],
    universe: &Universe,
) -> Option<(usize, usize)> {
    let view = Isometry3::look_at_rh(
        &Point3::from_slice(&position),
        &Point3::from_slice(&target),
        &Vector3::new(0.0, 1.0, 0.0),
    );
    let perspective = Perspective3::new(width / height, std::f32::consts::PI / 3.0, 0.1, 1024.0);

    let ray_clip = Vector4::new(2.0 * px / width - 1.0, 1.0 - 2.0 * py / height, -1.0, 1.0);
    let mut ray_eye = perspective.inverse() * ray_clip;
    ray_eye.z = -1.0;
    ray_eye.w = 0.0;
    let mut ray_world = (view.inverse().to_homogeneous() * ray_eye).xyz();
    ray_world.normalize_mut();

    let t = -position[2] / ray_world[2];
    let x = position[0] + ray_world[0] * t + universe.width() as f32 / 2.0 + 0.5;
    let y = position[1] + ray_world[1] * t + universe.height() as f32 / 2.0 + 0.5;
    if !x.is_finite() || !y.is_finite() {
        return None;
    }
    pick_cell(x.floor() as i64, y.floor() as i64, universe)
}

#[test]
fn initial_attributes_are_alive_and_complete() {
    let universe = Universe::new(3, 2).unwrap();
    let attributes = init_dynamic_attributes(&universe);
    assert_eq!(attributes.len(), 6);
    for attribute in attributes {
        assert_eq!(attribute, CellAttr { alive: true, tick: Fraction { part: 1, whole: 1 } });
    }
}

#[test]
fn attributes_follow_the_frame_for_changed_cells() {
    let mut universe = Universe::new(2, 2).unwrap();
    universe.clear();
    universe.toggle(1, 0);
    let mut engine = Engine::new(5);
    let mut attributes = init_dynamic_attributes(&universe);
    let full = Fraction { part: 1, whole: 1 };

    for frame in 0..5 {
        assert_eq!(engine.frame(), frame);
        update_dynamic_attributes(&mut attributes, &universe, &engine);
        assert_eq!(
            attributes,
            vec![
                CellAttr { alive: false, tick: full },
                CellAttr { alive: true, tick: Fraction { part: frame, whole: 4 } },
                CellAttr { alive: false, tick: full },
                CellAttr { alive: false, tick: full },
            ]
        );
        engine.next_frame();
    }
}

#[test]
fn a_transition_is_complete_at_the_last_frame() {
    let universe = Universe::new(1, 1).unwrap();
    let mut engine = Engine::new(2);
    let mut attributes = init_dynamic_attributes(&universe);

    update_dynamic_attributes(&mut attributes, &universe, &engine);
    assert_eq!(attributes[0].tick, Fraction { part: 0, whole: 1 });
    engine.next_frame();
    update_dynamic_attributes(&mut attributes, &universe, &engine);
    assert_eq!(attributes[0].tick, Fraction { part: 1, whole: 1 });
    assert!(!attributes[0].alive);
}

#[test]
fn the_centre_of_the_plane_is_the_middle_cell() {
    let universe = Universe::new(60, 60).unwrap();
    assert_eq!(pick_cell(30, 30, &universe), Some((30, 30)));
    let universe = Universe::new(7, 4).unwrap();
    assert_eq!(pick_cell(3, 2, &universe), Some((3, 2)));
}

#[test]
fn a_point_beside_the_grid_is_over_no_cell() {
    let universe = Universe::new(7, 4).unwrap();
    assert_eq!(pick_cell(0, 0, &universe), Some((0, 0)));
    assert_eq!(pick_cell(6, 3, &universe), Some((6, 3)));
    assert_eq!(pick_cell(7, 3, &universe), None);
    assert_eq!(pick_cell(6, 4, &universe), None);
    assert_eq!(pick_cell(-1, 0, &universe), None);
    assert_eq!(pick_cell(0, -1, &universe), None);
    assert_eq!(pick_cell(1000, 1000, &universe), None);
    assert_eq!(pick_cell(i64::MAX, 0, &universe), None);
    assert_eq!(pick_cell(i64::MIN, i64::MIN, &universe), None);
}

#[test]
fn the_centre_pixel_is_over_the_middle_cell() {
    let camera = [0.0, 0.0, 25.0];
    let origin = [0.0, 0.0, 0.0];

    let universe = Universe::new(60, 60).unwrap();
    assert_eq!(
        cell_under_pixel(400.0, 300.0, (800.0, 600.0), camera, origin, &universe),
        Some((30, 30))
    );

    let universe = Universe::new(4, 8).unwrap();
    assert_eq!(
        cell_under_pixel(512.0, 384.0, (1024.0, 768.0), camera, origin, &universe),
        Some((2, 4))
    );
}

#[test]
fn a_pixel_far_from_the_grid_is_over_no_cell() {
    let camera = [0.0, 0.0, 25.0];
    let origin = [0.0, 0.0, 0.0];
    let universe = Universe::new(4, 4).unwrap();

    assert_eq!(cell_under_pixel(0.0, 0.0, (800.0, 600.0), camera, origin, &universe), None);
    assert_eq!(cell_under_pixel(799.0, 599.0, (800.0, 600.0), camera, origin, &universe), None);
    assert_eq!(cell_under_pixel(400.0, 0.0, (800.0, 600.0), camera, origin, &universe), None);
}

#[test]
fn a_ray_that_never_meets_the_plane_is_over_no_cell() {
    let universe = Universe::new(4, 4).unwrap();
    // A camera in the plane of the grid that looks along it.
    let picked = cell_under_pixel(
        400.0,
        300.0,
        (800.0, 600.0),
        [-30.0, 0.0, 0.0],
        [0.0, 0.0, 0.0],
        &universe,
    );
    assert_eq!(picked, None);
}
