use desktop_icons::{
    Button, Desktop, DevicePoint, Effect, Icon, Input, Layout, Point, Scene, Spot, Window,
};

const WINDOW: Window = Window { width: 800, height: 600 };

fn pt(x: i64, y: i64) -> Point {
    Point { x, y }
}

/// The input for a cursor at the scene point `(x, y)`.
fn at(x: i32, y: i32, button: Button) -> Input {
    Input { cursor: Some(DevicePoint { x: x + 400, y: 300 - y }), window: WINDOW, button }
}

fn scene_with(trash: Point, places: &[(i64, i64)]) -> Scene {
    let desktop = Desktop::new(places.len(), trash).unwrap();
    let spots: Vec<Spot> =
        places.iter().map(|p| Spot { position: pt(p.0, p.1), variant: 0 }).collect();
    Scene::place(desktop, Layout::standard(), &spots).unwrap()
}

fn held_count(scene: &Scene) -> usize {
    scene.icons().iter().filter(|icon| icon.grab.is_some()).count()
}

#[test]
fn press_on_the_icon_centre_grabs_it_with_zero_offset() {
    let mut scene = scene_with(pt(-300, -200), &[(0, 0)]);
    let input = Input {
        cursor: Some(DevicePoint { x: 400, y: 300 }),
        window: WINDOW,
        button: Button::JustPressed,
    };
    assert_eq!(scene.step(input), Effect::Grabbed { id: 1 });
    assert_eq!(scene.held(), Some(0));
    assert_eq!(scene.icons()[0].grab, Some(pt(0, 0)));
    assert_eq!(scene.icons()[0].position, pt(0, 0));
}

#[test]
fn held_icon_follows_the_cursor_less_the_grab_offset() {
    let mut scene = scene_with(pt(-300, -200), &[(0, 0)]);
    assert_eq!(scene.step(at(5, 5, Button::JustPressed)), Effect::Grabbed { id: 1 });
    assert_eq!(scene.icons()[0].grab, Some(pt(5, 5)));
    assert_eq!(scene.icons()[0].position, pt(0, 0));
    assert_eq!(scene.step(at(100, 100, Button::Held)), Effect::Moved { id: 1 });
    assert_eq!(scene.icons()[0].position, pt(95, 95));
    assert_eq!(scene.icons()[0].grab, Some(pt(5, 5)));
}

#[test]
fn release_on_the_trash_destroys_the_icon() {
    let mut scene = scene_with(pt(-300, -200), &[(0, 0), (100, 100)]);
    assert_eq!(scene.step(at(100, 100, Button::JustPressed)), Effect::Grabbed { id: 2 });
    assert_eq!(scene.step(at(-290, -190, Button::Held)), Effect::Moved { id: 2 });
    assert_eq!(scene.step(at(-285, -180, Button::JustReleased)), Effect::Removed { id: 2 });
    assert_eq!(*scene.icons(), vec![Icon { id: 1, position: pt(0, 0), variant: 0, grab: None }]);
    assert_eq!(scene.held(), None);
    assert_eq!(scene.step(at(-290, -190, Button::JustPressed)), Effect::Nothing);
}

#[test]
fn release_on_the_rim_of_the_trash_destroys_the_icon() {
    let mut scene = scene_with(pt(-300, -200), &[(0, 0)]);
    scene.step(at(0, 0, Button::JustPressed));
    assert_eq!(scene.step(at(-275, -200, Button::JustReleased)), Effect::Removed { id: 1 });
    assert!(scene.icons().is_empty());
}

#[test]
fn release_away_from_the_trash_leaves_the_icon_where_it_was_dropped() {
    let mut scene = scene_with(pt(-300, -200), &[(0, 0)]);
    scene.step(at(3, -4, Button::JustPressed));
    scene.step(at(150, 60, Button::Held));
    assert_eq!(scene.step(at(150, 60, Button::JustReleased)), Effect::Dropped { id: 1 });
    assert_eq!(
        *scene.icons(),
        vec![Icon { id: 1, position: pt(147, 64), variant: 0, grab: None }]
    );
    assert_eq!(scene.held(), None);
}

#[test]
fn release_just_outside_the_trash_radius_keeps_the_icon() {
    let mut scene = scene_with(pt(-300, -200), &[(0, 0)]);
    scene.step(at(0, 0, Button::JustPressed));
    assert_eq!(scene.step(at(-274, -200, Button::JustReleased)), Effect::Dropped { id: 1 });
    assert_eq!(scene.icons().len(), 1);
}

#[test]
fn release_does_not_move_the_icon_to_the_cursor() {
    let mut scene = scene_with(pt(-300, -200), &[(0, 0)]);
    scene.step(at(0, 0, Button::JustPressed));
    scene.step(at(40, 40, Button::Held));
    assert_eq!(scene.step(at(90, 90, Button::JustReleased)), Effect::Dropped { id: 1 });
    assert_eq!(scene.icons()[0].position, pt(40, 40));
}

#[test]
fn press_takes_the_first_of_overlapping_icons_only() {
    let mut scene = scene_with(pt(-300, -200), &[(100, 0), (10, 0), (0, 10), (0, 0)]);
    assert_eq!(scene.step(at(5, 5, Button::JustPressed)), Effect::Grabbed { id: 2 });
    assert_eq!(scene.held(), Some(1));
    assert_eq!(held_count(&scene), 1);
    assert_eq!(scene.icons()[1].grab, Some(pt(-5, 5)));
    assert_eq!(scene.icons()[2].grab, None);
    assert_eq!(scene.icons()[3].grab, None);
}

#[test]
fn press_beside_every_icon_grabs_nothing() {
    let mut scene = scene_with(pt(-300, -200), &[(0, 0), (100, 100)]);
    assert_eq!(scene.step(at(50, 50, Button::JustPressed)), Effect::Nothing);
    assert_eq!(scene.held(), None);
    assert_eq!(scene.step(at(60, 60, Button::Held)), Effect::Nothing);
    assert_eq!(scene.step(at(60, 60, Button::JustReleased)), Effect::Nothing);
    assert_eq!(scene.icons()[0].position, pt(0, 0));
    assert_eq!(scene.icons()[1].position, pt(100, 100));
}

#[test]
fn press_on_the_rim_of_an_icon_grabs_it() {
    let mut scene = scene_with(pt(-300, -200), &[(0, 0)]);
    assert_eq!(scene.press(pt(26, 0)), Effect::Nothing);
    assert_eq!(scene.press(pt(25, 0)), Effect::Grabbed { id: 1 });
    assert_eq!(scene.icons()[0].grab, Some(pt(25, 0)));
}

#[test]
fn frame_without_a_cursor_freezes_the_scene() {
    let mut scene = scene_with(pt(-300, -200), &[(0, 0)]);
    scene.step(at(1, 2, Button::JustPressed));
    let before = scene.icons().clone();
    for button in [Button::JustPressed, Button::Held, Button::JustReleased, Button::Idle] {
        let input = Input { cursor: None, window: WINDOW, button };
        assert_eq!(scene.step(input), Effect::Nothing);
        assert_eq!(*scene.icons(), before);
    }
    assert_eq!(scene.held(), Some(0));
}

#[test]
fn idle_button_changes_nothing() {
    let mut scene = scene_with(pt(-300, -200), &[(0, 0)]);
    scene.step(at(1, 2, Button::JustPressed));
    let before = scene.icons().clone();
    assert_eq!(scene.step(at(200, 200, Button::Idle)), Effect::Nothing);
    assert_eq!(*scene.icons(), before);
}

#[test]
fn press_while_an_icon_is_held_picks_up_no_second_one() {
    let mut scene = scene_with(pt(-300, -200), &[(0, 0), (100, 100)]);
    scene.step(at(0, 0, Button::JustPressed));
    // The button goes up and down again outside the window: the icon stays held.
    scene.step(Input { cursor: None, window: WINDOW, button: Button::JustReleased });
    assert_eq!(scene.step(at(102, 99, Button::JustPressed)), Effect::Moved { id: 1 });
    assert_eq!(held_count(&scene), 1);
    assert_eq!(scene.icons()[0].position, pt(102, 99));
    assert_eq!(scene.icons()[1], Icon { id: 2, position: pt(100, 100), variant: 0, grab: None });
}

#[test]
fn at_most_one_icon_is_held_after_any_frame() {
    let mut scene = scene_with(pt(-300, -200), &[(0, 0), (20, 0), (0, 20), (-250, -150)]);
    let buttons = [Button::JustPressed, Button::Held, Button::JustReleased, Button::Idle];
    let mut seed: u32 = 12345;
    for _ in 0..4000 {
        seed = seed.wrapping_mul(1664525).wrapping_add(1013904223);
        let x = (seed >> 8) % 80;
        let y = (seed >> 16) % 80;
        let button = buttons[(seed >> 28) as usize % 4];
        let cursor = if seed % 7 == 0 {
            None
        } else {
            Some(DevicePoint { x: 380 + x as i32, y: 280 + y as i32 })
        };
        scene.step(Input { cursor, window: WINDOW, button });
        assert!(held_count(&scene) <= 1);
        let mut ids: Vec<usize> = scene.icons().iter().map(|icon| icon.id).collect();
        ids.dedup();
        assert_eq!(ids.len(), scene.icons().len());
        assert!(ids.iter().all(|id| 1 <= *id && *id <= 4));
    }
}

#[test]
fn drag_and_release_without_a_held_icon_do_nothing() {
    let mut scene = scene_with(pt(-300, -200), &[(0, 0)]);
    assert_eq!(scene.drag(pt(0, 0)), Effect::Nothing);
    assert_eq!(scene.release(pt(-300, -200)), Effect::Nothing);
    assert_eq!(*scene.icons(), vec![Icon { id: 1, position: pt(0, 0), variant: 0, grab: None }]);
}

#[test]
fn icon_can_be_picked_up_again_where_it_was_dropped() {
    let mut scene = scene_with(pt(-300, -200), &[(0, 0)]);
    scene.step(at(0, 0, Button::JustPressed));
    scene.step(at(200, 100, Button::Held));
    scene.step(at(200, 100, Button::JustReleased));
    assert_eq!(scene.step(at(0, 0, Button::JustPressed)), Effect::Nothing);
    assert_eq!(scene.step(at(0, 0, Button::JustReleased)), Effect::Nothing);
    assert_eq!(scene.step(at(210, 90, Button::JustPressed)), Effect::Grabbed { id: 1 });
    assert_eq!(scene.icons()[0].grab, Some(pt(10, -10)));
}

#[test]
fn drag_to_the_far_corner_of_the_device_range() {
    let mut scene = scene_with(pt(-300, -200), &[(0, 0)]);
    scene.step(at(-3, 4, Button::JustPressed));
    let far = Input {
        cursor: Some(DevicePoint { x: i32::MIN, y: i32::MAX }),
        window: Window { width: u32::MAX, height: 0 },
        button: Button::Held,
    };
    assert_eq!(scene.step(far), Effect::Moved { id: 1 });
    let x = i64::from(i32::MIN) - i64::from(u32::MAX / 2) + 3;
    let y = -i64::from(i32::MAX) - 4;
    assert_eq!(scene.icons()[0].position, pt(x, y));
}
