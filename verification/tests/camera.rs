use vox3d::game::camera_controller::{CameraController, Key};

fn held(c: &CameraController) -> [bool; 6] {
    [
        c.is_forward_pressed,
        c.is_backward_pressed,
        c.is_left_pressed,
        c.is_right_pressed,
        c.is_up_pressed,
        c.is_down_pressed,
    ]
}

#[test]
fn controller_starts_with_no_key_held() {
    assert_eq!(held(&CameraController::new()), [false; 6]);
}

#[test]
fn each_bound_key_sets_its_movement() {
    let bindings = [
        (Key::W, 0),
        (Key::Up, 0),
        (Key::S, 1),
        (Key::Down, 1),
        (Key::A, 2),
        (Key::Left, 2),
        (Key::D, 3),
        (Key::Right, 3),
        (Key::Space, 4),
        (Key::LShift, 5),
    ];
    for (key, place) in bindings {
        let mut controller = CameraController::new();
        assert!(controller.process_keyboard(key, true));
        let mut expected = [false; 6];
        expected[place] = true;
        assert_eq!(held(&controller), expected);
        assert!(controller.process_keyboard(key, false));
        assert_eq!(held(&controller), [false; 6]);
    }
}

#[test]
fn other_keys_are_not_handled() {
    let mut controller = CameraController::new();
    controller.process_keyboard(Key::W, true);
    controller.process_keyboard(Key::Space, true);
    let before = held(&controller);
    assert!(!controller.process_keyboard(Key::Other, true));
    assert!(!controller.process_keyboard(Key::Other, false));
    assert_eq!(held(&controller), before);
}

#[test]
fn keys_are_held_independently() {
    let mut controller = CameraController::new();
    controller.process_keyboard(Key::W, true);
    controller.process_keyboard(Key::S, true);
    controller.process_keyboard(Key::Left, true);
    assert_eq!(held(&controller), [true, true, true, false, false, false]);
    controller.process_keyboard(Key::Up, false);
    assert_eq!(held(&controller), [false, true, true, false, false, false]);
    controller.process_keyboard(Key::LShift, true);
    assert_eq!(held(&controller), [false, true, true, false, false, true]);
}
