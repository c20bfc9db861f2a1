use isis::input::{
    camera_key_input, engine_key_input, CameraInput, CameraKey, ElementState, EngineKeys, IVec3,
    KeyboardInput,
};

fn zero() -> IVec3 {
    IVec3 { x: 0, y: 0, z: 0 }
}

fn press(k: CameraKey) -> KeyboardInput {
    KeyboardInput { key_code: Some(k), state: ElementState::Pressed }
}

fn release(k: CameraKey) -> KeyboardInput {
    KeyboardInput { key_code: Some(k), state: ElementState::Released }
}

#[test]
fn camera_keys_move_and_clamp() {
    let start = CameraInput { linear_input: zero(), angular_input: zero(), shift_on: false };
    let out = camera_key_input(start, &vec![press(CameraKey::W), press(CameraKey::D), press(CameraKey::Numpad7)]);
    assert_eq!(out.linear_input, IVec3 { x: 1, y: 0, z: -1 });
    assert_eq!(out.angular_input, IVec3 { x: 0, y: 0, z: 1 });
    let out2 = camera_key_input(out, &vec![press(CameraKey::D), press(CameraKey::D)]);
    assert_eq!(out2.linear_input, IVec3 { x: 1, y: 0, z: -1 });
    let out3 = camera_key_input(out2, &vec![release(CameraKey::D), release(CameraKey::W)]);
    assert_eq!(out3.linear_input, IVec3 { x: 0, y: 0, z: 0 });
}

#[test]
fn camera_shift_toggles_and_press_release_cancels() {
    let start = CameraInput { linear_input: zero(), angular_input: zero(), shift_on: false };
    let out = camera_key_input(start, &vec![press(CameraKey::LShift)]);
    assert!(out.shift_on);
    let out = camera_key_input(out, &vec![press(CameraKey::Q), release(CameraKey::Q), press(CameraKey::Other)]);
    assert_eq!(out, CameraInput { linear_input: zero(), angular_input: zero(), shift_on: true });
    let none = KeyboardInput { key_code: None, state: ElementState::Pressed };
    assert_eq!(camera_key_input(out, &vec![none]), out);
}

fn keys() -> EngineKeys {
    EngineKeys {
        w: false, s: false, d: false, a: false, e: false, q: false, numpad8: false, numpad5: false,
        numpad4: false, numpad6: false, numpad7: false, numpad9: false, lshift: false, lalt: false,
    }
}

#[test]
fn engine_keys_map_to_axes() {
    let out = engine_key_input(EngineKeys { w: true, d: true, e: true, ..keys() });
    assert_eq!(out.linear, IVec3 { x: 1, y: 1, z: -1 });
    assert_eq!(out.angular, zero());
    assert_eq!(out.set_vel_z_steps, 0);
    assert!(out.steer_by_thrust);
    let out = engine_key_input(EngineKeys { w: true, s: true, ..keys() });
    assert_eq!(out.linear, zero());
    assert!(!out.steer_by_thrust);
}

#[test]
fn engine_shift_rolls_and_adjusts_set_velocity() {
    let out = engine_key_input(EngineKeys { w: true, e: true, lshift: true, numpad7: true, lalt: true, ..keys() });
    assert_eq!(out.linear, IVec3 { x: 0, y: 0, z: -1 });
    assert_eq!(out.angular, IVec3 { x: 0, y: 0, z: 0 });
    assert_eq!(out.set_vel_z_steps, -1);
    assert!(out.fine_angular);
    let out = engine_key_input(EngineKeys { q: true, lshift: true, s: true, numpad8: true, numpad6: true, ..keys() });
    assert_eq!(out.angular, IVec3 { x: 1, y: -1, z: 1 });
    assert_eq!(out.set_vel_z_steps, 1);
}
