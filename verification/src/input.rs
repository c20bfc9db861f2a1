//! Player input mapping: the free camera's key events and the player
//! craft's engine keys, turned into integer input axes.
//!
//! The speeds and rates that scale these axes are floating-point and are
//! applied by the engine-side code.

use vstd::prelude::*;

verus! {

/// An integer 3-vector, as glam's `IVec3`.
#[derive(Clone, Copy, PartialEq, Eq, Debug)]
pub struct IVec3 {
    pub x: i32,
    pub y: i32,
    pub z: i32,
}

/// Whether a key went down or up.
#[derive(Clone, Copy, PartialEq, Eq, Debug)]
pub enum ElementState {
    Pressed,
    Released,
}

/// The keys the free camera listens to; every other key is `Other`.
#[derive(Clone, Copy, PartialEq, Eq, Debug)]
pub enum CameraKey {
    W,
    S,
    D,
    A,
    E,
    Q,
    Numpad8,
    Numpad5,
    Numpad4,
    Numpad6,
    Numpad7,
    Numpad9,
    LShift,
    Other,
}

/// A keyboard event: the key (when it has a key code) and its new state.
#[derive(Clone, Copy, PartialEq, Eq, Debug)]
pub struct KeyboardInput {
    pub key_code: Option<CameraKey>,
    pub state: ElementState,
}

/// The free camera's input state between frames.
#[derive(Clone, Copy, PartialEq, Eq, Debug)]
pub struct CameraInput {
    pub linear_input: IVec3,
    pub angular_input: IVec3,
    pub shift_on: bool,
}

/// The camera input state, in unbounded integers.
pub struct CameraInputSpec {
    pub lin: (int, int, int),
    pub ang: (int, int, int),
    pub shift_on: bool,
}

/// `+1` for a press, `-1` for a release.
pub open spec fn amount(state: ElementState) -> int {
    match state {
        ElementState::Pressed => 1,
        ElementState::Released => -1,
    }
}

/// The state after one event. The camera faces backwards, so `W` lowers
/// the linear z axis.
pub open spec fn after_event(s: CameraInputSpec, ev: KeyboardInput) -> CameraInputSpec {
    let a = amount(ev.state);
    let (lx, ly, lz) = s.lin;
    let (ax, ay, az) = s.ang;
    match ev.key_code {
        Some(CameraKey::W) => CameraInputSpec { lin: (lx, ly, lz - a), ..s },
        Some(CameraKey::S) => CameraInputSpec { lin: (lx, ly, lz + a), ..s },
        Some(CameraKey::D) => CameraInputSpec { lin: (lx + a, ly, lz), ..s },
        Some(CameraKey::A) => CameraInputSpec { lin: (lx - a, ly, lz), ..s },
        Some(CameraKey::E) => CameraInputSpec { lin: (lx, ly + a, lz), ..s },
        Some(CameraKey::Q) => CameraInputSpec { lin: (lx, ly - a, lz), ..s },
        Some(CameraKey::Numpad8) => CameraInputSpec { ang: (ax + a, ay, az), ..s },
        Some(CameraKey::Numpad5) => CameraInputSpec { ang: (ax - a, ay, az), ..s },
        Some(CameraKey::Numpad4) => CameraInputSpec { ang: (ax, ay + a, az), ..s },
        Some(CameraKey::Numpad6) => CameraInputSpec { ang: (ax, ay - a, az), ..s },
        Some(CameraKey::Numpad7) => CameraInputSpec { ang: (ax, ay, az + a), ..s },
        Some(CameraKey::Numpad9) => CameraInputSpec { ang: (ax, ay, az - a), ..s },
        Some(CameraKey::LShift) => CameraInputSpec { shift_on: !s.shift_on, ..s },
        _ => s,
    }
}

/// The state after all of `evs`, in order.
pub open spec fn after_events(s: CameraInputSpec, evs: Seq<KeyboardInput>) -> CameraInputSpec
    decreases evs.len(),
{
    if evs.len() == 0 {
        s
    } else {
        after_event(after_events(s, evs.drop_last()), evs.last())
    }
}

/// `v` clamped to `[-1, 1]`.
pub open spec fn clamp_unit(v: int) -> int {
    if v < -1 {
        -1
    } else if v > 1 {
        1
    } else {
        v
    }
}

/// An `IVec3` as unbounded integers.
pub open spec fn ivec_spec(v: IVec3) -> (int, int, int) {
    (v.x as int, v.y as int, v.z as int)
}

/// The unbounded-integer view of a camera input state.
pub open spec fn camera_spec(c: CameraInput) -> CameraInputSpec {
    CameraInputSpec { lin: ivec_spec(c.linear_input), ang: ivec_spec(c.angular_input), shift_on: c.shift_on }
}

/// Whether every axis of `v` equals the clamped matching axis of `t`.
pub open spec fn clamped_axes(v: IVec3, t: (int, int, int)) -> bool {
    v.x == clamp_unit(t.0) && v.y == clamp_unit(t.1) && v.z == clamp_unit(t.2)
}

fn clamp_i32_unit(v: i32) -> (r: i32)
    ensures
        r == clamp_unit(v as int),
{
    if v < -1 {
        -1
    } else if v > 1 {
        1
    } else {
        v
    }
}

/// Whether every axis of the spec state stays within `bound` of zero.
pub open spec fn within(s: CameraInputSpec, bound: int) -> bool {
    &&& -bound <= s.lin.0 <= bound
    &&& -bound <= s.lin.1 <= bound
    &&& -bound <= s.lin.2 <= bound
    &&& -bound <= s.ang.0 <= bound
    &&& -bound <= s.ang.1 <= bound
    &&& -bound <= s.ang.2 <= bound
}

proof fn lemma_after_events_bound(s: CameraInputSpec, evs: Seq<KeyboardInput>, bound: int)
    requires
        within(s, bound),
    ensures
        within(after_events(s, evs), bound + evs.len()),
    decreases evs.len(),
{
    if evs.len() > 0 {
        lemma_after_events_bound(s, evs.drop_last(), bound);
    }
}

/// The input part of the free camera system: folds this frame's key
/// events into the camera's input axes and shift toggle, then clamps each
/// axis to `[-1, 1]`. The stored axes must leave room for one `i32` step
/// per event; the clamped axes that the system stores between frames
/// always do.
pub fn camera_key_input(settings: CameraInput, events: &Vec<KeyboardInput>) -> (r: CameraInput)
    requires
        events@.len() < 0x7fff_ffff,
        within(camera_spec(settings), 0x7fff_ffff - events@.len()),
    ensures
        clamped_axes(r.linear_input, after_events(camera_spec(settings), events@).lin),
        clamped_axes(r.angular_input, after_events(camera_spec(settings), events@).ang),
        r.shift_on == after_events(camera_spec(settings), events@).shift_on,
{
    let mut linear_input = settings.linear_input;
    let mut angular_input = settings.angular_input;
    let mut shift_on = settings.shift_on;
    let mut ii: usize = 0;
    while ii < events.len()
        invariant
            ii <= events@.len(),
            events@.len() < 0x7fff_ffff,
            within(camera_spec(settings), 0x7fff_ffff - events@.len()),
            camera_spec(CameraInput { linear_input, angular_input, shift_on }) == after_events(
                camera_spec(settings),
                events@.subrange(0, ii as int),
            ),
        decreases events@.len() - ii,
    {
        let ghost prefix = events@.subrange(0, ii as int);
        proof {
            lemma_after_events_bound(camera_spec(settings), prefix, 0x7fff_ffff - events@.len());
            assert(events@.subrange(0, ii + 1).drop_last() =~= prefix);
        }
        let event = events[ii];
        let amount: i32 = match event.state {
            ElementState::Pressed => 1,
            ElementState::Released => -1,
        };
        match event.key_code {
            Some(key) => {
                match key {
                    CameraKey::W => linear_input.z = linear_input.z - amount,
                    CameraKey::S => linear_input.z = linear_input.z + amount,
                    CameraKey::D => linear_input.x = linear_input.x + amount,
                    CameraKey::A => linear_input.x = linear_input.x - amount,
                    CameraKey::E => linear_input.y = linear_input.y + amount,
                    CameraKey::Q => linear_input.y = linear_input.y - amount,
                    CameraKey::Numpad8 => angular_input.x = angular_input.x + amount,
                    CameraKey::Numpad5 => angular_input.x = angular_input.x - amount,
                    CameraKey::Numpad4 => angular_input.y = angular_input.y + amount,
                    CameraKey::Numpad6 => angular_input.y = angular_input.y - amount,
                    CameraKey::Numpad7 => angular_input.z = angular_input.z + amount,
                    CameraKey::Numpad9 => angular_input.z = angular_input.z - amount,
                    CameraKey::LShift => shift_on = !shift_on,
                    CameraKey::Other => {},
                }
            },
            None => {},
        }
        ii = ii + 1;
    }
    assert(events@.subrange(0, events@.len() as int) =~= events@);
    CameraInput {
        linear_input: IVec3 {
            x: clamp_i32_unit(linear_input.x),
            y: clamp_i32_unit(linear_input.y),
            z: clamp_i32_unit(linear_input.z),
        },
        angular_input: IVec3 {
            x: clamp_i32_unit(angular_input.x),
            y: clamp_i32_unit(angular_input.y),
            z: clamp_i32_unit(angular_input.z),
        },
        shift_on,
    }
}

/// Which of the keys that drive the player craft's engine are held down.
#[derive(Clone, Copy, PartialEq, Eq, Debug)]
pub struct EngineKeys {
    pub w: bool,
    pub s: bool,
    pub d: bool,
    pub a: bool,
    pub e: bool,
    pub q: bool,
    pub numpad8: bool,
    pub numpad5: bool,
    pub numpad4: bool,
    pub numpad6: bool,
    pub numpad7: bool,
    pub numpad9: bool,
    pub lshift: bool,
    pub lalt: bool,
}

/// The player craft's engine input for one frame, before scaling.
#[derive(Clone, Copy, PartialEq, Eq, Debug)]
pub struct EngineKeyInput {
    /// Linear input axes, each in `[-1, 1]`; forward is negative z.
    pub linear: IVec3,
    /// Angular input axes before the fine or coarse multiplier.
    pub angular: IVec3,
    /// Steps of the set velocity's z axis, in units of the adjust rate.
    pub set_vel_z_steps: i32,
    /// Whether the fine (left alt) multiplier applies to the angular input
    /// rather than the coarse one.
    pub fine_angular: bool,
    /// Whether the linear input drives the engine directly; otherwise the
    /// engine is steered towards the set velocity.
    pub steer_by_thrust: bool,
}

/// `1` when `b` holds, `0` otherwise.
pub open spec fn bit(b: bool) -> int {
    if b {
        1
    } else {
        0
    }
}

/// The engine input that the held keys `k` call for: the linear axes, the
/// angular axes and the set-velocity steps.
pub open spec fn engine_input_spec(k: EngineKeys) -> ((int, int, int), (int, int, int), int) {
    let lin = (
        bit(k.d) - bit(k.a),
        bit(k.e && !k.lshift) - bit(k.q && !k.lshift),
        bit(k.s) - bit(k.w),
    );
    let ang = (
        bit(k.numpad8) - bit(k.numpad5),
        bit(k.numpad4) - bit(k.numpad6),
        bit(k.q && k.lshift) - bit(k.e && k.lshift) + bit(k.numpad7) - bit(k.numpad9),
    );
    (lin, ang, bit(k.s && k.lshift) - bit(k.w && k.lshift))
}

/// `+1` when only `plus` holds, `-1` when only `minus` holds, `0` otherwise.
fn axis(plus: bool, minus: bool) -> (r: i32)
    ensures
        r == bit(plus) - bit(minus),
{
    if plus && !minus {
        1
    } else if minus && !plus {
        -1
    } else {
        0
    }
}

/// The key part of the player's engine input system: maps the held keys
/// to linear and angular input axes and to set-velocity steps (shift with
/// forward or back), and decides whether the linear input steers the craft.
pub fn engine_key_input(keys: EngineKeys) -> (r: EngineKeyInput)
    ensures
        ivec_spec(r.linear) == engine_input_spec(keys).0,
        ivec_spec(r.angular) == engine_input_spec(keys).1,
        r.set_vel_z_steps == engine_input_spec(keys).2,
        r.fine_angular == keys.lalt,
        r.steer_by_thrust == (r.linear.x != 0 || r.linear.y != 0 || r.linear.z != 0),
{
    let shift = keys.lshift;
    let lin = IVec3 {
        x: axis(keys.d, keys.a),
        y: axis(keys.e && !shift, keys.q && !shift),
        z: axis(keys.s, keys.w),
    };
    let ang = IVec3 {
        x: axis(keys.numpad8, keys.numpad5),
        y: axis(keys.numpad4, keys.numpad6),
        z: axis(keys.q && shift, keys.e && shift) + axis(keys.numpad7, keys.numpad9),
    };
    let steps = axis(keys.s && shift, keys.w && shift);
    let steer = lin.x != 0 || lin.y != 0 || lin.z != 0;
    EngineKeyInput {
        linear: lin,
        angular: ang,
        set_vel_z_steps: steps,
        fine_angular: keys.lalt,
        steer_by_thrust: steer,
    }
}

/// Whether the engine input `on` is the engine input `off` moved by `dl`
/// on the linear axes, `da` on the angular axes and `ds` set-velocity steps.
pub open spec fn shifted_by(
    on: ((int, int, int), (int, int, int), int),
    off: ((int, int, int), (int, int, int), int),
    dl: (int, int, int),
    da: (int, int, int),
    ds: int,
) -> bool {
    &&& on.0.0 == off.0.0 + dl.0
    &&& on.0.1 == off.0.1 + dl.1
    &&& on.0.2 == off.0.2 + dl.2
    &&& on.1.0 == off.1.0 + da.0
    &&& on.1.1 == off.1.1 + da.1
    &&& on.1.2 == off.1.2 + da.2
    &&& on.2 == off.2 + ds
}

/// The engine input axes of held keys `k`, one by one.
proof fn lemma_engine_axes(k: EngineKeys)
    ensures
        engine_input_spec(k).0.0 == bit(k.d) - bit(k.a),
        engine_input_spec(k).0.1 == bit(k.e && !k.lshift) - bit(k.q && !k.lshift),
        engine_input_spec(k).0.2 == bit(k.s) - bit(k.w),
        engine_input_spec(k).1.0 == bit(k.numpad8) - bit(k.numpad5),
        engine_input_spec(k).1.1 == bit(k.numpad4) - bit(k.numpad6),
        engine_input_spec(k).1.2 == bit(k.q && k.lshift) - bit(k.e && k.lshift) + bit(k.numpad7) - bit(k.numpad9),
        engine_input_spec(k).2 == bit(k.s && k.lshift) - bit(k.w && k.lshift),
{
}

/// Holding `D` raises the linear x axis by one and holding `A` lowers it
/// by one, whatever the other keys; nothing else changes. So the two held
/// together cancel.
pub proof fn lemma_engine_strafe_keys(k: EngineKeys)
    ensures
        shifted_by(engine_input_spec(EngineKeys { d: true, ..k }), engine_input_spec(EngineKeys { d: false, ..k }), (1, 0, 0), (0, 0, 0), 0),
        shifted_by(engine_input_spec(EngineKeys { a: true, ..k }), engine_input_spec(EngineKeys { a: false, ..k }), (-1, 0, 0), (0, 0, 0), 0),
{
}

/// Holding `S` raises the linear z axis by one and holding `W` lowers it by
/// one (forward is negative z), whatever the other keys; with left shift
/// each also adds or takes one set-velocity step. So the two held together
/// cancel.
pub proof fn lemma_engine_thrust_keys(k: EngineKeys)
    ensures
        shifted_by(engine_input_spec(EngineKeys { s: true, ..k }), engine_input_spec(EngineKeys { s: false, ..k }), (0, 0, 1), (0, 0, 0), (if k.lshift { 1int } else { 0int })),
        shifted_by(engine_input_spec(EngineKeys { w: true, ..k }), engine_input_spec(EngineKeys { w: false, ..k }), (0, 0, -1), (0, 0, 0), (if k.lshift { -1int } else { 0int })),
{
    lemma_engine_axes(EngineKeys { s: true, ..k });
    lemma_engine_axes(EngineKeys { s: false, ..k });
    lemma_engine_axes(EngineKeys { w: true, ..k });
    lemma_engine_axes(EngineKeys { w: false, ..k });
}

/// Holding `E` or `Q`, whatever the other keys: without left shift they
/// raise and lower the linear y axis by one; with it they roll, lowering
/// and raising the angular z axis by one.
pub proof fn lemma_engine_lift_and_roll_keys(k: EngineKeys)
    ensures
        shifted_by(engine_input_spec(EngineKeys { e: true, ..k }), engine_input_spec(EngineKeys { e: false, ..k }), (0, (if k.lshift { 0int } else { 1int }), 0), (0, 0, (if k.lshift { -1int } else { 0int })), 0),
        shifted_by(engine_input_spec(EngineKeys { q: true, ..k }), engine_input_spec(EngineKeys { q: false, ..k }), (0, (if k.lshift { 0int } else { -1int }), 0), (0, 0, (if k.lshift { 1int } else { 0int })), 0),
{
}

/// Holding numpad 8 raises the angular x axis by one and holding numpad 5
/// lowers it by one, whatever the other keys; nothing else changes. So the
/// two held together cancel.
pub proof fn lemma_engine_pitch_keys(k: EngineKeys)
    ensures
        shifted_by(engine_input_spec(EngineKeys { numpad8: true, ..k }), engine_input_spec(EngineKeys { numpad8: false, ..k }), (0, 0, 0), (1, 0, 0), 0),
        shifted_by(engine_input_spec(EngineKeys { numpad5: true, ..k }), engine_input_spec(EngineKeys { numpad5: false, ..k }), (0, 0, 0), (-1, 0, 0), 0),
{
}

/// Holding numpad 4 raises the angular y axis by one and holding numpad 6
/// lowers it by one, whatever the other keys; nothing else changes.
pub proof fn lemma_engine_yaw_keys(k: EngineKeys)
    ensures
        shifted_by(engine_input_spec(EngineKeys { numpad4: true, ..k }), engine_input_spec(EngineKeys { numpad4: false, ..k }), (0, 0, 0), (0, 1, 0), 0),
        shifted_by(engine_input_spec(EngineKeys { numpad6: true, ..k }), engine_input_spec(EngineKeys { numpad6: false, ..k }), (0, 0, 0), (0, -1, 0), 0),
{
}

/// Holding numpad 7 raises the angular z axis by one and holding numpad 9
/// lowers it by one, whatever the other keys; nothing else changes.
pub proof fn lemma_engine_roll_keys(k: EngineKeys)
    ensures
        shifted_by(engine_input_spec(EngineKeys { numpad7: true, ..k }), engine_input_spec(EngineKeys { numpad7: false, ..k }), (0, 0, 0), (0, 0, 1), 0),
        shifted_by(engine_input_spec(EngineKeys { numpad9: true, ..k }), engine_input_spec(EngineKeys { numpad9: false, ..k }), (0, 0, 0), (0, 0, -1), 0),
{
}

/// With none of the engine keys held, every axis and the set-velocity
/// steps are zero.
pub proof fn lemma_engine_no_keys_no_input(k: EngineKeys)
    ensures
        !k.w && !k.s && !k.d && !k.a && !k.e && !k.q && !k.numpad8 && !k.numpad5 && !k.numpad4 && !k.numpad6
            && !k.numpad7 && !k.numpad9 ==> engine_input_spec(k) == ((0int, 0int, 0int), (0int, 0int, 0int), 0int),
{
}

/// Pressing a key and releasing it again within one frame leaves the
/// camera's input state as it was, whatever the key (shift toggles twice).
pub proof fn lemma_press_release_cancels(s: CameraInputSpec, key_code: Option<CameraKey>)
    ensures
        after_events(
            s,
            seq![
                KeyboardInput { key_code, state: ElementState::Pressed },
                KeyboardInput { key_code, state: ElementState::Released },
            ],
        ) == s,
{
    let evs = seq![
        KeyboardInput { key_code, state: ElementState::Pressed },
        KeyboardInput { key_code, state: ElementState::Released },
    ];
    let e1 = evs.drop_last();
    assert(e1.drop_last() =~= Seq::<KeyboardInput>::empty());
    assert(after_events(s, e1.drop_last()) == s);
    assert(e1.last() == evs[0]);
    assert(after_events(s, e1) == after_event(s, evs[0]));
}

/// Each camera key moves one axis by one step, in its own direction, and
/// leaves everything else alone: `d` is `1` for a press and `-1` for a
/// release. The camera faces backwards, so `W` lowers the linear z axis,
/// `A` lowers the linear x axis and `Q` the linear y axis; `S`, `D` and `E`
/// raise them. Numpad 8, 4 and 7 raise the angular x, y and z axes; numpad
/// 5, 6 and 9 lower them. Left shift toggles the shift flag, and any other
/// key, or an event without a key code, changes nothing.
pub proof fn lemma_camera_key_moves_its_axis(s: CameraInputSpec, state: ElementState, d: int)
    requires
        d == (if state == ElementState::Pressed { 1int } else { -1int }),
    ensures
        after_event(s, (KeyboardInput { key_code: Some(CameraKey::W), state })) == (CameraInputSpec {
            lin: (s.lin.0, s.lin.1, s.lin.2 - d),
            ang: s.ang,
            shift_on: s.shift_on,
        }),
        after_event(s, (KeyboardInput { key_code: Some(CameraKey::S), state })) == (CameraInputSpec {
            lin: (s.lin.0, s.lin.1, s.lin.2 + d),
            ang: s.ang,
            shift_on: s.shift_on,
        }),
        after_event(s, (KeyboardInput { key_code: Some(CameraKey::D), state })) == (CameraInputSpec {
            lin: (s.lin.0 + d, s.lin.1, s.lin.2),
            ang: s.ang,
            shift_on: s.shift_on,
        }),
        after_event(s, (KeyboardInput { key_code: Some(CameraKey::A), state })) == (CameraInputSpec {
            lin: (s.lin.0 - d, s.lin.1, s.lin.2),
            ang: s.ang,
            shift_on: s.shift_on,
        }),
        after_event(s, (KeyboardInput { key_code: Some(CameraKey::E), state })) == (CameraInputSpec {
            lin: (s.lin.0, s.lin.1 + d, s.lin.2),
            ang: s.ang,
            shift_on: s.shift_on,
        }),
        after_event(s, (KeyboardInput { key_code: Some(CameraKey::Q), state })) == (CameraInputSpec {
            lin: (s.lin.0, s.lin.1 - d, s.lin.2),
            ang: s.ang,
            shift_on: s.shift_on,
        }),
        after_event(s, (KeyboardInput { key_code: Some(CameraKey::Numpad8), state })) == (CameraInputSpec {
            ang: (s.ang.0 + d, s.ang.1, s.ang.2),
            lin: s.lin,
            shift_on: s.shift_on,
        }),
        after_event(s, (KeyboardInput { key_code: Some(CameraKey::Numpad5), state })) == (CameraInputSpec {
            ang: (s.ang.0 - d, s.ang.1, s.ang.2),
            lin: s.lin,
            shift_on: s.shift_on,
        }),
        after_event(s, (KeyboardInput { key_code: Some(CameraKey::Numpad4), state })) == (CameraInputSpec {
            ang: (s.ang.0, s.ang.1 + d, s.ang.2),
            lin: s.lin,
            shift_on: s.shift_on,
        }),
        after_event(s, (KeyboardInput { key_code: Some(CameraKey::Numpad6), state })) == (CameraInputSpec {
            ang: (s.ang.0, s.ang.1 - d, s.ang.2),
            lin: s.lin,
            shift_on: s.shift_on,
        }),
        after_event(s, (KeyboardInput { key_code: Some(CameraKey::Numpad7), state })) == (CameraInputSpec {
            ang: (s.ang.0, s.ang.1, s.ang.2 + d),
            lin: s.lin,
            shift_on: s.shift_on,
        }),
        after_event(s, (KeyboardInput { key_code: Some(CameraKey::Numpad9), state })) == (CameraInputSpec {
            ang: (s.ang.0, s.ang.1, s.ang.2 - d),
            lin: s.lin,
            shift_on: s.shift_on,
        }),
        after_event(s, (KeyboardInput { key_code: Some(CameraKey::LShift), state })) == (CameraInputSpec {
            lin: s.lin,
            ang: s.ang,
            shift_on: !s.shift_on,
        }),
        after_event(s, (KeyboardInput { key_code: Some(CameraKey::Other), state })) == s,
        after_event(s, (KeyboardInput { key_code: None, state })) == s,
{
}

/// Two events in a row are folded one after the other.
proof fn lemma_two_events(s: CameraInputSpec, e1: KeyboardInput, e2: KeyboardInput)
    ensures
        after_events(s, seq![e1, e2]) == after_event(after_event(s, e1), e2),
{
    let evs = seq![e1, e2];
    assert(evs.drop_last().drop_last() =~= Seq::<KeyboardInput>::empty());
    assert(evs.drop_last() =~= seq![e1]);
    assert(after_events(s, evs.drop_last().drop_last()) == s);
    assert(evs.drop_last().last() == e1);
    assert(after_events(s, evs.drop_last()) == after_event(s, e1));
    assert(evs.last() == e2);
}

/// Opposite camera keys cancel: the same event of both keys of a pair
/// (`A` and `D`, `W` and `S`, `Q` and `E`, and the numpad pairs 8 and 5,
/// 4 and 6, 7 and 9) leaves the camera's input state as it was.
pub proof fn lemma_opposite_camera_keys_cancel(s: CameraInputSpec, state: ElementState)
    ensures
        after_events(s, seq![(KeyboardInput { key_code: Some(CameraKey::A), state }), (KeyboardInput { key_code: Some(CameraKey::D), state })]) == s,
        after_events(s, seq![(KeyboardInput { key_code: Some(CameraKey::W), state }), (KeyboardInput { key_code: Some(CameraKey::S), state })]) == s,
        after_events(s, seq![(KeyboardInput { key_code: Some(CameraKey::Q), state }), (KeyboardInput { key_code: Some(CameraKey::E), state })]) == s,
        after_events(s, seq![(KeyboardInput { key_code: Some(CameraKey::Numpad8), state }), (KeyboardInput { key_code: Some(CameraKey::Numpad5), state })]) == s,
        after_events(s, seq![(KeyboardInput { key_code: Some(CameraKey::Numpad4), state }), (KeyboardInput { key_code: Some(CameraKey::Numpad6), state })]) == s,
        after_events(s, seq![(KeyboardInput { key_code: Some(CameraKey::Numpad7), state }), (KeyboardInput { key_code: Some(CameraKey::Numpad9), state })]) == s,
{
    let d: int = if state == ElementState::Pressed { 1int } else { -1int };
    lemma_camera_key_moves_its_axis(s, state, d);
    let s1 = after_event(s, KeyboardInput { key_code: Some(CameraKey::A), state });
    lemma_camera_key_moves_its_axis(s1, state, d);
    let s2 = after_event(s, KeyboardInput { key_code: Some(CameraKey::W), state });
    lemma_camera_key_moves_its_axis(s2, state, d);
    let s3 = after_event(s, KeyboardInput { key_code: Some(CameraKey::Q), state });
    lemma_camera_key_moves_its_axis(s3, state, d);
    let s4 = after_event(s, KeyboardInput { key_code: Some(CameraKey::Numpad8), state });
    lemma_camera_key_moves_its_axis(s4, state, d);
    let s5 = after_event(s, KeyboardInput { key_code: Some(CameraKey::Numpad4), state });
    lemma_camera_key_moves_its_axis(s5, state, d);
    let s6 = after_event(s, KeyboardInput { key_code: Some(CameraKey::Numpad7), state });
    lemma_camera_key_moves_its_axis(s6, state, d);
    lemma_two_events(s, KeyboardInput { key_code: Some(CameraKey::A), state }, KeyboardInput { key_code: Some(CameraKey::D), state });
    lemma_two_events(s, KeyboardInput { key_code: Some(CameraKey::W), state }, KeyboardInput { key_code: Some(CameraKey::S), state });
    lemma_two_events(s, KeyboardInput { key_code: Some(CameraKey::Q), state }, KeyboardInput { key_code: Some(CameraKey::E), state });
    lemma_two_events(s, KeyboardInput { key_code: Some(CameraKey::Numpad8), state }, KeyboardInput { key_code: Some(CameraKey::Numpad5), state });
    lemma_two_events(s, KeyboardInput { key_code: Some(CameraKey::Numpad4), state }, KeyboardInput { key_code: Some(CameraKey::Numpad6), state });
    lemma_two_events(s, KeyboardInput { key_code: Some(CameraKey::Numpad7), state }, KeyboardInput { key_code: Some(CameraKey::Numpad9), state });
}

/// The camera's stored input axes always stay in `[-1, 1]`: an axis that
/// the events leave in that range is stored as it is, and one beyond it is
/// stored as the nearer bound.
pub proof fn lemma_clamped_axes_are_unit(v: IVec3, t: (int, int, int))
    requires
        clamped_axes(v, t),
    ensures
        -1 <= v.x <= 1 && -1 <= v.y <= 1 && -1 <= v.z <= 1,
        -1 <= t.0 <= 1 ==> v.x == t.0,
        -1 <= t.1 <= 1 ==> v.y == t.1,
        -1 <= t.2 <= 1 ==> v.z == t.2,
        t.0 > 1 ==> v.x == 1,
        t.1 > 1 ==> v.y == 1,
        t.2 > 1 ==> v.z == 1,
        t.0 < -1 ==> v.x == -1,
        t.1 < -1 ==> v.y == -1,
        t.2 < -1 ==> v.z == -1,
{
}

} // verus!
