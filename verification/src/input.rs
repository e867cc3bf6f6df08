//! The gamepad that the console sees: a directional pad and five buttons,
//! driven by touches on the screen and by keys.

use crate::geometry::{div_toward_zero, Circle, Point, Vec2, DELTA_MAX};
use crate::tracker::Touch;
use vstd::prelude::*;

verus! {

/// The largest magnitude of a pad axis.
pub const AXIS_MAX: i16 = 1000;

/// Where the directional pad is pushed: each axis from `-AXIS_MAX` to
/// `AXIS_MAX`, `x` to the right and `y` upwards.
#[derive(Clone, Copy, Debug, PartialEq, Eq, Default)]
pub struct Pad {
    pub x: i16,
    pub y: i16,
}

/// The state of the gamepad in one frame. Bit `i` of `buttons` is set while
/// button `i` is held.
#[derive(Clone, Copy, Debug, PartialEq, Eq)]
pub struct InputState {
    pub pad: Option<Pad>,
    pub buttons: u8,
}

/// Where the on-screen controls are: the disc of the directional pad and the
/// discs of the first four buttons.
#[derive(Clone, Copy, Debug, PartialEq, Eq)]
pub struct UiPos {
    pub pad: Circle,
    pub buttons: [Circle; 4],
}

/// The keys that the gamepad listens to, each `true` while it is down.
#[derive(Clone, Copy, Debug, PartialEq, Eq, Default)]
pub struct Keys {
    /// The arrow keys.
    pub left: bool,
    pub right: bool,
    pub up: bool,
    pub down: bool,
    /// The digits that stand for down, left, center, right and up.
    pub key2: bool,
    pub key4: bool,
    pub key5: bool,
    pub key6: bool,
    pub key8: bool,
    /// The keys of the first button.
    pub z: bool,
    pub enter: bool,
    pub space: bool,
    /// The keys of the second button.
    pub x: bool,
    pub b: bool,
    pub backspace: bool,
    /// The key of the third button.
    pub a: bool,
    /// The keys of the fourth button.
    pub y: bool,
    pub s: bool,
    /// The keys of the menu button.
    pub back: bool,
    pub tab: bool,
}

/// The part of `AXIS_MAX` that the offset `d` is of the radius `r`,
/// rounded toward zero.
pub open spec fn axis(d: int, r: int) -> int {
    div_toward_zero(d * AXIS_MAX, r)
}

/// The pad position that a touch at `q` inside the disc `c` gives: the way
/// from the center to the touch, scaled so that the rim is at `AXIS_MAX`,
/// with the vertical axis pointing up.
pub open spec fn pad_vector(c: Circle, q: Vec2) -> Pad {
    Pad { x: axis(q.x - c.p@.x, c.r as int) as i16, y: (-axis(q.y - c.p@.y, c.r as int)) as i16 }
}

/// The pad position that the touches give: that of the last touch inside
/// the disc `c`, if there is one.
pub open spec fn touch_pad(c: Circle, touches: Seq<Touch>) -> Option<Pad>
    decreases touches.len(),
{
    if touches.len() == 0 {
        None
    } else if c.covers(touches.last().position@) {
        Some(pad_vector(c, touches.last().position@))
    } else {
        touch_pad(c, touches.drop_last())
    }
}

/// The pad position, or the center where there is none.
pub open spec fn or_center(pad: Option<Pad>) -> Pad {
    match pad {
        Some(p) => p,
        None => Pad { x: 0, y: 0 },
    }
}

/// The pad position once the keys have had their say. Left and right set
/// the horizontal axis, up and down the vertical one, each to its end; of
/// two opposite keys the later in that order wins. The center key pushes
/// the pad without moving it.
pub open spec fn with_keys(pad: Option<Pad>, keys: Keys) -> Option<Pad> {
    let p1 = if keys.left || keys.key4 {
        Some(Pad { x: (-AXIS_MAX) as i16, y: or_center(pad).y })
    } else {
        pad
    };
    let p2 = if keys.right || keys.key6 {
        Some(Pad { x: AXIS_MAX, y: or_center(p1).y })
    } else {
        p1
    };
    let p3 = if keys.up || keys.key8 {
        Some(Pad { x: or_center(p2).x, y: AXIS_MAX })
    } else {
        p2
    };
    let p4 = if keys.down || keys.key2 {
        Some(Pad { x: or_center(p3).x, y: (-AXIS_MAX) as i16 })
    } else {
        p3
    };
    if keys.key5 {
        Some(or_center(p4))
    } else {
        p4
    }
}

/// Whether some touch lies inside the disc `c`.
pub open spec fn touched(c: Circle, touches: Seq<Touch>) -> bool {
    exists|i: int| 0 <= i < touches.len() && c.covers(#[trigger] touches[i].position@)
}

/// Whether a key holds the button `button`.
pub open spec fn key_held(keys: Keys, button: int) -> bool {
    if button == 0 {
        keys.z || keys.enter || keys.space
    } else if button == 1 {
        keys.x || keys.b || keys.backspace
    } else if button == 2 {
        keys.a
    } else if button == 3 {
        keys.y || keys.s
    } else if button == 4 {
        keys.back || keys.tab
    } else {
        false
    }
}

/// Whether the button `button` is held, by a touch inside its disc or by
/// one of its keys. The fifth button, the menu, has keys only.
pub open spec fn held(ui: UiPos, touches: Seq<Touch>, keys: Keys, button: int) -> bool {
    (0 <= button < 4 && touched(ui.buttons[button], touches)) || key_held(keys, button)
}

/// The value of bit `button` where `on` holds, zero elsewhere.
pub open spec fn bit(on: bool, button: int) -> int {
    if !on {
        0
    } else if button == 0 {
        1
    } else if button == 1 {
        2
    } else if button == 2 {
        4
    } else if button == 3 {
        8
    } else {
        16
    }
}

/// The button mask: bit `i` is set exactly when button `i` is held.
pub open spec fn button_mask(ui: UiPos, touches: Seq<Touch>, keys: Keys) -> int {
    bit(held(ui, touches, keys, 0), 0) + bit(held(ui, touches, keys, 1), 1) + bit(
        held(ui, touches, keys, 2),
        2,
    ) + bit(held(ui, touches, keys, 3), 3) + bit(held(ui, touches, keys, 4), 4)
}

/// Whether bit `button` of `mask` is set.
pub open spec fn bit_set(mask: u8, button: int) -> bool {
    (mask >> (button as u8)) & 1 == 1
}

/// In the button mask, bit `i` is set exactly when button `i` is held, and
/// no other bit is set.
pub proof fn lemma_mask_bits(ui: UiPos, touches: Seq<Touch>, keys: Keys, mask: u8)
    requires
        mask == button_mask(ui, touches, keys),
    ensures
        mask < 32,
        forall|button: int|
            0 <= button < 5 ==> (#[trigger] bit_set(mask, button) <==> held(
                ui,
                touches,
                keys,
                button,
            )),
{
    assert(mask & 1 == mask % 2) by (bit_vector);
    assert((mask >> 0u8) == mask) by (bit_vector);
    assert((mask >> 1u8) & 1 == (mask / 2) % 2) by (bit_vector);
    assert((mask >> 2u8) & 1 == (mask / 4) % 2) by (bit_vector);
    assert((mask >> 3u8) & 1 == (mask / 8) % 2) by (bit_vector);
    assert((mask >> 4u8) & 1 == (mask / 16) % 2) by (bit_vector);
    assert(bit_set(mask, 0) <==> held(ui, touches, keys, 0));
    assert(bit_set(mask, 1) <==> held(ui, touches, keys, 1));
    assert(bit_set(mask, 2) <==> held(ui, touches, keys, 2));
    assert(bit_set(mask, 3) <==> held(ui, touches, keys, 3));
    assert(bit_set(mask, 4) <==> held(ui, touches, keys, 4));
}

/// Whether both axes of the pad, if it is pushed, are within `AXIS_MAX`.
pub open spec fn in_range(pad: Option<Pad>) -> bool {
    pad matches Some(p) ==> -AXIS_MAX <= p.x <= AXIS_MAX && -AXIS_MAX <= p.y <= AXIS_MAX
}

/// Where `(d, e)` is the way from the center of a disc of radius `r` to a
/// point inside it, the axis value of `d` has a smaller magnitude than
/// `AXIS_MAX`.
pub proof fn lemma_axis_inside(d: int, e: int, r: int)
    requires
        0 <= r,
        d * d + e * e < r * r,
    ensures
        -AXIS_MAX < axis(d, r) < AXIS_MAX,
{
    assert(-r < d < r) by (nonlinear_arith)
        requires
            0 <= r,
            d * d + e * e < r * r,
    ;
    if d >= 0 {
        assert(0 <= (d * 1000) / r < 1000) by (nonlinear_arith)
            requires
                0 <= d < r,
        ;
    } else {
        assert(0 <= (-(d * 1000)) / r < 1000) by (nonlinear_arith)
            requires
                0 < -d < r,
        ;
    }
}

/// A touch inside the disc gives a pad position within range.
pub proof fn lemma_pad_vector_in_range(c: Circle, q: Vec2)
    requires
        c.covers(q),
    ensures
        c.r > 0,
        in_range(Some(pad_vector(c, q))),
        -AXIS_MAX < axis(q.x - c.p@.x, c.r as int) < AXIS_MAX,
        -AXIS_MAX < axis(q.y - c.p@.y, c.r as int) < AXIS_MAX,
        pad_vector(c, q).x == axis(q.x - c.p@.x, c.r as int),
        pad_vector(c, q).y == -axis(q.y - c.p@.y, c.r as int),
{
    let d = q.minus(c.p@);
    let r = c.r as int;
    assert(r > 0) by (nonlinear_arith)
        requires
            r >= 0,
            d.x * d.x + d.y * d.y < r * r,
    ;
    lemma_axis_inside(d.x, d.y, r);
    lemma_axis_inside(d.y, d.x, r);
}

/// The touches give a pad position within range, if any.
pub proof fn lemma_touch_pad_in_range(c: Circle, touches: Seq<Touch>)
    ensures
        in_range(touch_pad(c, touches)),
    decreases touches.len(),
{
    if touches.len() > 0 {
        if c.covers(touches.last().position@) {
            lemma_pad_vector_in_range(c, touches.last().position@);
        } else {
            lemma_touch_pad_in_range(c, touches.drop_last());
        }
    }
}

/// A pad position within range stays within range when the keys have had
/// their say.
pub proof fn lemma_with_keys_in_range(pad: Option<Pad>, keys: Keys)
    requires
        in_range(pad),
    ensures
        in_range(with_keys(pad, keys)),
{
}

/// The pad is pushed exactly when a touch lies inside its disc or one of
/// its keys is down.
pub proof fn lemma_pad_pushed(c: Circle, touches: Seq<Touch>, keys: Keys)
    ensures
        with_keys(touch_pad(c, touches), keys) is Some <==> (touched(c, touches) || keys.left
            || keys.key4 || keys.right || keys.key6 || keys.up || keys.key8 || keys.down
            || keys.key2 || keys.key5),
{
    lemma_touch_pad_some(c, touches);
}

/// The touches push the pad exactly when one of them lies inside its disc.
proof fn lemma_touch_pad_some(c: Circle, touches: Seq<Touch>)
    ensures
        touch_pad(c, touches) is Some <==> touched(c, touches),
    decreases touches.len(),
{
    if touches.len() > 0 {
        let rest = touches.drop_last();
        lemma_touch_pad_some(c, rest);
        if c.covers(touches.last().position@) {
            assert(c.covers(touches[touches.len() - 1].position@));
        } else {
            if touched(c, rest) {
                let i = choose|i: int|
                    0 <= i < rest.len() && c.covers(#[trigger] rest[i].position@);
                assert(c.covers(touches[i].position@));
            }
            if touched(c, touches) {
                let i = choose|i: int|
                    0 <= i < touches.len() && c.covers(#[trigger] touches[i].position@);
                assert(c.covers(rest[i].position@));
            }
        }
    }
}

/// The pad position that a touch at `q` inside the disc `c` gives.
fn pad_from_touch(c: &Circle, q: Point) -> (pad: Pad)
    requires
        c.covers(q@),
    ensures
        pad == pad_vector(*c, q@),
{
    let d = q.sub(c.p);
    let r = c.r as i64;
    proof {
        lemma_pad_vector_in_range(*c, q@);
    }
    Pad { x: axis_of(d.dx(), r), y: -axis_of(d.dy(), r) }
}

/// The part of `AXIS_MAX` that the offset `d` is of the radius `r`.
fn axis_of(d: i64, r: i64) -> (a: i16)
    requires
        -DELTA_MAX <= d <= DELTA_MAX,
        r > 0,
        -AXIS_MAX < axis(d as int, r as int) < AXIS_MAX,
    ensures
        a == axis(d as int, r as int),
{
    let scaled: i64 = d * 1000;
    if scaled >= 0 {
        (scaled / r) as i16
    } else {
        (-((-scaled) / r)) as i16
    }
}

/// Whether some touch lies inside the disc `c`.
fn any_inside(c: &Circle, touches: &[Touch]) -> (found: bool)
    ensures
        found == touched(*c, touches@),
{
    let n = touches.len();
    let mut i: usize = 0;
    while i < n
        invariant
            i <= n,
            n == touches@.len(),
            forall|j: int| 0 <= j < i ==> !c.covers(#[trigger] touches@[j].position@),
        decreases n - i,
    {
        if c.contains(touches[i].position) {
            return true;
        }
        i = i + 1;
    }
    false
}

/// The bit of `button`, if it is `on`.
fn bit_of(on: bool, button: u8) -> (mask: u8)
    requires
        button < 5,
    ensures
        mask == bit(on, button as int),
{
    assert(1u8 << 0u8 == 1 && 1u8 << 1u8 == 2 && 1u8 << 2u8 == 4 && 1u8 << 3u8 == 8 && 1u8 << 4u8
        == 16) by (bit_vector);
    if on {
        1u8 << button
    } else {
        0
    }
}

/// The pad position that the touches give.
fn pad_of_touches(c: &Circle, touches: &[Touch]) -> (pad: Option<Pad>)
    ensures
        pad == touch_pad(*c, touches@),
{
    let mut pad: Option<Pad> = None;
    let n = touches.len();
    let mut i: usize = 0;
    while i < n
        invariant
            i <= n,
            n == touches@.len(),
            pad == touch_pad(*c, touches@.take(i as int)),
        decreases n - i,
    {
        let p = touches[i].position;
        proof {
            let next = touches@.take(i + 1);
            assert(next.drop_last() == touches@.take(i as int));
            assert(next.last() == touches@[i as int]);
        }
        if c.contains(p) {
            pad = Some(pad_from_touch(c, p));
        }
        i = i + 1;
    }
    assert(touches@.take(n as int) == touches@);
    pad
}

/// The pad position once the keys have had their say.
fn pad_with_keys(pad: Option<Pad>, keys: &Keys) -> (merged: Option<Pad>)
    ensures
        merged == with_keys(pad, *keys),
{
    let mut pad = pad;
    if keys.left || keys.key4 {
        pad = Some(Pad { x: -AXIS_MAX, y: center_or(pad).y });
    }
    if keys.right || keys.key6 {
        pad = Some(Pad { x: AXIS_MAX, y: center_or(pad).y });
    }
    if keys.up || keys.key8 {
        pad = Some(Pad { x: center_or(pad).x, y: AXIS_MAX });
    }
    if keys.down || keys.key2 {
        pad = Some(Pad { x: center_or(pad).x, y: -AXIS_MAX });
    }
    if keys.key5 {
        pad = Some(center_or(pad));
    }
    pad
}

/// The button mask for the touches and keys.
fn buttons_of(ui: &UiPos, touches: &[Touch], keys: &Keys) -> (mask: u8)
    ensures
        mask == button_mask(*ui, touches@, *keys),
{
    let b0 = any_inside(&ui.buttons[0], touches) || keys.z || keys.enter || keys.space;
    let b1 = any_inside(&ui.buttons[1], touches) || keys.x || keys.b || keys.backspace;
    let b2 = any_inside(&ui.buttons[2], touches) || keys.a;
    let b3 = any_inside(&ui.buttons[3], touches) || keys.y || keys.s;
    // Menu key
    let b4 = keys.back || keys.tab;
    bit_of(b0, 0) + bit_of(b1, 1) + bit_of(b2, 2) + bit_of(b3, 3) + bit_of(b4, 4)
}

/// The state of the gamepad for the touches and keys of one frame.
///
/// The last touch inside the pad's disc pushes the pad; the keys then
/// override its axes. A button is held while a touch lies inside its disc
/// or one of its keys is down.
pub fn input(ui: &UiPos, touches: &[Touch], keys: &Keys) -> (state: InputState)
    ensures
        state.pad == with_keys(touch_pad(ui.pad, touches@), *keys),
        state.buttons == button_mask(*ui, touches@, *keys),
        in_range(state.pad),
        forall|button: int|
            0 <= button < 5 ==> (#[trigger] bit_set(state.buttons, button) <==> held(
                *ui,
                touches@,
                *keys,
                button,
            )),
{
    // soft pad on touch screen, then the keys
    let pad = pad_with_keys(pad_of_touches(&ui.pad, touches), keys);
    let buttons = buttons_of(ui, touches, keys);
    proof {
        lemma_touch_pad_in_range(ui.pad, touches@);
        lemma_with_keys_in_range(touch_pad(ui.pad, touches@), *keys);
        lemma_mask_bits(*ui, touches@, *keys, buttons);
    }
    InputState { pad, buttons }
}

/// The pad position, or the center where there is none.
fn center_or(pad: Option<Pad>) -> (p: Pad)
    ensures
        p == or_center(pad),
{
    match pad {
        Some(p) => p,
        None => Pad { x: 0, y: 0 },
    }
}

} // verus!
