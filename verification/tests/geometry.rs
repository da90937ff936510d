use paint_core::helpers::Size;
use paint_core::transform::{
    apply_zoom, pan_offset, scale_from_zoom, texture_to_window, window_to_texture, Frac,
};

#[test]
fn floor_rounds_toward_negative_infinity() {
    assert_eq!(Frac::new(7, 2).floor(), 3);
    assert_eq!(Frac::new(-7, 2).floor(), -4);
    assert_eq!(Frac::new(-8, 2).floor(), -4);
    assert_eq!(Frac::new(0, 5).floor(), 0);
}

#[test]
fn quantize_scales_and_floors() {
    let q = Frac::new(-7, 2).quantize(4);
    assert_eq!(q.num, -14);
    assert_eq!(q.den, 4);
    let q2 = Frac::new(1, 3).quantize(6);
    assert_eq!(q2.num, 2);
    assert_eq!(q2.den, 6);
}

#[test]
fn identity_view_maps_window_to_texture_unchanged() {
    let win = Size::new(1000u32, 1000u32);
    let tex = Size::new(1000u32, 1000u32);
    let zoom = Frac::new(100, 1);
    let offset = (Frac::new(0, 1), Frac::new(0, 1));
    let p = (Frac::new(100, 1), Frac::new(100, 1));
    let t = window_to_texture(p, win, tex, zoom, offset);
    assert_eq!(t.0.floor(), 100);
    assert_eq!(t.1.floor(), 100);
    // exactly 100, not merely the same floor
    assert_eq!(t.0.num, 100 * t.0.den);
    assert_eq!(t.1.num, 100 * t.1.den);
}

#[test]
fn round_trip_through_window_space_is_exact() {
    let win = Size::new(1000u32, 1000u32);
    let tex = Size::new(1000u32, 1000u32);
    let zoom = Frac::new(100, 1);
    let offset = (Frac::new(0, 1), Frac::new(0, 1));
    let t = (Frac::new(250, 1), Frac::new(40, 1));
    let p = texture_to_window(t, win, tex, zoom, offset);
    // under the identity view the window position is integral
    assert_eq!(p.0.num, 250 * p.0.den);
    assert_eq!(p.1.num, 40 * p.1.den);
    let back = window_to_texture(
        (p.0.quantize(1), p.1.quantize(1)),
        win,
        tex,
        zoom,
        offset,
    );
    assert_eq!(back.0.num, 250 * back.0.den);
    assert_eq!(back.1.num, 40 * back.1.den);
}

#[test]
fn scale_follows_aspect_ratios_and_zoom() {
    let win = Size::new(1366u32, 768u32);
    let tex = Size::new(1500u32, 1000u32);
    let zoom = Frac::new(80, 1);
    let (sx, sy) = scale_from_zoom(win, tex, zoom);
    // textureAspect/windowAspect = (1500*768)/(1000*1366) <= 1, so the
    // horizontal axis takes the ratio and the vertical axis saturates at 1
    assert_eq!(sx.num, 1152000 * 80);
    assert_eq!(sx.den, 1366000 * 100);
    assert_eq!(sy.num, 80);
    assert_eq!(sy.den, 100);
}

#[test]
fn zoom_steps_and_clamps_at_one() {
    let z = apply_zoom(Frac::new(80, 1), Frac::new(5, 1), Frac::new(100, 1));
    // 80 + 5*100/100 = 85
    assert_eq!(z.num, 8500);
    assert_eq!(z.den, 100);
    let z2 = apply_zoom(Frac::new(1, 1), Frac::new(-100, 1), Frac::new(100, 1));
    assert_eq!(z2.num, 1);
    assert_eq!(z2.den, 1);
}

#[test]
fn pan_moves_offset_by_scaled_pointer_delta() {
    let grab_offset = (Frac::new(0, 1), Frac::new(0, 1));
    let grab_pos = (Frac::new(0, 1), Frac::new(0, 1));
    let cur_pos = (Frac::new(100, 1), Frac::new(0, 1));
    // the identity view's scale as an unreduced rational
    let scale = (
        Frac::new(100000000, 100000000),
        Frac::new(100000000, 100000000),
    );
    let tex = Size::new(1000u32, 1000u32);
    let (ox, oy) = pan_offset(grab_offset, grab_pos, cur_pos, scale, tex);
    // 100 pixels * 0.001 = 0.1, floored to 1/2^20 steps
    assert_eq!(ox.num, 104857);
    assert_eq!(ox.den, 1048576);
    assert_eq!(oy.num, 0);
    assert_eq!(oy.den, 1048576);
}
