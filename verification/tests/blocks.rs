use paint_core::helpers::{Action, Size};
use paint_core::layout::{
    ComputeUniformBufferObject, FragmentUniformBufferObject, StorageBufferObject,
    VertexUniformBufferObject,
};
use paint_core::params::{DisplayParams, ShapeParams, ViewTransform};
use paint_core::points::{Point, PointBuffer};
use paint_core::render::{
    acquire_step, choose_present_mode, choose_texture_format, fill_buffer_row_bytes,
    validate_texture_size, workgroups, AcquireStep, Error, PresentModeKind, TextureFormatKind,
};
use paint_core::transform::Frac;

#[test]
fn action_codes_are_the_shared_encoding() {
    assert_eq!(Action::Init.code(), 0);
    assert_eq!(Action::DrawLine.code(), 1);
    assert_eq!(Action::DrawRectangle.code(), 2);
    assert_eq!(Action::DrawCircle.code(), 3);
    assert_eq!(Action::DrawEllipse.code(), 4);
    assert_eq!(Action::DrawPolygon.code(), 5);
    assert_eq!(Action::Erase.code(), 6);
    assert_eq!(Action::Fill.code(), 7);
    assert_eq!(Action::CutRectangle.code(), 8);
}

#[test]
fn vertex_block_serializes_little_endian() {
    let ubo = VertexUniformBufferObject {
        scale_x_bits: 0x01020304,
        scale_y_bits: 0x05060708,
        offset_x_bits: 0,
        offset_y_bits: 0xFFFFFFFF,
    };
    let bytes = ubo.as_bytes();
    assert_eq!(bytes.len(), 16);
    assert_eq!(&bytes[0..4], &[4, 3, 2, 1]);
    assert_eq!(&bytes[4..8], &[8, 7, 6, 5]);
    assert_eq!(&bytes[8..12], &[0, 0, 0, 0]);
    assert_eq!(&bytes[12..16], &[255, 255, 255, 255]);
}

#[test]
fn compute_block_is_48_bytes_with_action_code_and_padding() {
    let ubo = ComputeUniformBufferObject {
        color_r_bits: 1,
        color_g_bits: 2,
        color_b_bits: 3,
        color_a_bits: 4,
        action: Action::DrawLine,
        stroke_bits: 0x0000000A,
        anti_aliasing_scale_bits: 0,
        dash_length_bits: 0,
        gap_length_bits: 0,
    };
    let bytes = ubo.as_bytes();
    assert_eq!(bytes.len(), 48);
    assert_eq!(&bytes[0..4], &[1, 0, 0, 0]);
    assert_eq!(&bytes[16..20], &[1, 0, 0, 0]);
    assert_eq!(&bytes[20..24], &[10, 0, 0, 0]);
    assert_eq!(&bytes[36..48], &[0u8; 12]);
}

#[test]
fn fragment_block_widens_the_preview_flag() {
    let ubo = FragmentUniformBufferObject {
        grid_scale_x_bits: 0,
        grid_scale_y_bits: 0,
        action: Action::Fill,
        preview: true,
    };
    let bytes = ubo.as_bytes();
    assert_eq!(bytes.len(), 16);
    assert_eq!(&bytes[8..12], &[7, 0, 0, 0]);
    assert_eq!(&bytes[12..16], &[1, 0, 0, 0]);
    let ubo2 = FragmentUniformBufferObject { preview: false, ..ubo };
    assert_eq!(&ubo2.as_bytes()[12..16], &[0, 0, 0, 0]);
}

#[test]
fn storage_block_layout_is_length_padding_points() {
    let sbo = StorageBufferObject { length: 2, point_bits: vec![(1, 2), (3, 4)] };
    let bytes = sbo.as_bytes();
    assert_eq!(
        bytes,
        vec![
            2, 0, 0, 0, 0, 0, 0, 0, 1, 0, 0, 0, 2, 0, 0, 0, 3, 0, 0, 0, 4, 0, 0, 0,
        ]
    );
}

#[test]
fn storage_block_default_is_full_size_and_empty() {
    let sbo = StorageBufferObject::default();
    assert_eq!(sbo.length, 0);
    assert_eq!(sbo.point_bits.len(), 4096);
    let bytes = sbo.as_bytes();
    assert_eq!(bytes.len(), 8 + 8 * 4096);
    assert_eq!(&bytes[0..4], &[0, 0, 0, 0]);
}

#[test]
fn shape_params_dirty_discipline() {
    let mut p = ShapeParams::new();
    assert!(!p.is_dirty());
    p.set_color_bits(1, 2, 3, 4);
    assert!(p.is_dirty());
    p.set_stroke_bits(10);
    assert!(p.is_dirty());
    // two mutations coalesce into a single transfer
    let first = p.flush();
    assert!(first.is_some());
    assert_eq!(first.unwrap().len(), 48);
    assert!(!p.is_dirty());
    assert!(p.flush().is_none());
    p.set_action(Action::Erase);
    assert!(p.is_dirty());
}

#[test]
fn view_transform_dirty_discipline() {
    let mut v = ViewTransform::new();
    assert!(!v.is_dirty());
    v.set_zoom(Frac::new(80, 1));
    assert!(v.is_dirty());
    assert!(v.flush());
    assert!(!v.is_dirty());
    assert!(!v.flush());
    v.set_offset(Frac::new(1, 2), Frac::new(-1, 4));
    assert!(v.is_dirty());
    let (ox, oy) = v.offset_copy();
    assert_eq!((ox.num, ox.den), (1, 2));
    assert_eq!((oy.num, oy.den), (-1, 4));
}

#[test]
fn display_params_dirty_discipline() {
    let mut d = DisplayParams::new();
    assert!(!d.is_dirty());
    d.set_preview(true);
    d.set_action(Action::DrawCircle);
    assert!(d.is_dirty());
    let bytes = d.flush().unwrap();
    assert_eq!(bytes.len(), 16);
    assert_eq!(&bytes[8..12], &[3, 0, 0, 0]);
    assert_eq!(&bytes[12..16], &[1, 0, 0, 0]);
    assert!(d.flush().is_none());
}

#[test]
fn point_buffer_bound_and_order() {
    let mut b = PointBuffer::new();
    assert!(!b.is_dirty());
    for i in 0..4096i64 {
        assert!(b.push(Point::new(i, i)));
    }
    assert!(!b.push(Point::new(9, 9)));
    assert_eq!(b.len(), 4096);
    assert!(b.is_dirty());
    assert_eq!(b.get(0), Point::new(0, 0));
    assert_eq!(b.get(4095), Point::new(4095, 4095));
}

#[test]
fn point_buffer_removal_semantics() {
    let mut b = PointBuffer::new();
    b.push(Point::new(1, 1));
    b.push(Point::new(2, 2));
    b.push(Point::new(3, 3));
    let r = b.swap_remove(0);
    assert_eq!(r, Point::new(1, 1));
    assert_eq!(b.get(0), Point::new(3, 3));
    assert_eq!(b.len(), 2);
    let r2 = b.remove(0);
    assert_eq!(r2, Point::new(3, 3));
    assert_eq!(b.get(0), Point::new(2, 2));
}

#[test]
fn texture_size_validation_names_the_axis() {
    assert_eq!(validate_texture_size(Size::new(1500, 1000), 16384), Ok(()));
    assert_eq!(
        validate_texture_size(Size::new(0, 1000), 16384),
        Err(Error::TextureWidth(0))
    );
    assert_eq!(
        validate_texture_size(Size::new(20000, 1000), 16384),
        Err(Error::TextureWidth(20000))
    );
    assert_eq!(
        validate_texture_size(Size::new(1500, 0), 16384),
        Err(Error::TextureHeight(0))
    );
}

#[test]
fn workgroups_cover_the_texture() {
    assert_eq!(workgroups(Size::new(1500, 1000)), (188, 125));
    assert_eq!(workgroups(Size::new(8, 8)), (1, 1));
    assert_eq!(workgroups(Size::new(9, 17)), (2, 3));
}

#[test]
fn fill_rows_align_to_256_bytes() {
    assert_eq!(fill_buffer_row_bytes(1500), 6144);
    assert_eq!(fill_buffer_row_bytes(64), 256);
    assert_eq!(fill_buffer_row_bytes(65), 512);
    assert_eq!(fill_buffer_row_bytes(0), 0);
}

#[test]
fn format_choice_prefers_rgba_then_bgra() {
    let cands = vec![
        TextureFormatKind::Other,
        TextureFormatKind::Bgra8Unorm,
        TextureFormatKind::Rgba8Unorm,
        TextureFormatKind::Other,
    ];
    assert_eq!(choose_texture_format(&cands), Ok(2));
    let empty: Vec<TextureFormatKind> = vec![];
    assert_eq!(choose_texture_format(&empty), Err(Error::TextureFormatNotFound));
    // ties keep the later candidate: a maximum scan settles on the last
    let tied = vec![TextureFormatKind::Bgra8Unorm, TextureFormatKind::Bgra8Unorm];
    assert_eq!(choose_texture_format(&tied), Ok(1));
}

#[test]
fn present_mode_choice_prefers_mailbox() {
    let cands = vec![
        PresentModeKind::Immediate,
        PresentModeKind::Fifo,
        PresentModeKind::Mailbox,
    ];
    assert_eq!(choose_present_mode(&cands), Ok(2));
    let fifo_only = vec![PresentModeKind::Fifo];
    assert_eq!(choose_present_mode(&fifo_only), Ok(0));
    let empty: Vec<PresentModeKind> = vec![];
    assert_eq!(choose_present_mode(&empty), Err(Error::PresentModeNotFound));
}

#[test]
fn frame_acquisition_retries_once() {
    assert_eq!(acquire_step(true, 0), AcquireStep::Proceed);
    assert_eq!(acquire_step(false, 0), AcquireStep::ReconfigureAndRetry);
    assert_eq!(acquire_step(true, 1), AcquireStep::Proceed);
    assert_eq!(acquire_step(false, 1), AcquireStep::Fail);
}

#[test]
fn error_messages_are_nonempty() {
    assert!(!Error::AdapterNotFound.message().is_empty());
    assert!(!Error::TextureWidth(9).message().is_empty());
}
