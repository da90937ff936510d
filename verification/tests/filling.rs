use paint_core::fill::flood_fill;

fn solid(width: u32, height: u32, stride: u32, color: [u8; 4]) -> Vec<u8> {
    let mut buf = vec![0u8; (stride * height) as usize];
    for y in 0..height {
        for x in 0..width {
            let i = (y * stride + 4 * x) as usize;
            buf[i..i + 4].copy_from_slice(&color);
        }
    }
    buf
}

fn pixel(buf: &[u8], stride: u32, x: u32, y: u32) -> [u8; 4] {
    let i = (y * stride + 4 * x) as usize;
    [buf[i], buf[i + 1], buf[i + 2], buf[i + 3]]
}

const WHITE: [u8; 4] = [255, 255, 255, 255];
const RED: [u8; 4] = [255, 0, 0, 255];
const BLUE: [u8; 4] = [0, 0, 255, 255];

#[test]
fn fill_same_color_is_a_no_op() {
    let buf0 = solid(4, 4, 16, WHITE);
    let mut buf = buf0.clone();
    flood_fill(&mut buf, 4, 4, 16, 1, 1, WHITE);
    assert_eq!(buf, buf0);
}

#[test]
fn fill_out_of_bounds_is_a_no_op() {
    let buf0 = solid(4, 4, 16, WHITE);
    let mut buf = buf0.clone();
    flood_fill(&mut buf, 4, 4, 16, 4, 0, RED);
    assert_eq!(buf, buf0);
    flood_fill(&mut buf, 4, 4, 16, 0, 4, RED);
    assert_eq!(buf, buf0);
}

#[test]
fn fill_uniform_recolors_every_pixel() {
    let mut buf = solid(5, 3, 32, WHITE);
    flood_fill(&mut buf, 5, 3, 32, 2, 1, RED);
    let mut recolored = 0;
    for y in 0..3 {
        for x in 0..5 {
            assert_eq!(pixel(&buf, 32, x, y), RED);
            recolored += 1;
        }
    }
    assert_eq!(recolored, 15);
}

#[test]
fn fill_preserves_row_padding() {
    let stride = 32u32;
    let mut buf = solid(5, 3, stride, WHITE);
    for y in 0..3u32 {
        for i in (y * stride + 20)..(y * stride + stride) {
            buf[i as usize] = 0xAB;
        }
    }
    let padded = buf.clone();
    flood_fill(&mut buf, 5, 3, stride, 0, 0, BLUE);
    for y in 0..3u32 {
        for i in (y * stride + 20)..(y * stride + stride) {
            assert_eq!(buf[i as usize], padded[i as usize]);
        }
    }
    assert_eq!(pixel(&buf, stride, 4, 2), BLUE);
}

#[test]
fn fill_inside_closed_region_stops_at_boundary() {
    // a 5x5 white image with a red rectangle ring leaving a single white
    // inner 3x3 region; the outermost pixels stay white and unreachable
    // from the inside
    let w = 7u32;
    let h = 7u32;
    let stride = 28u32;
    let mut buf = solid(w, h, stride, WHITE);
    for k in 1..6u32 {
        for (x, y) in [(k, 1), (k, 5), (1, k), (5, k)] {
            let i = (y * stride + 4 * x) as usize;
            buf[i..i + 4].copy_from_slice(&RED);
        }
    }
    flood_fill(&mut buf, w, h, stride, 3, 3, BLUE);
    for y in 0..h {
        for x in 0..w {
            let p = pixel(&buf, stride, x, y);
            if x == 0 || y == 0 || x == 6 || y == 6 {
                // outside the ring: untouched white
                assert_eq!(p, WHITE);
            } else if x == 1 || y == 1 || x == 5 || y == 5 {
                // the ring itself: untouched red
                assert_eq!(p, RED);
            } else {
                // the enclosed region: recolored
                assert_eq!(p, BLUE);
            }
        }
    }
}

#[test]
fn fill_follows_connectivity_not_color_alone() {
    // two white pixels separated by a red column: only the component under
    // the start changes
    let mut buf = solid(3, 1, 12, WHITE);
    let i = 4usize;
    buf[i..i + 4].copy_from_slice(&RED);
    flood_fill(&mut buf, 3, 1, 12, 0, 0, BLUE);
    assert_eq!(pixel(&buf, 12, 0, 0), BLUE);
    assert_eq!(pixel(&buf, 12, 1, 0), RED);
    assert_eq!(pixel(&buf, 12, 2, 0), WHITE);
}

#[test]
fn fill_diagonal_is_not_connected() {
    // white pixels meeting only at a corner are separate 4-connected regions
    let mut buf = solid(2, 2, 8, RED);
    for (x, y) in [(0u32, 0u32), (1, 1)] {
        let i = (y * 8 + 4 * x) as usize;
        buf[i..i + 4].copy_from_slice(&WHITE);
    }
    flood_fill(&mut buf, 2, 2, 8, 0, 0, BLUE);
    assert_eq!(pixel(&buf, 8, 0, 0), BLUE);
    assert_eq!(pixel(&buf, 8, 1, 1), WHITE);
    assert_eq!(pixel(&buf, 8, 1, 0), RED);
    assert_eq!(pixel(&buf, 8, 0, 1), RED);
}
