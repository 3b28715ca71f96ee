use beer_mouse_clicker::screen::{crop_window, window_center};

#[test]
fn a_window_is_cropped_out_of_the_screen() {
    // a 3 by 2 screen, pixel (x, y) holds bytes [x, y, 9, 255]
    let mut px = Vec::new();
    for y in 0..2u8 {
        for x in 0..3u8 {
            px.extend_from_slice(&[x, y, 9, 255]);
        }
    }
    let (rx, ry, rw, rh, v) = crop_window(&px, 3, 2, 1, 0, 3, 2).unwrap();
    assert_eq!((rx, ry, rw, rh), (1, 0, 2, 2));
    assert_eq!(v, vec![1, 0, 9, 255, 2, 0, 9, 255, 1, 1, 9, 255, 2, 1, 9, 255]);
}

#[test]
fn a_window_past_the_edge_reads_zeros_there() {
    let px = vec![7u8; 2 * 2 * 4];
    let (rx, ry, rw, rh, v) = crop_window(&px, 2, 2, -5, 1, 1, 9).unwrap();
    assert_eq!((rx, ry, rw, rh), (0, 1, 2, 2));
    assert_eq!(v, vec![7, 7, 7, 7, 7, 7, 7, 7, 0, 0, 0, 0, 0, 0, 0, 0]);
}

#[test]
fn an_empty_window_crops_nothing() {
    let px = vec![0u8; 16];
    assert!(crop_window(&px, 2, 2, 1, 1, 1, 5).is_none());
}

#[test]
fn window_centres_round_toward_zero() {
    assert_eq!(window_center(0, 0, 101, 51), (50, 25));
    assert_eq!(window_center(-101, -3, 0, 0), (-50, -1));
}
