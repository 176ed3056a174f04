use draytek_vpn::icons::{draw_thick_line, set_pixel};

fn painted(data: &[u8], s: usize) -> Vec<(usize, usize)> {
    let mut v = Vec::new();
    for y in 0..s {
        for x in 0..s {
            let i = (y * s + x) * 4;
            if data[i..i + 4] == [255, 255, 255, 255] {
                v.push((x, y));
            }
        }
    }
    v
}

#[test]
fn set_pixel_inside_and_outside() {
    let mut data = vec![0u8; 2 * 2 * 4];
    set_pixel(&mut data, 1, 1, 2, [1, 2, 3, 4]);
    assert_eq!(&data[12..16], &[1, 2, 3, 4]);
    set_pixel(&mut data, 0, 2, 2, [9, 9, 9, 9]);
    assert_eq!(data.len(), 16);
    assert!(data[..12].iter().all(|&b| b == 0));
}

#[test]
fn thick_line_shallow() {
    let s = 6;
    let mut data = vec![0u8; s * s * 4];
    draw_thick_line(&mut data, s, 1, 1, 4, 2);
    assert_eq!(
        painted(&data, s),
        vec![(1, 1), (2, 1), (3, 1), (1, 2), (2, 2), (3, 2), (4, 2), (5, 2), (3, 3), (4, 3), (5, 3)]
    );
}

#[test]
fn thick_line_diagonal_and_clipped() {
    let s = 6;
    let mut data = vec![0u8; s * s * 4];
    draw_thick_line(&mut data, s, 5, 0, 0, 5);
    let mut expected = vec![
        (0, 5), (1, 4), (1, 5), (2, 3), (2, 4), (2, 5), (3, 2), (3, 3), (3, 4), (4, 1), (4, 2), (4, 3), (5, 0), (5, 1),
        (5, 2),
    ];
    expected.sort_by_key(|&(x, y)| (y, x));
    assert_eq!(painted(&data, s), expected);

    let mut data = vec![0u8; s * s * 4];
    draw_thick_line(&mut data, s, -1, -1, 1, 0);
    assert_eq!(painted(&data, s), vec![(0, 0), (1, 0), (2, 0), (0, 1), (1, 1), (2, 1)]);
}
