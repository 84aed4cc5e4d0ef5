use ggoled::bitmap::Bitmap;

fn checker(w: usize, h: usize) -> Bitmap {
    let mut bm = Bitmap::new(w, h, false);
    for y in 0..h {
        for x in 0..w {
            bm.set(x, y, (x * 3 + y * 7) % 2 == 0);
        }
    }
    bm
}

#[test]
fn new_fills_with_constant() {
    let on = Bitmap::new(3, 2, true);
    let off = Bitmap::new(3, 2, false);
    for y in 0..2 {
        for x in 0..3 {
            assert!(on.get(x, y));
            assert!(!off.get(x, y));
        }
    }
}

#[test]
fn set_and_get_single_pixel() {
    let mut bm = Bitmap::new(4, 4, false);
    bm.set(2, 1, true);
    assert!(bm.get(2, 1));
    assert!(!bm.get(1, 2));
    bm.set(2, 1, false);
    assert!(!bm.get(2, 1));
}

#[test]
fn crop_preserves_pixels() {
    let bm = checker(6, 5);
    let c = bm.crop(1, 2, 3, 2);
    for y in 0..2 {
        for x in 0..3 {
            assert_eq!(c.get(x, y), bm.get(1 + x, 2 + y));
        }
    }
}

#[test]
fn crop_full_and_empty() {
    let bm = checker(4, 3);
    let full = bm.crop(0, 0, 4, 3);
    for y in 0..3 {
        for x in 0..4 {
            assert_eq!(full.get(x, y), bm.get(x, y));
        }
    }
    let corner = bm.crop(4, 3, 0, 0);
    assert!(corner.equals(&Bitmap::new(0, 0, false)));
}

#[test]
fn transparent_blit_of_blank_changes_nothing() {
    let mut bm = checker(5, 5);
    let before = bm.crop(0, 0, 5, 5);
    let blank = Bitmap::new(3, 3, false);
    bm.blit(&blank, 1, 1, false);
    assert!(bm.equals(&before));
}

#[test]
fn opaque_blit_of_blank_clears_covered_pixels() {
    let mut bm = Bitmap::new(5, 5, true);
    let blank = Bitmap::new(2, 2, false);
    bm.blit(&blank, 1, 1, true);
    for y in 0..5 {
        for x in 0..5 {
            let covered = (1..3).contains(&x) && (1..3).contains(&y);
            assert_eq!(bm.get(x, y), !covered);
        }
    }
}

#[test]
fn transparent_blit_ors_pixels() {
    let mut dst = Bitmap::new(4, 1, false);
    dst.set(0, 0, true);
    dst.set(1, 0, true);
    let mut src = Bitmap::new(2, 1, false);
    src.set(1, 0, true);
    // src covers columns 1 and 2; only its set pixel lands, at column 2
    dst.blit(&src, 1, 0, false);
    assert!(dst.get(0, 0));
    assert!(dst.get(1, 0));
    assert!(dst.get(2, 0));
    assert!(!dst.get(3, 0));
}

#[test]
fn blit_with_negative_offset_clips() {
    let mut dst = Bitmap::new(3, 3, false);
    let src = Bitmap::new(2, 2, true);
    dst.blit(&src, -1, -1, false);
    // only the source's lower-right pixel lands on the screen origin
    assert!(dst.get(0, 0));
    assert!(!dst.get(1, 0));
    assert!(!dst.get(0, 1));
    assert!(!dst.get(1, 1));
}

#[test]
fn blit_off_screen_changes_nothing() {
    let mut dst = checker(3, 3);
    let before = dst.crop(0, 0, 3, 3);
    let src = Bitmap::new(2, 2, true);
    dst.blit(&src, 5, 5, false);
    dst.blit(&src, -7, 0, true);
    assert!(dst.equals(&before));
}

#[test]
fn invert_flips_every_pixel() {
    let mut bm = checker(4, 4);
    let before = bm.crop(0, 0, 4, 4);
    bm.invert();
    for y in 0..4 {
        for x in 0..4 {
            assert_eq!(bm.get(x, y), !before.get(x, y));
        }
    }
}

#[test]
fn equals_is_pixel_exact() {
    let a = checker(4, 4);
    let mut b = checker(4, 4);
    assert!(a.equals(&b));
    b.set(3, 3, !b.get(3, 3));
    assert!(!a.equals(&b));
    let c = checker(4, 3);
    assert!(!a.equals(&c));
}

#[test]
fn clone_keeps_pixels() {
    let a = checker(5, 2);
    let b = a.clone();
    assert!(a.equals(&b));
}
