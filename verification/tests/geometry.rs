use picodraw::batch::clear_region;
use picodraw::texture::{Bounds, Color, Size, TextureData, TextureFormat};

fn rect(left: u32, top: u32, right: u32, bottom: u32) -> Bounds {
    Bounds { left, right, top, bottom }
}

#[test]
fn lerp_by_zero_is_self() {
    let a = Color { r: 10, g: 200, b: 0, a: 255 };
    let b = Color { r: 250, g: 0, b: 255, a: 0 };
    assert_eq!(a.lerp(b, 0), a);
}

#[test]
fn lerp_formula() {
    let a = Color { r: 0, g: 100, b: 255, a: 255 };
    let b = Color { r: 255, g: 200, b: 0, a: 255 };
    // below 255 each channel is (a * (256 - t) + b * t) / 256
    assert_eq!(a.lerp(b, 128), Color { r: 127, g: 150, b: 127, a: 255 });
    assert_eq!(a.lerp(b, 254).r, 253);
    assert_eq!(a.lerp(b, 127), Color { r: 126, g: 149, b: 128, a: 255 });
}

#[test]
fn lerp_by_full_is_other() {
    let a = Color { r: 0, g: 0, b: 0, a: 0 };
    let b = Color { r: 255, g: 255, b: 255, a: 255 };
    assert_eq!(a.lerp(b, 255), b);
    let c = Color { r: 10, g: 200, b: 0, a: 255 };
    let d = Color { r: 250, g: 7, b: 255, a: 0 };
    assert_eq!(c.lerp(d, 255), d);
}

#[test]
fn bytes_per_pixel() {
    assert_eq!(TextureFormat::R8.bytes_per_pixel(), 1);
    assert_eq!(TextureFormat::RGB8.bytes_per_pixel(), 3);
    assert_eq!(TextureFormat::RGBA8.bytes_per_pixel(), 4);
}

#[test]
fn size_and_emptiness() {
    let r = rect(10, 20, 30, 25);
    assert_eq!(r.size(), Size { width: 20, height: 5 });
    assert_eq!(r.width(), 20);
    assert_eq!(r.height(), 5);
    assert!(!r.is_empty());
    let inverted = rect(30, 20, 10, 25);
    assert_eq!(inverted.width(), 0);
    assert!(inverted.is_empty());
    assert!(rect(5, 5, 5, 9).is_empty());
}

#[test]
fn contains_touching_edges() {
    let outer = rect(0, 0, 100, 100);
    assert!(outer.contains(outer));
    assert!(outer.contains(rect(0, 0, 100, 50)));
    assert!(!outer.contains(rect(0, 0, 101, 50)));
    assert!(!rect(10, 10, 20, 20).contains(outer));
}

#[test]
fn intersect_and_union() {
    let a = rect(0, 0, 10, 10);
    let b = rect(5, 5, 15, 15);
    assert_eq!(a.intersect(b), rect(5, 5, 10, 10));
    assert_eq!(a.intersect(b), b.intersect(a));
    assert_eq!(a.union(b), rect(0, 0, 15, 15));
    assert_eq!(a.union(b), b.union(a));
    assert!(a.intersects(b));
    assert!(b.intersects(a));
    assert!(a.contains(a.intersect(b)));
    assert!(a.union(b).contains(a) && a.union(b).contains(b));

    let far = rect(20, 20, 30, 30);
    assert!(!a.intersects(far));
    assert!(a.intersect(far).is_empty());
    // rectangles that only touch do not intersect
    assert!(!a.intersects(rect(10, 0, 20, 10)));
}

#[test]
fn offset_saturates() {
    let r = rect(5, 5, 10, 10);
    assert_eq!(r.offset(3, -2), rect(8, 3, 13, 8));
    assert_eq!(r.offset(-7, 0), rect(0, 5, 3, 10));
    assert_eq!(rect(0, 0, u32::MAX - 1, 1).offset(5, 0), rect(5, 0, u32::MAX, 1));
    assert_eq!(r.offset(3, -2).offset(-3, 2), r);
}

#[test]
fn conversions() {
    assert_eq!(Size::from([3u32, 4]), Size { width: 3, height: 4 });
    assert_eq!(Size::from((7u32, 8u32)), Size { width: 7, height: 8 });
    assert_eq!(Bounds::from([1u32, 2, 3, 4]), rect(1, 2, 3, 4));
    assert_eq!(Bounds::from((1u32, 2u32, 3u32, 4u32)), rect(1, 2, 3, 4));
    assert_eq!(Bounds::from([-1i32, 2, -3, 4]), rect(0, 2, 0, 4));
    assert_eq!(Bounds::from((5i32, -6i32, 7i32, 8i32)), rect(5, 0, 7, 8));
}

#[test]
fn clear_regions() {
    let b = rect(10, 20, 50, 60);
    assert_eq!(clear_region(b, false, 100), (10, 20, 40, 40));
    // the screen counts rows from the bottom
    assert_eq!(clear_region(b, true, 100), (10, 40, 40, 40));
}

#[test]
fn texture_data_length() {
    let pixels = [0u8; 24];
    let ok = TextureData { bounds: rect(0, 0, 3, 2), format: TextureFormat::RGBA8, data: &pixels };
    assert!(ok.has_valid_length());
    let short = TextureData { bounds: rect(0, 0, 3, 2), format: TextureFormat::RGBA8, data: &pixels[..23] };
    assert!(!short.has_valid_length());
    let rgb = TextureData { bounds: rect(1, 1, 5, 3), format: TextureFormat::RGB8, data: &pixels };
    assert!(rgb.has_valid_length());
}
