use anothercssspritelib::packer::RectanglePacker;

fn overlap(a: (u32, u32, u32, u32), b: (u32, u32, u32, u32)) -> bool {
    a.0 < b.0 + b.2 && b.0 < a.0 + a.2 && a.1 < b.1 + b.3 && b.1 < a.1 + a.3
}

#[test]
fn packer_fills_a_row_before_it_starts_the_next() {
    let mut packer = RectanglePacker::new(250, 250);
    assert_eq!(packer.size(), (250, 250));
    assert_eq!(packer.pack(100, 100), Some((0, 0)));
    assert_eq!(packer.pack(100, 100), Some((100, 0)));
    assert_eq!(packer.pack(100, 100), Some((0, 100)));
    assert_eq!(packer.pack(100, 100), Some((100, 100)));
    assert_eq!(packer.pack(100, 100), None);
    assert_eq!(packer.pack(50, 250), Some((200, 0)));
    assert_eq!(packer.pack(1, 1), Some((0, 200)));
    assert_eq!(packer.size(), (250, 250));
}

#[test]
fn packer_refuses_what_cannot_fit() {
    let mut packer = RectanglePacker::new(10, 20);
    assert_eq!(packer.pack(11, 1), None);
    assert_eq!(packer.pack(1, 21), None);
    assert_eq!(packer.pack(0, 5), None);
    assert_eq!(packer.pack(5, 0), None);
    assert_eq!(packer.pack(u32::MAX, u32::MAX), None);
    assert_eq!(packer.pack(10, 20), Some((0, 0)));
    assert_eq!(packer.pack(1, 1), None);
}

#[test]
fn packer_of_an_empty_bin_places_nothing() {
    let mut packer = RectanglePacker::new(0, 0);
    assert_eq!(packer.size(), (0, 0));
    assert_eq!(packer.pack(1, 1), None);
    let mut flat = RectanglePacker::new(100, 0);
    assert_eq!(flat.pack(1, 1), None);
}

#[test]
fn packer_keeps_rectangles_apart_and_in_the_bin() {
    let sizes = [
        (120u32, 80u32), (300, 200), (64, 64), (200, 10), (33, 77), (512, 1), (1, 300), (90, 90),
        (256, 128), (17, 400), (5, 5), (250, 250), (40, 40), (511, 20),
    ];
    let mut packer = RectanglePacker::new(512, 512);
    let mut placed: Vec<(u32, u32, u32, u32)> = Vec::new();
    for (w, h) in sizes {
        if let Some((x, y)) = packer.pack(w, h) {
            assert!(x + w <= 512 && y + h <= 512);
            for other in &placed {
                assert!(!overlap((x, y, w, h), *other));
            }
            placed.push((x, y, w, h));
        }
    }
    assert!(placed.len() >= 10);
}

#[test]
fn packer_gives_the_same_answers_to_the_same_requests() {
    let sizes = [(120u32, 80u32), (300, 200), (64, 64), (600, 1), (200, 10), (33, 77), (0, 3)];
    let mut first = RectanglePacker::new(512, 400);
    let mut second = RectanglePacker::new(512, 400);
    for (w, h) in sizes {
        assert_eq!(first.pack(w, h), second.pack(w, h));
    }
}
