use soksak_kit_sidecar_terminal::render::atlas::{Atlas, AtlasPage, Bitmap, GlyphKey};

fn white(w: u16, h: u16) -> Bitmap {
    Bitmap { w, h, left: 0, top: h as i16, coverage: vec![255; w as usize * h as usize] }
}

fn key(ch: char) -> GlyphKey {
    // 13 points at a scale of 2, in quarter pixels.
    GlyphKey { family: "Menlo".into(), px: 13 * 2 * 4, codepoint: ch as u32 }
}

#[test]
fn shelves_advance_and_a_full_page_refuses() {
    let mut page = AtlasPage::new(32);
    assert_eq!(page.place(16, 16), Some((0, 0)));
    assert_eq!(page.place(16, 16), Some((16, 0)));
    assert_eq!(page.place(16, 16), Some((0, 16)), "a full shelf opens the next one");
    assert_eq!(page.place(16, 16), Some((16, 16)));
    assert_eq!(page.place(16, 16), None, "a full page places nothing");
    assert_eq!(page.place(64, 8), None, "wider than the page is refused outright");
}

#[test]
fn a_key_rasters_once_and_returns_the_same_slot() {
    let mut atlas = Atlas::new(64);
    let key = key('A');
    let mut rasters = 0;
    let mut raster = |_: &GlyphKey| {
        rasters += 1;
        Ok(white(10, 20))
    };
    let mut upload = |_x: u16, _y: u16, _b: &Bitmap| Ok(());
    let first = atlas.ensure(&key, &mut raster, &mut upload).expect("places");
    let second = atlas.ensure(&key, &mut raster, &mut upload).expect("cached");
    assert_eq!(first, second);
    assert_eq!(rasters, 1, "the same key never rasters twice");
    assert_eq!(atlas.len(), 1);
    assert_eq!(atlas.slot(&key), Some(first));
}

#[test]
fn placed_bitmaps_do_not_overlap() {
    let mut page = AtlasPage::new(64);
    let mut placed: Vec<(u16, u16, u16, u16)> = Vec::new();
    for (w, h) in [(10, 20), (30, 5), (30, 12), (1, 1), (64, 3), (7, 9), (20, 20)] {
        if let Some((x, y)) = page.place(w, h) {
            assert!(x + w <= 64 && y + h <= 64);
            for (px, py, pw, ph) in &placed {
                assert!(x + w <= *px || px + pw <= x || y + h <= *py || py + ph <= y);
            }
            placed.push((x, y, w, h));
        }
    }
    assert!(placed.len() > 4);
}

#[test]
fn what_fails_leaves_no_slot() {
    let mut atlas = Atlas::new(16);
    assert!(atlas.is_empty());
    let mut upload = |_x: u16, _y: u16, _b: &Bitmap| Ok(());
    let mut broken = |_: &GlyphKey| Err("no face".to_string());
    assert_eq!(atlas.ensure(&key('A'), &mut broken, &mut upload).unwrap_err(), "no face");
    let mut large = |_: &GlyphKey| Ok(white(17, 1));
    assert!(atlas.ensure(&key('B'), &mut large, &mut upload).is_err());
    let mut fine = |_: &GlyphKey| Ok(white(4, 4));
    let mut refused = |_x: u16, _y: u16, _b: &Bitmap| Err("no device".to_string());
    assert_eq!(atlas.ensure(&key('C'), &mut fine, &mut refused).unwrap_err(), "no device");
    assert!(atlas.is_empty());
    assert_eq!(atlas.slot(&key('C')), None);
}

#[test]
fn what_has_no_room_is_not_uploaded() {
    let mut atlas = Atlas::new(16);
    let mut uploads = 0;
    let mut upload = |_x: u16, _y: u16, _b: &Bitmap| {
        uploads += 1;
        Ok(())
    };
    let mut large = |_: &GlyphKey| Ok(white(17, 1));
    assert!(atlas.ensure(&key('A'), &mut large, &mut upload).is_err());
    let mut fine = |_: &GlyphKey| Ok(white(4, 4));
    assert!(atlas.ensure(&key('B'), &mut fine, &mut upload).is_ok());
    assert_eq!(uploads, 1);
}
