use image::ImageEncoder;
use sdroxide_ui::wefax::{
    accept_size, decode_gray, gray_image, ChartMeta, LiveTexture, Rgb, WefaxUi, GALLERY_MAX, MAX_H,
    MAX_W,
};
use sdroxide_ui::zoom::{live_size, ScreenSize, Zoom, MAX_ASPECT, MAX_ZOOM, MIN_ASPECT, MIN_ZOOM};

/// A size on the screen in pixels.
fn px(s: ScreenSize) -> (f64, f64) {
    (s.w as f64 / s.w_of as f64, s.h as f64 / s.h_of as f64)
}

#[test]
fn rows_build_the_chart_downwards() {
    let mut ui = WefaxUi::default();
    for y in 0..4u16 {
        ui.push_line(1, y, &[y as u8; 8]);
    }
    assert_eq!(ui.live_size(), (8, 4));
    assert_eq!(ui.live[0], 0);
    assert_eq!(ui.live[8], 1);
    assert_eq!(ui.live[24], 3);
    assert!(ui.has_live());
}

/// A gap in the rows has to leave a band, not slide the rest of the chart up.
#[test]
fn a_dropped_row_leaves_a_band_rather_than_a_seam() {
    let mut ui = WefaxUi::default();
    ui.push_line(1, 0, &[10; 4]);
    ui.push_line(1, 3, &[20; 4]);
    assert_eq!(ui.live_size(), (4, 4));
    assert_eq!(ui.live[0], 10);
    assert_eq!(&ui.live[4..12], &[128; 8], "the gap should be mid-grey");
    assert_eq!(ui.live[12], 20);
}

#[test]
fn a_new_transmission_starts_a_new_chart() {
    let mut ui = WefaxUi::default();
    ui.push_line(1, 0, &[1; 4]);
    ui.push_line(1, 1, &[2; 4]);
    assert_eq!(ui.live_size(), (4, 2));
    ui.push_line(2, 0, &[3; 6]);
    assert_eq!(ui.live_size(), (6, 1), "the width should follow the new picture");
    assert_eq!(ui.live[0], 3);
    ui.clear_live();
    assert!(!ui.has_live());
    assert_eq!(ui.live_size(), (6, 0));
}

#[test]
fn malformed_rows_are_refused() {
    let mut ui = WefaxUi::default();
    ui.push_line(1, 0, &[]);
    assert!(!ui.has_live());
    ui.push_line(1, 0, &vec![0u8; MAX_W + 1]);
    assert!(!ui.has_live());
    // A width change mid-picture is not a picture.
    ui.push_line(1, 0, &[1; 8]);
    ui.push_line(1, 1, &[1; 9]);
    assert_eq!(ui.live_size(), (8, 1));
    // A row behind the write head is dropped rather than overwriting.
    ui.push_line(1, 5, &[2; 8]);
    assert_eq!(ui.live_size(), (8, 6), "the gap is filled forwards");
}

#[test]
fn a_chart_gets_no_taller_than_the_tallest() {
    let mut ui = WefaxUi::default();
    ui.push_line(1, MAX_H as u16, &[1; 4]);
    ui.push_line(1, u16::MAX, &[1; 4]);
    assert_eq!(ui.live_size(), (0, 0));
    ui.push_line(1, MAX_H as u16 - 1, &[1; 4]);
    assert_eq!(ui.live_size(), (4, MAX_H as u16));
    ui.push_line(1, MAX_H as u16, &[1; 4]);
    assert_eq!(ui.live_size(), (4, MAX_H as u16));
}

#[test]
fn fitting_shrinks_to_the_panel_and_magnifying_ignores_it() {
    // A 1809-pixel chart in a 400-pixel panel fits at a little over a fifth.
    let (w, h) = px(live_size(Zoom::FitWidth, Some(1000), (400_000, 300_000), (1809, 1200)));
    assert!((w - 400.0).abs() < 1e-3, "{w}");
    assert!((h - 1200.0 * 400.0 / 1809.0).abs() < 1e-3, "{h}");
    // A narrow chart in a wide panel stays at its own size.
    assert_eq!(
        px(live_size(Zoom::FitWidth, Some(1000), (2_000_000, 900_000), (904, 500))),
        (904.0, 500.0)
    );
    // Magnification is taken as given, and clamped to something sane.
    let fixed = |z: i32, size: (u16, u16)| {
        px(live_size(Zoom::Fixed(Some(z)), Some(1000), (400_000, 300_000), size)).0
    };
    assert_eq!(fixed(1000, (1809, 100)), 1809.0);
    assert_eq!(fixed(2000, (1809, 100)), 3618.0);
    assert_eq!(fixed(99_000, (100, 10)), 100.0 * MAX_ZOOM as f64 / 1000.0);
    assert_eq!(fixed(0, (100, 10)), 100.0 * MIN_ZOOM as f64 / 1000.0);
    // A zero-sized picture must not divide by zero.
    let (w, h) = px(live_size(Zoom::FitWidth, Some(1000), (400_000, 300_000), (0, 0)));
    assert!(w.is_finite() && h.is_finite());
}

#[test]
fn the_whole_chart_fits_in_the_panel_both_ways() {
    // Width-fitting is 400 × 265, too tall; whole shrinks until the height fits.
    let (_, h) = px(live_size(Zoom::FitWidth, Some(1000), (400_000, 200_000), (1809, 1200)));
    assert!(h > 200.0, "width-fitting leaves it too tall: {h}");
    let (w, h) = px(live_size(Zoom::Whole, Some(1000), (400_000, 200_000), (1809, 1200)));
    assert!(w <= 400.001 && h <= 200.001, "{w} × {h} should fit");
    // The stretch is part of what has to fit.
    let (w, h) = px(live_size(Zoom::Whole, Some(2000), (400_000, 200_000), (1809, 1200)));
    assert!(w <= 400.001 && h <= 200.001, "stretched: {w} × {h}");
}

#[test]
fn the_aspect_control_stretches_only_the_height() {
    let at = |aspect: Option<i32>| {
        px(live_size(Zoom::Fixed(Some(1000)), aspect, (400_000, 300_000), (900, 200)))
    };
    let (w1, h1) = at(Some(1000));
    let (w2, h2) = at(Some(2000));
    assert_eq!(w1, w2, "the width must not move");
    assert_eq!((h1, h2), (200.0, 400.0));
    // Squashing works the same way, and both ends are clamped.
    assert_eq!(at(Some(500)).1, 100.0);
    assert_eq!(at(Some(99_000)).1, 200.0 * MAX_ASPECT as f64 / 1000.0);
    assert_eq!(at(Some(0)).1, 200.0 * MIN_ASPECT as f64 / 1000.0);
    // Rubbish must not produce a widget without a size.
    let (w, h) = px(live_size(Zoom::Fixed(None), None, (400_000, 300_000), (900, 200)));
    assert!(w.is_finite() && h.is_finite());
    assert_eq!((w, h), (900.0, 200.0));
}

#[test]
fn a_raster_becomes_a_grey_image_of_the_right_size() {
    let gray = |v: u8| Rgb { r: v, g: v, b: v };
    let img = gray_image(&[0, 128, 255, 64], 2, 2);
    assert_eq!(img.size, (2, 2));
    assert_eq!(img.pixels[0], gray(0));
    assert_eq!(img.pixels[2], gray(255));
    // A short buffer is padded rather than panicking.
    assert_eq!(gray_image(&[1], 2, 2).pixels.len(), 4);
}

fn png(gray: &[u8], w: u32, h: u32) -> Vec<u8> {
    let mut out = Vec::new();
    image::codecs::png::PngEncoder::new(&mut out)
        .write_image(gray, w, h, image::ExtendedColorType::L8)
        .unwrap();
    out
}

#[test]
fn a_chart_file_decodes_to_its_raster() {
    let raster: Vec<u8> = (0..12).map(|i| i * 20).collect();
    let file = png(&raster, 4, 3);
    assert_eq!(decode_gray(&file), Some((raster.clone(), 4, 3)));
    assert_ne!(file, raster);
    assert_eq!(decode_gray(b"no picture"), None);
    assert_eq!(decode_gray(&[]), None);
}

#[test]
fn a_size_off_the_wire_is_checked() {
    assert_eq!(accept_size(Some((vec![0; 6], 2, 3))), Some((vec![0; 6], 2, 3)));
    assert_eq!(accept_size(None), None);
    assert_eq!(accept_size(Some((vec![], 0, 3))), None);
    assert_eq!(accept_size(Some((vec![], 3, 0))), None);
    assert_eq!(accept_size(Some((vec![], MAX_W as u32 * 4 + 1, 1))), None);
    assert_eq!(accept_size(Some((vec![], 1, MAX_H as u32 * 4 + 1))), None);
}

fn meta(unix: i64) -> Option<ChartMeta> {
    Some(ChartMeta { unix, label: format!("at {unix}") })
}

#[test]
fn the_gallery_is_newest_first_and_bounded() {
    let mut ui = WefaxUi::default();
    let file = png(&[7; 4], 2, 2);
    for i in 0..GALLERY_MAX + 2 {
        ui.add_chart(&format!("c{i}"), meta(i as i64), &file);
    }
    assert_eq!(ui.gallery.len(), GALLERY_MAX);
    assert_eq!(ui.gallery[0].name, format!("c{}", GALLERY_MAX + 1));
    // What is no picture is not listed.
    ui.add_chart("bad", None, b"rubbish");
    assert_eq!(ui.gallery.len(), GALLERY_MAX);
    assert_eq!(ui.gallery[0].size, (2, 2));
    assert_eq!(ui.gallery[0].when(), GALLERY_MAX as i64 + 1);
}

#[test]
fn sorting_goes_by_the_time_of_reception() {
    let mut ui = WefaxUi::default();
    let file = png(&[7; 4], 2, 2);
    ui.add_chart("b", meta(200), &file);
    ui.add_chart("c", meta(300), &file);
    ui.add_chart("unnamed", None, &file);
    ui.add_chart("a", meta(100), &file);
    ui.sort_gallery();
    let names: Vec<&str> = ui.gallery.iter().map(|c| c.name.as_str()).collect();
    assert_eq!(names, ["c", "b", "a", "unnamed"]);
    assert_eq!(ui.gallery[0].title(), "at 300");
    assert_eq!(ui.gallery[3].title(), "unnamed");
}

#[test]
fn the_live_texture_follows_the_rows() {
    let mut ui = WefaxUi::default();
    assert!(matches!(ui.live_texture(), LiveTexture::Nothing));
    ui.push_line(1, 0, &[5; 3]);
    match ui.live_texture() {
        LiveTexture::Create(p) => assert_eq!(p.size, (3, 1)),
        _ => panic!("the first rows make a texture"),
    }
    assert!(matches!(ui.live_texture(), LiveTexture::AsIs));
    ui.push_line(1, 1, &[6; 3]);
    match ui.live_texture() {
        LiveTexture::Replace(p) => {
            assert_eq!(p.size, (3, 2));
            assert_eq!(p.pixels[3], Rgb { r: 6, g: 6, b: 6 });
        }
        _ => panic!("more rows replace it"),
    }
}
