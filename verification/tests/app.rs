use quirk::app::{EcLevel, ExportFormat, ExportJob, QrApp, Style};
use quirk::qr_types::QrKind;
use quirk::raster::{render_rgba, ModuleGrid};
use quirk::symbol::{encode, QrFailure};
use quirk::text::{
    chars_of, first_and_last_word, is_blank_text, occurs, push_decimal, starts, trim_bounds, trimmed,
};

fn small_style() -> Style {
    Style {
        module_size: 2,
        quiet_zone: 1,
        foreground: [1, 2, 3, 4],
        background: [9, 8, 7, 6],
    }
}

#[test]
fn render_rgba_paints_modules_and_quiet_zone() {
    // 2x2 modules: dark, light / light, dark
    let grid = ModuleGrid::from_modules(2, vec![true, false, false, true]).unwrap();
    let (buf, w, h) = render_rgba(&grid, &small_style());
    assert_eq!((w, h), (8, 8));
    assert_eq!(buf.len(), 8 * 8 * 4);
    let px = |x: usize, y: usize| &buf[(y * 8 + x) * 4..(y * 8 + x) * 4 + 4];
    // quiet zone
    assert_eq!(px(0, 0), &[9, 8, 7, 6]);
    assert_eq!(px(7, 7), &[9, 8, 7, 6]);
    assert_eq!(px(1, 3), &[9, 8, 7, 6]);
    // module (0,0) covers pixels 2..4 x 2..4
    assert_eq!(px(2, 2), &[1, 2, 3, 4]);
    assert_eq!(px(3, 3), &[1, 2, 3, 4]);
    // module (1,0) is light
    assert_eq!(px(4, 2), &[9, 8, 7, 6]);
    // module (1,1) is dark
    assert_eq!(px(5, 5), &[1, 2, 3, 4]);
}

#[test]
fn render_rgba_zero_module_size_counts_as_one() {
    let grid = ModuleGrid::from_modules(1, vec![true]).unwrap();
    let style = Style {
        module_size: 0,
        quiet_zone: 0,
        ..small_style()
    };
    let (buf, w, h) = render_rgba(&grid, &style);
    assert_eq!((w, h), (1, 1));
    assert_eq!(buf, vec![1, 2, 3, 4]);
}

#[test]
fn module_grid_needs_one_flag_per_module() {
    assert!(ModuleGrid::from_modules(2, vec![true; 3]).is_none());
    assert!(ModuleGrid::from_modules(0, vec![]).is_some());
    assert!(ModuleGrid::from_modules(0, vec![true]).is_none());
}

#[test]
fn encode_makes_a_version_one_symbol() {
    let grid = encode(b"hello", EcLevel::M).unwrap();
    assert_eq!(grid.width, 21);
    assert_eq!(grid.dark.len(), 21 * 21);
    // finder pattern corner is dark
    assert!(grid.dark[0]);
    assert!(grid.dark.iter().any(|d| !d));
}

#[test]
fn encode_refuses_too_much_data() {
    let data = vec![b'x'; 5000];
    match encode(&data, EcLevel::H) {
        Err(e) => {
            assert_eq!(e, QrFailure::DataTooLong);
            assert_eq!(e.message(), "data too long");
        }
        Ok(_) => panic!("expected an error"),
    }
}

#[test]
fn new_app_defaults() {
    let app = QrApp::new();
    assert_eq!(app.kind, QrKind::Url);
    assert_eq!(app.ec, EcLevel::M);
    assert_eq!(app.style.module_size, 10);
    assert_eq!(app.style.quiet_zone, 4);
    assert_eq!(app.export_format, ExportFormat::Png);
    assert!(app.preview.is_none());
    assert_eq!(app.status.as_deref(), Some("Pick a content type and fill in the form."));
    assert!(app.last_error.is_none());
    assert!(app.payload().is_none());
}

#[test]
fn regenerate_without_payload_clears_preview() {
    let mut app = QrApp::new();
    assert!(app.regenerate_preview().is_none());
    assert!(app.preview.is_none());
    assert_eq!(app.status.as_deref(), Some("Fill in the form to generate a QR code."));
}

#[test]
fn regenerate_draws_once_then_is_idempotent() {
    let mut app = QrApp::new();
    app.parts.text = "example.com".into();
    let img = app.regenerate_preview().expect("an image");
    // 25 modules (version 2) + 2 * 4 quiet zone, 10 px each
    assert_eq!((img.width, img.height), (330, 330));
    assert_eq!(img.pixels.len(), 330 * 330 * 4);
    let prev = app.preview.clone().unwrap();
    assert_eq!(prev.size_px, [330, 330]);
    assert_eq!(prev.payload, "https://example.com");
    assert_eq!(
        app.status.as_deref(),
        Some("Generated \u{2014} 330 \u{00D7} 330 px, 25 modules")
    );
    // second call: nothing changes
    assert!(app.regenerate_preview().is_none());
    assert_eq!(app.preview.as_ref().unwrap().payload, "https://example.com");
    // a new level redraws
    app.ec = EcLevel::H;
    assert!(app.regenerate_preview().is_some());
    // a new style redraws
    app.style.module_size = 3;
    let img = app.regenerate_preview().expect("an image");
    assert_eq!(img.width, (29 + 8) * 3);
}

#[test]
fn regenerate_reports_encoding_errors() {
    let mut app = QrApp::new();
    app.kind = QrKind::Text;
    app.ec = EcLevel::H;
    app.parts.text = "y".repeat(5000);
    assert!(app.regenerate_preview().is_none());
    assert!(app.preview.is_none());
    assert_eq!(app.last_error.as_deref(), Some("QR error: data too long"));
    assert_eq!(app.status.as_deref(), Some("Failed to render QR."));
}

#[test]
fn export_png_and_svg() {
    let mut app = QrApp::new();
    assert!(app.export().is_none());
    assert_eq!(
        app.last_error.as_deref(),
        Some("Nothing to export \u{2014} fill the form first.")
    );
    app.parts.text = "example.com".into();
    match app.export() {
        Some(ExportJob::Png(img)) => {
            assert_eq!(img.width, 330);
            assert_eq!(img.pixels.len(), 330 * 330 * 4);
        }
        _ => panic!("expected a PNG job"),
    }
    app.export_format = ExportFormat::Svg;
    match app.export() {
        Some(ExportJob::Svg(doc)) => {
            assert!(doc.starts_with("<?xml"));
            assert!(doc.contains("<svg"));
        }
        _ => panic!("expected an SVG job"),
    }
    app.export_finished("/tmp/q.svg", Ok(()));
    assert!(app.last_error.is_none());
    assert_eq!(app.status.as_deref(), Some("Saved to /tmp/q.svg"));
    app.export_finished("/tmp/q.svg", Err("disk full".into()));
    assert_eq!(app.last_error.as_deref(), Some("Save failed: disk full"));
    assert_eq!(app.status.as_deref(), Some("Saved to /tmp/q.svg"));
}

#[test]
fn copy_svg_and_data() {
    let mut app = QrApp::new();
    assert!(app.copy_svg().is_none());
    assert!(app.copy_data().is_none());
    app.parts.text = "tel:+1".into();
    let data = app.copy_data().unwrap();
    assert_eq!(data, "tel:+1");
    assert_eq!(app.status.as_deref(), Some("Copied payload to clipboard."));
    let svg = app.copy_svg().unwrap();
    let expected = format!("Copied SVG to clipboard ({} bytes)", svg.len());
    assert_eq!(app.status.as_deref(), Some(expected.as_str()));
}

#[test]
fn labels_and_extensions() {
    assert_eq!(EcLevel::L.label(), "L \u{00B7} ~7%");
    assert_eq!(EcLevel::H.label(), "H \u{00B7} ~30%");
    assert_eq!(ExportFormat::Svg.label(), "SVG");
    assert_eq!(ExportFormat::Png.extension(), "png");
    assert_eq!(EcLevel::all().len(), 4);
    assert_eq!(ExportFormat::all().len(), 2);
    let s = Style::default();
    assert_eq!(s.foreground, [20, 20, 24, 255]);
    assert_eq!(s.background, [252, 252, 250, 255]);
}

#[test]
fn text_helpers() {
    assert_eq!(trimmed("\u{a0} a b \n"), "a b");
    assert!(is_blank_text(" \t\u{2003}"));
    assert!(!is_blank_text(" x "));
    let (first, last) = first_and_last_word("  one two\tthree ");
    assert_eq!((first.as_str(), last.as_str()), ("one", "three"));
    assert_eq!(chars_of("h\u{e9}"), vec!['h', '\u{e9}']);
    let mut s = String::from("n=");
    push_decimal(&mut s, 0);
    push_decimal(&mut s, 1207);
    assert_eq!(s, "n=01207");
    let hay = chars_of("ftp://x");
    assert!(occurs(&chars_of("://"), &hay));
    assert!(!occurs(&chars_of(":///"), &hay));
    assert!(starts(&hay, &chars_of("ftp")));
    assert!(!starts(&hay, &chars_of("tel:")));
    assert_eq!(trim_bounds(&chars_of("  ab c ")), (2, 6));
    assert_eq!(trim_bounds(&chars_of("   ")), (3, 3));
}

#[test]
fn preview_matches_the_form_after_regeneration() {
    let mut app = QrApp::new();
    app.kind = QrKind::Text;
    app.parts.text = " first ".into();
    app.regenerate_preview();
    let prev = app.preview.clone().unwrap();
    assert_eq!(Some(prev.payload.clone()), app.payload());
    assert_eq!(prev.ec, app.ec);
    // the form changes: the stale preview is replaced
    app.parts.text = "second".into();
    assert!(app.regenerate_preview().is_some());
    assert_eq!(app.preview.as_ref().unwrap().payload, "second");
    // the form empties: the preview goes away
    app.parts.text = String::new();
    assert!(app.regenerate_preview().is_none());
    assert!(app.preview.is_none());
}

#[test]
fn style_fit_limits() {
    assert!(Style::default().fits(177));
    let huge = Style {
        module_size: u32::MAX,
        ..Style::default()
    };
    assert!(!huge.fits(21));
    let ui_max = Style {
        module_size: 32,
        quiet_zone: 16,
        ..Style::default()
    };
    assert!(ui_max.fits(177));
}

fn huge_style() -> Style {
    Style {
        module_size: 4_000_000_000,
        quiet_zone: 4_000_000_000,
        ..Style::default()
    }
}

#[test]
fn huge_style_is_fine_where_nothing_is_drawn() {
    let mut app = QrApp::new();
    app.style = huge_style();
    // empty form
    assert!(app.regenerate_preview().is_none());
    assert_eq!(app.status.as_deref(), Some("Fill in the form to generate a QR code."));
    assert!(app.export().is_none());
    assert_eq!(
        app.last_error.as_deref(),
        Some("Nothing to export \u{2014} fill the form first.")
    );
    // encoding error
    app.kind = QrKind::Text;
    app.ec = EcLevel::H;
    app.parts.text = "z".repeat(5000);
    assert!(app.regenerate_preview().is_none());
    assert_eq!(app.last_error.as_deref(), Some("QR error: data too long"));
    // an SVG export draws no pixels
    app.parts.text = "hi".into();
    app.export_format = ExportFormat::Svg;
    assert!(matches!(app.export(), Some(ExportJob::Svg(_))));
}

#[test]
fn huge_style_refuses_to_draw_and_keeps_the_state() {
    let mut app = QrApp::new();
    app.style = huge_style();
    app.parts.text = "example.com".into();
    assert!(app.try_regenerate_preview().is_none());
    assert!(app.preview.is_none());
    assert_eq!(app.status.as_deref(), Some("Pick a content type and fill in the form."));
    assert!(app.try_export().is_none());
    assert!(app.last_error.is_none());
    app.style = Style::default();
    assert!(matches!(app.try_regenerate_preview(), Some(Some(_))));
    assert!(matches!(app.try_export(), Some(Some(ExportJob::Png(_)))));
}
