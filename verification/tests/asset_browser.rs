//! Asset browser: extension classification, size display, listing and filtering.

use std::path::PathBuf;

use salai::ui::asset_browser::{format_size, AssetBrowser, AssetEntry, AssetKind, ListedFile};

#[test]
fn asset_kind_from_extension() {
    assert_eq!(AssetKind::from_extension("png"), AssetKind::Texture);
    assert_eq!(AssetKind::from_extension("JPG"), AssetKind::Texture);
    assert_eq!(AssetKind::from_extension("wav"), AssetKind::Audio);
    assert_eq!(AssetKind::from_extension("toml"), AssetKind::Scene);
    assert_eq!(AssetKind::from_extension("xyz"), AssetKind::Unknown);
}

#[test]
fn asset_kind_from_extension_all_names() {
    for e in ["png", "jpg", "jpeg", "bmp", "tga", "webp", "tiff", "TiFf", "WebP"] {
        assert_eq!(AssetKind::from_extension(e), AssetKind::Texture, "{e}");
    }
    for e in ["wav", "mp3", "ogg", "flac", "aiff", "MP3", "Flac"] {
        assert_eq!(AssetKind::from_extension(e), AssetKind::Audio, "{e}");
    }
    assert_eq!(AssetKind::from_extension("TOML"), AssetKind::Scene);
    for e in ["", "pn", "pngg", " png", "t\u{130}ff", "ｐｎｇ", "mp4"] {
        assert_eq!(AssetKind::from_extension(e), AssetKind::Unknown, "{e}");
    }
}

#[test]
fn asset_kind_label() {
    assert_eq!(AssetKind::Texture.label(), "IMG");
    assert_eq!(AssetKind::Audio.label(), "SND");
    assert_eq!(AssetKind::Scene.label(), "SCN");
    assert_eq!(AssetKind::Unknown.label(), "???");
}

#[test]
fn format_size_bytes() {
    assert_eq!(format_size(100), "100 B");
    assert_eq!(format_size(1536), "1.5 KB");
    assert_eq!(format_size(1_500_000), "1.4 MB");
}

/// The size display agrees with formatting the `f64` quotients, ties included.
#[test]
fn format_size_matches_float_formatting() {
    let samples: Vec<u64> = vec![
        0,
        1,
        1023,
        1024,
        1075,
        1076,
        1280,
        1331,
        1_048_575,
        1_048_576,
        1_310_720,
        1_363_149,
        987_654_321,
        (1u64 << 53) + 1,
        u64::MAX - 7,
        u64::MAX,
    ];
    for bytes in samples {
        let expected = if bytes < 1024 {
            format!("{bytes} B")
        } else if bytes < 1024 * 1024 {
            format!("{:.1} KB", bytes as f64 / 1024.0)
        } else {
            format!("{:.1} MB", bytes as f64 / (1024.0 * 1024.0))
        };
        assert_eq!(format_size(bytes), expected, "bytes = {bytes}");
    }
}

#[test]
fn browser_default_empty() {
    let browser = AssetBrowser::default();
    assert!(browser.entries.is_empty());
    assert!(browser.selected.is_none());
    assert!(browser.filter.is_none());
}

#[test]
fn browser_filter() {
    let mut browser = AssetBrowser::default();
    browser.entries.push(AssetEntry {
        name: "tex.png".into(),
        path: PathBuf::from("tex.png"),
        kind: AssetKind::Texture,
        size: 1000,
    });
    browser.entries.push(AssetEntry {
        name: "snd.wav".into(),
        path: PathBuf::from("snd.wav"),
        kind: AssetKind::Audio,
        size: 2000,
    });

    assert_eq!(browser.filtered_entries().len(), 2);

    browser.filter = Some(AssetKind::Texture);
    assert_eq!(browser.filtered_entries().len(), 1);
    assert_eq!(browser.filtered_entries()[0].name, "tex.png");
}

#[test]
fn browser_selected_asset() {
    let mut browser = AssetBrowser::default();
    browser.entries.push(AssetEntry {
        name: "level.toml".into(),
        path: PathBuf::from("level.toml"),
        kind: AssetKind::Scene,
        size: 500,
    });
    assert!(browser.selected_asset().is_none());

    browser.selected = Some(0);
    let asset = browser.selected_asset().unwrap();
    assert_eq!(asset.name, "level.toml");

    browser.selected = Some(1);
    assert!(browser.selected_asset().is_none());
}

fn listed(name: &str, ext: &str, is_file: bool, size: u64) -> ListedFile {
    ListedFile {
        name: name.to_string(),
        extension: ext.to_string(),
        path: PathBuf::from(format!("/assets/{name}")),
        is_file,
        size,
    }
}

#[test]
fn browser_scan_listing_sorts_and_filters() {
    let mut browser = AssetBrowser::default();
    browser.selected = Some(3);
    browser.filter = Some(AssetKind::Audio);
    let listing = vec![
        listed("zeta.png", "png", true, 10),
        listed("notes.txt", "txt", true, 5),
        listed("Alpha.WAV", "WAV", true, 20),
        listed("dir.png", "png", false, 0),
        listed("beta.toml", "toml", true, 30),
        listed("alpha.ogg", "ogg", true, 40),
    ];
    browser.scan_listing(PathBuf::from("/assets"), listing);
    let names: Vec<&str> = browser.entries.iter().map(|e| e.name.as_str()).collect();
    assert_eq!(names, vec!["Alpha.WAV", "alpha.ogg", "beta.toml", "zeta.png"]);
    assert_eq!(browser.entries[0].kind, AssetKind::Audio);
    assert_eq!(browser.entries[2].kind, AssetKind::Scene);
    assert_eq!(browser.entries[3].size, 10);
    assert!(browser.selected.is_none());
    assert_eq!(browser.filter, Some(AssetKind::Audio));
    assert_eq!(browser.root, Some(PathBuf::from("/assets")));
    assert_eq!(browser.filtered_entries().len(), 2);
}

#[test]
fn browser_scan_listing_is_stable() {
    let mut browser = AssetBrowser::default();
    let listing = vec![
        listed("same.png", "png", true, 1),
        listed("a.png", "png", true, 2),
        listed("same.png", "png", true, 3),
    ];
    browser.scan_listing(PathBuf::from("/x"), listing);
    let sizes: Vec<u64> = browser.entries.iter().map(|e| e.size).collect();
    assert_eq!(sizes, vec![2, 1, 3]);
}
