use clipboard_core::artifact::temp_artifact_file_name;
use clipboard_core::dib::dib_pixel_data_offset;
use clipboard_core::dib::synthesize_file;
use clipboard_core::facade::best_image_file;
use clipboard_core::facade::choose_dib_format;
use clipboard_core::facade::extension_for;
use clipboard_core::facade::image_fallback_outcome;
use clipboard_core::facade::load_route;
use clipboard_core::facade::load_text_decision;
use clipboard_core::facade::store_route;
use clipboard_core::facade::BackendRoute;
use clipboard_core::facade::ClipboardSlot;
use clipboard_core::facade::DibFormat;
use clipboard_core::facade::ImageFormat;
use clipboard_core::facade::LoadDecision;
use clipboard_core::fileurl::path_to_file_url;

/// A DIB payload with a legacy 40-byte header and the given fields, padded
/// with zero pixel data up to `total_len`.
fn legacy_dib(bit_count: u16, compression: u32, colors_used: u32, total_len: usize) -> Vec<u8> {
    let mut d = vec![0u8; total_len];
    d[0..4].copy_from_slice(&40u32.to_le_bytes());
    d[14..16].copy_from_slice(&bit_count.to_le_bytes());
    d[16..20].copy_from_slice(&compression.to_le_bytes());
    d[32..36].copy_from_slice(&colors_used.to_le_bytes());
    d
}

#[test]
fn legacy_8bpp_full_palette_offset() {
    // header 40, no masks, palette 256 entries * 4 = 1024 -> offset 1064.
    let d = legacy_dib(8, 0, 0, 1100);
    assert_eq!(dib_pixel_data_offset(&d), Some(1064));
}

#[test]
fn legacy_low_bit_counts_full_palette() {
    // 2^bit_count entries * 4 bytes, for every indexed depth.
    for (bits, entries) in [(1u16, 2usize), (2, 4), (4, 16), (8, 256)] {
        let d = legacy_dib(bits, 0, 0, 2000);
        assert_eq!(dib_pixel_data_offset(&d), Some(40 + 4 * entries));
    }
}

#[test]
fn legacy_bitfields_add_mask_bytes() {
    // compression 3: 12 mask bytes; 4bpp palette 16 * 4 = 64.
    let d = legacy_dib(4, 3, 0, 200);
    assert_eq!(dib_pixel_data_offset(&d), Some(40 + 12 + 64));
}

#[test]
fn legacy_alpha_bitfields_add_mask_bytes() {
    // compression 6: 16 mask bytes; 24bpp has no palette.
    let d = legacy_dib(24, 6, 0, 200);
    assert_eq!(dib_pixel_data_offset(&d), Some(40 + 16));
}

#[test]
fn legacy_explicit_colors_used_wins() {
    // colors_used 16 overrides the full 256-entry palette of 8bpp.
    let d = legacy_dib(8, 0, 16, 200);
    assert_eq!(dib_pixel_data_offset(&d), Some(40 + 64));
}

#[test]
fn implausible_palette_rejected() {
    // An indexed bitmap cannot address more than 256 colours; a legacy
    // header declaring 300 is malformed, however long the payload.
    let d = legacy_dib(8, 0, 300, 5000);
    assert_eq!(dib_pixel_data_offset(&d), None);
}

#[test]
fn large_colors_used_allowed_for_direct_colour() {
    // The sanity bound is about indexed bitmaps only: a 24bpp payload may
    // carry a large optimal-palette count.
    let d = legacy_dib(24, 0, 300, 2000);
    assert_eq!(dib_pixel_data_offset(&d), Some(40 + 4 * 300));
}

#[test]
fn extended_header_offset_is_header_size() {
    let mut d = vec![0u8; 200];
    d[0..4].copy_from_slice(&124u32.to_le_bytes());
    assert_eq!(dib_pixel_data_offset(&d), Some(124));
}

#[test]
fn header_size_past_end_rejected() {
    let mut d = vec![0u8; 64];
    d[0..4].copy_from_slice(&65u32.to_le_bytes());
    assert_eq!(dib_pixel_data_offset(&d), None);
}

#[test]
fn header_size_under_forty_rejected() {
    let mut d = vec![0u8; 64];
    d[0..4].copy_from_slice(&39u32.to_le_bytes());
    assert_eq!(dib_pixel_data_offset(&d), None);
}

#[test]
fn short_payload_rejected() {
    assert_eq!(dib_pixel_data_offset(&[]), None);
    assert_eq!(dib_pixel_data_offset(&[40, 0, 0]), None);
}

#[test]
fn offset_past_end_rejected() {
    // Valid legacy header but the palette would run past the payload.
    let d = legacy_dib(8, 0, 0, 100);
    assert_eq!(dib_pixel_data_offset(&d), None);
}

#[test]
fn synthesized_file_layout() {
    // 24bpp, no palette, no masks: offset 40; payload is all 40 header bytes.
    let d = legacy_dib(24, 0, 0, 40);
    let f = synthesize_file(&d).unwrap();
    assert_eq!(f.len(), 14 + 40);
    assert_eq!(&f[0..2], b"BM");
    assert_eq!(u32::from_le_bytes(f[2..6].try_into().unwrap()), 54);
    assert_eq!(&f[6..10], &[0, 0, 0, 0]);
    assert_eq!(u32::from_le_bytes(f[10..14].try_into().unwrap()), 54);
    assert_eq!(&f[14..], &d[..]);
}

#[test]
fn synthesized_file_round_trip() {
    let d = legacy_dib(8, 3, 0, 1500);
    let offset = dib_pixel_data_offset(&d).unwrap();
    let f = synthesize_file(&d).unwrap();
    // The embedded payload re-derives the same offset, and the offset field
    // holds it plus the 14-byte prefix.
    assert_eq!(dib_pixel_data_offset(&f[14..]), Some(offset));
    let field = u32::from_le_bytes(f[10..14].try_into().unwrap());
    assert_eq!(field as usize, 14 + offset);
    let size = u32::from_le_bytes(f[2..6].try_into().unwrap());
    assert_eq!(size as usize, 14 + d.len());
}

#[test]
fn synthesize_rejects_malformed_payload() {
    let mut d = vec![0u8; 64];
    d[0..4].copy_from_slice(&65u32.to_le_bytes());
    assert!(synthesize_file(&d).is_none());
}

#[test]
fn url_escapes_spaces() {
    let url = path_to_file_url("C:/Users/a b/x.png");
    assert_eq!(url, "file:///C:/Users/a%20b/x.png");
}

#[test]
fn url_normalizes_backslashes() {
    let url = path_to_file_url("C:\\foo\\bar.png");
    assert_eq!(url, "file:///C:/foo/bar.png");
}

#[test]
fn url_unc_path_gets_bare_scheme() {
    let url = path_to_file_url("\\\\server\\share\\x.bmp");
    assert_eq!(url, "file://server/share/x.bmp");
}

#[test]
fn url_empty_path() {
    assert_eq!(path_to_file_url(""), "file:///");
}

#[test]
fn artifact_name_renders_identifier() {
    assert_eq!(temp_artifact_file_name(0, "png"), "clipboard-0.png");
    assert_eq!(
        temp_artifact_file_name(1700000000123, "bmp"),
        "clipboard-1700000000123.bmp"
    );
}

#[test]
fn artifact_names_are_distinct() {
    let a = temp_artifact_file_name(1, "bmp");
    let b = temp_artifact_file_name(2, "bmp");
    assert_ne!(a, b);
}

#[test]
fn load_returns_nonempty_text_untouched() {
    let d = load_text_decision(ClipboardSlot::General, Some("hello".to_string()));
    assert!(matches!(d, LoadDecision::Finish(ref s) if s == "hello"));
}

#[test]
fn load_empty_text_falls_back_on_general_slot() {
    let d = load_text_decision(ClipboardSlot::General, Some(String::new()));
    assert!(matches!(d, LoadDecision::TryImageFallback));
    let d = load_text_decision(ClipboardSlot::General, None);
    assert!(matches!(d, LoadDecision::TryImageFallback));
}

#[test]
fn load_selection_slot_never_falls_back() {
    let d = load_text_decision(ClipboardSlot::Primary, None);
    assert!(matches!(d, LoadDecision::Finish(ref s) if s.is_empty()));
    let d = load_text_decision(ClipboardSlot::Primary, Some(String::new()));
    assert!(matches!(d, LoadDecision::Finish(ref s) if s.is_empty()));
}

#[test]
fn fallback_outcome_is_url_or_empty() {
    assert_eq!(
        image_fallback_outcome(Some("file:///C:/x.bmp".to_string())),
        "file:///C:/x.bmp"
    );
    assert_eq!(image_fallback_outcome(None), "");
}

#[test]
fn store_routes() {
    assert_eq!(
        store_route(ClipboardSlot::Primary, true),
        BackendRoute::SelectionBackend
    );
    assert_eq!(store_route(ClipboardSlot::Primary, false), BackendRoute::Skip);
    assert_eq!(
        store_route(ClipboardSlot::General, true),
        BackendRoute::GeneralBackend
    );
    assert_eq!(
        store_route(ClipboardSlot::General, false),
        BackendRoute::GeneralBackend
    );
}

#[test]
fn load_routes() {
    assert_eq!(
        load_route(ClipboardSlot::Primary, true),
        BackendRoute::SelectionBackend
    );
    assert_eq!(
        load_route(ClipboardSlot::Primary, false),
        BackendRoute::GeneralBackend
    );
    assert_eq!(
        load_route(ClipboardSlot::General, true),
        BackendRoute::GeneralBackend
    );
}

#[test]
fn dib_format_preference() {
    assert_eq!(choose_dib_format(true, true), Some(DibFormat::Extended));
    assert_eq!(choose_dib_format(true, false), Some(DibFormat::Extended));
    assert_eq!(choose_dib_format(false, true), Some(DibFormat::Legacy));
    assert_eq!(choose_dib_format(false, false), None);
}

#[test]
fn native_image_preferred_and_kept_verbatim() {
    let png = vec![0x89, 0x50, 0x4E, 0x47];
    let dib = legacy_dib(24, 0, 0, 40);
    let (fmt, bytes) = best_image_file(Some(png.clone()), Some(dib)).unwrap();
    assert_eq!(fmt, ImageFormat::NativeImage);
    assert_eq!(bytes, png);
    assert_eq!(extension_for(fmt), "png");
}

#[test]
fn bitmap_fallback_synthesizes_file() {
    let dib = legacy_dib(24, 0, 0, 40);
    let (fmt, bytes) = best_image_file(None, Some(dib.clone())).unwrap();
    assert_eq!(fmt, ImageFormat::DeviceIndependentBitmap);
    assert_eq!(bytes, synthesize_file(&dib).unwrap());
    assert_eq!(extension_for(fmt), "bmp");
}

#[test]
fn empty_native_payload_counts_as_absent() {
    // A zero reported size is a failed retrieval: an empty native payload
    // never becomes a file, and the bitmap fallback still runs.
    let dib = legacy_dib(24, 0, 0, 40);
    let (fmt, bytes) = best_image_file(Some(Vec::new()), Some(dib.clone())).unwrap();
    assert_eq!(fmt, ImageFormat::DeviceIndependentBitmap);
    assert_eq!(bytes, synthesize_file(&dib).unwrap());
    assert!(best_image_file(Some(Vec::new()), None).is_none());
}

#[test]
fn no_image_available_gives_nothing() {
    assert!(best_image_file(None, None).is_none());
    // A malformed bitmap payload is "no image", not an error.
    let mut bad = vec![0u8; 64];
    bad[0..4].copy_from_slice(&65u32.to_le_bytes());
    assert!(best_image_file(None, Some(bad)).is_none());
}

#[test]
fn bitmap_only_clipboard_yields_bmp_file_url() {
    // The whole image-fallback chain on plain values: a bitmap-only
    // clipboard ends in a file URL for a .bmp artifact.
    let dib = legacy_dib(8, 0, 0, 1100);
    let (fmt, _bytes) = best_image_file(None, Some(dib)).unwrap();
    let name = temp_artifact_file_name(1700000000123, extension_for(fmt));
    let url = path_to_file_url(&format!("C:/Temp/app/paste/{name}"));
    assert!(url.starts_with("file:///"));
    assert!(url.ends_with(".bmp"));
    assert_eq!(url, "file:///C:/Temp/app/paste/clipboard-1700000000123.bmp");
}
