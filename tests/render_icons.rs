use explorer_core::icons::{
    bgra_to_rgba, get_native_icon_bytes, icon_cache, icon_cache_key, icon_list_order,
    resolve_icon, IconListSize, NativeIcon,
};
use explorer_core::render::{encode_rgba_png, render_raster_thumbnail, rgba_thumbnail_png};
use explorer_core::textfile::{decode_text_preview, preview_read_len};

fn sample_png(w: u32, h: u32) -> Vec<u8> {
    let img = image::RgbaImage::from_pixel(w, h, image::Rgba([10, 200, 30, 255]));
    let mut buf = Vec::new();
    image::DynamicImage::ImageRgba8(img)
        .write_to(&mut std::io::Cursor::new(&mut buf), image::ImageFormat::Png)
        .unwrap();
    buf
}

#[test]
fn raster_thumbnail_fits_box() {
    let src = sample_png(40, 20);
    let png = render_raster_thumbnail(&src, 10).unwrap();
    let back = image::load_from_memory(&png).unwrap();
    assert_eq!((back.width(), back.height()), (10, 5));
}

#[test]
fn raster_thumbnail_twice_is_identical() {
    let src = sample_png(30, 60);
    let a = render_raster_thumbnail(&src, 12).unwrap();
    let b = render_raster_thumbnail(&src, 12).unwrap();
    assert_eq!(a, b);
    let da = image::load_from_memory(&a).unwrap();
    let db = image::load_from_memory(&b).unwrap();
    assert_eq!((da.width(), da.height()), (6, 12));
    assert_eq!((db.width(), db.height()), (6, 12));
}

#[test]
fn raster_thumbnail_rejects_garbage() {
    assert!(render_raster_thumbnail(b"not an image", 10).is_err());
}

#[test]
fn rgba_thumbnail_scales_flattened_pixels() {
    let png = rgba_thumbnail_png(8, 4, vec![200; 8 * 4 * 4], 4).unwrap();
    let back = image::load_from_memory(&png).unwrap();
    assert_eq!((back.width(), back.height()), (4, 2));
}

#[test]
fn rgba_thumbnail_rejects_short_pixels() {
    let r = rgba_thumbnail_png(8, 4, vec![0; 8 * 4 * 4 - 1], 4);
    assert_eq!(r, Err("pixels do not fill the image".to_string()));
}

#[test]
fn rgba_thumbnail_of_tiny_box() {
    let png = rgba_thumbnail_png(3, 3, vec![7; 36], 0).unwrap();
    let back = image::load_from_memory(&png).unwrap();
    assert_eq!((back.width(), back.height()), (1, 1));
}

#[test]
fn rgba_png_needs_enough_pixels() {
    assert!(encode_rgba_png(2, 2, vec![0; 15]).is_none());
    assert!(encode_rgba_png(0, 2, vec![0; 16]).is_none());
    let longer = encode_rgba_png(2, 2, vec![0; 20]).unwrap();
    assert_eq!(longer, encode_rgba_png(2, 2, vec![0; 16]).unwrap());
    let png = encode_rgba_png(2, 2, vec![0; 16]).unwrap();
    let back = image::load_from_memory(&png).unwrap();
    assert_eq!((back.width(), back.height()), (2, 2));
}

#[test]
fn bgra_swaps_and_keeps_alpha() {
    let mut p = vec![1, 2, 3, 4, 5, 6, 7, 0, 9];
    bgra_to_rgba(&mut p);
    assert_eq!(p, vec![3, 2, 1, 4, 7, 6, 5, 0, 9]);
}

#[test]
fn bgra_without_alpha_becomes_opaque() {
    let mut p = vec![1, 2, 3, 0, 5, 6, 7, 0];
    bgra_to_rgba(&mut p);
    assert_eq!(p, vec![3, 2, 1, 255, 7, 6, 5, 255]);
}

#[test]
fn native_icon_outcomes() {
    assert_eq!(get_native_icon_bytes(None), None);
    assert_eq!(get_native_icon_bytes(Some(NativeIcon::Png(vec![]))), None);
    assert_eq!(get_native_icon_bytes(Some(NativeIcon::Png(vec![1, 2]))), Some(vec![1, 2]));
    let empty = NativeIcon::Bitmap { width: 0, height: 4, bgra: vec![] };
    assert_eq!(get_native_icon_bytes(Some(empty)), None);
    let short = NativeIcon::Bitmap { width: 2, height: 2, bgra: vec![0; 8] };
    assert_eq!(get_native_icon_bytes(Some(short)), None);
    let translucent = NativeIcon::Bitmap { width: 2, height: 1, bgra: vec![1, 2, 3, 4, 5, 6, 7, 8] };
    let png = get_native_icon_bytes(Some(translucent)).unwrap();
    let back = image::load_from_memory(&png).unwrap().to_rgba8();
    assert_eq!(back.into_raw(), vec![3, 2, 1, 4, 7, 6, 5, 8]);
    let bm = NativeIcon::Bitmap { width: 1, height: 1, bgra: vec![255, 0, 0, 0] };
    let png = get_native_icon_bytes(Some(bm)).unwrap();
    let back = image::load_from_memory(&png).unwrap().to_rgba8();
    assert_eq!(back.get_pixel(0, 0).0, [0, 0, 255, 255]);
}

#[test]
fn icon_keys() {
    assert_eq!(icon_cache_key("/x/Docs", true, 32), "__folder___32");
    assert_eq!(icon_cache_key("Report.PDF", false, 64), "pdf_64");
    assert_eq!(icon_cache_key("a.tar.gz", false, 16), "gz_16");
    assert_eq!(icon_cache_key("noext", false, 16), "_16");
    assert_eq!(icon_cache_key(".bashrc", false, 16), "_16");
}

#[test]
fn icon_cache_resolves_once() {
    let mut cache = icon_cache();
    let key = icon_cache_key("a.txt", false, 32);
    assert_eq!(cache.lookup(&key), None);
    assert_eq!(resolve_icon(&mut cache, key.clone(), None), None);
    assert_eq!(cache.lookup(&key), None);
    let t = resolve_icon(&mut cache, key.clone(), Some(b"hi".to_vec()));
    assert_eq!(t.as_deref(), Some("aGk="));
    assert_eq!(cache.lookup(&key).as_deref(), Some("aGk="));
    let same_type = icon_cache_key("b.txt", false, 32);
    assert_eq!(cache.lookup(&same_type).as_deref(), Some("aGk="));
    let other = icon_cache_key("b.pdf", false, 32);
    assert_eq!(cache.lookup(&other), None);
    cache.insert(key.clone(), "new".to_string());
    assert_eq!(cache.lookup(&key).as_deref(), Some("new"));
}

#[test]
fn icon_list_sizes() {
    assert_eq!(
        icon_list_order(256),
        vec![IconListSize::Jumbo, IconListSize::ExtraLarge, IconListSize::Large]
    );
    assert_eq!(icon_list_order(64), vec![IconListSize::Jumbo, IconListSize::ExtraLarge, IconListSize::Large]);
    assert_eq!(icon_list_order(48), vec![IconListSize::ExtraLarge, IconListSize::Large]);
    assert_eq!(icon_list_order(40), vec![IconListSize::ExtraLarge, IconListSize::Large]);
    assert_eq!(icon_list_order(32), vec![IconListSize::Large]);
}

#[test]
fn text_preview_reads_and_decodes() {
    assert_eq!(preview_read_len(10, 4), 4);
    assert_eq!(preview_read_len(3, 4), 3);
    assert_eq!(decode_text_preview("héllo".as_bytes()), "héllo");
    assert_eq!(decode_text_preview(&[b'a', 0xff, b'b']), "a\u{fffd}b");
}
