use explorer_core::gate::{heavy_op_guard, HeavyOpGate, HeavyOpPermit, MAX_HEAVY_OPS};
use explorer_core::preview::{
    cache_file_name, cache_key, cache_subdir, dimension_source, on_cache_lookup,
    parse_layered_header, preview_reply, supports_preview, video_frame_args, video_frame_result,
    DimensionSource, PreviewKind, PreviewStep,
};

#[test]
fn gate_admits_up_to_its_bound() {
    let mut gate = heavy_op_guard();
    assert_eq!(gate.max(), MAX_HEAVY_OPS);
    assert_eq!(gate.max(), 8);
    let mut held = Vec::new();
    for _ in 0..8 {
        held.push(HeavyOpPermit::acquire(&mut gate).expect("a free slot"));
    }
    assert_eq!(gate.active(), 8);
    assert!(HeavyOpPermit::acquire(&mut gate).is_none());
    assert!(HeavyOpPermit::acquire(&mut gate).is_none());
    assert_eq!(gate.active(), 8);
    held.pop().unwrap().release(&mut gate);
    assert_eq!(gate.active(), 7);
    let again = HeavyOpPermit::acquire(&mut gate);
    assert!(again.is_some());
    assert_eq!(gate.active(), 8);
}

#[test]
fn gate_with_small_bound() {
    let mut gate = HeavyOpGate::with_max(1);
    let p = HeavyOpPermit::acquire(&mut gate).unwrap();
    assert!(HeavyOpPermit::acquire(&mut gate).is_none());
    p.release(&mut gate);
    assert_eq!(gate.active(), 0);
    assert!(HeavyOpPermit::acquire(&mut gate).is_some());
}

fn header(w: u32, h: u32) -> Vec<u8> {
    let mut b = Vec::new();
    b.extend_from_slice(b"8BPS");
    b.extend_from_slice(&[0, 1]);
    b.extend_from_slice(&[0; 6]);
    b.extend_from_slice(&[0, 3]);
    b.extend_from_slice(&h.to_be_bytes());
    b.extend_from_slice(&w.to_be_bytes());
    b.extend_from_slice(&[0, 8, 0, 3]);
    b
}

#[test]
fn layered_header_dimensions() {
    let b = header(1920, 1080);
    assert_eq!(b.len(), 26);
    assert_eq!(parse_layered_header(&b), Some((1920, 1080)));
    assert_eq!(parse_layered_header(&header(0x0102_0304, 7)), Some((0x0102_0304, 7)));
}

#[test]
fn layered_header_too_short() {
    let b = header(10, 20);
    assert_eq!(parse_layered_header(&b[..25]), None);
    assert_eq!(parse_layered_header(&[]), None);
}

#[test]
fn preview_support_by_kind() {
    assert!(supports_preview(PreviewKind::Image, "/p/a.JPEG"));
    assert!(!supports_preview(PreviewKind::Image, "/p/a.psd"));
    assert!(!supports_preview(PreviewKind::Image, "/p/a.svg"));
    assert!(supports_preview(PreviewKind::Layered, "/p/a.PSD"));
    assert!(supports_preview(PreviewKind::Video, "/p/a.mov"));
    assert!(!supports_preview(PreviewKind::Video, "/p/a.txt"));
    assert!(!supports_preview(PreviewKind::Image, "png"));
}

#[test]
fn dimension_sources() {
    assert_eq!(dimension_source("x.psd"), DimensionSource::LayeredHeader);
    assert_eq!(dimension_source("x.Png"), DimensionSource::Raster);
    assert_eq!(dimension_source("x.svg"), DimensionSource::Unsupported);
    assert_eq!(dimension_source("x"), DimensionSource::Unsupported);
    assert_eq!(dimension_source("psd"), DimensionSource::Unsupported);
}

#[test]
fn cache_key_is_deterministic() {
    let a = cache_key("/photos/a.jpg", 1000, 128);
    let b = cache_key("/photos/a.jpg", 1000, 128);
    assert_eq!(a, b);
    assert_ne!(a, cache_key("/photos/a.jpg", 1001, 128));
    assert_ne!(a, cache_key("/photos/a.jpg", 1000, 256));
    assert_ne!(a, cache_key("/photos/b.jpg", 1000, 128));
}

#[test]
fn cache_names() {
    assert_eq!(cache_file_name(0xabc), "abc.png");
    assert_eq!(cache_file_name(0), "0.png");
    let key = cache_key("/photos/a.jpg", 1000, 128);
    assert_eq!(cache_file_name(key), format!("{:x}.png", key));
    assert_eq!(cache_subdir(PreviewKind::Image), "img_thumbnails");
    assert_eq!(cache_subdir(PreviewKind::Layered), "psd_thumbnails");
    assert_eq!(cache_subdir(PreviewKind::Video), "video_thumbnails");
}

#[test]
fn cache_hit_serves_base64() {
    match on_cache_lookup(PreviewKind::Image, Some(b"hello".to_vec())) {
        PreviewStep::Serve(t) => assert_eq!(t, "aGVsbG8="),
        other => panic!("unexpected {:?}", other),
    }
    assert_eq!(preview_reply(&vec![0xff, 0x00]), "/wA=");
}

#[test]
fn cache_miss_renders() {
    assert!(matches!(
        on_cache_lookup(PreviewKind::Image, None),
        PreviewStep::Render { gated: true }
    ));
    assert!(matches!(
        on_cache_lookup(PreviewKind::Layered, None),
        PreviewStep::Render { gated: true }
    ));
    assert!(matches!(
        on_cache_lookup(PreviewKind::Video, None),
        PreviewStep::Render { gated: false }
    ));
}

#[test]
fn video_arguments() {
    let args = video_frame_args("/v/clip.mp4", 320);
    assert_eq!(
        args,
        vec![
            "-i", "/v/clip.mp4", "-ss", "00:00:01", "-frames:v", "1", "-vf", "scale=320:-1",
            "-f", "image2pipe", "-vcodec", "png", "pipe:1"
        ]
    );
}

#[test]
fn video_result() {
    assert_eq!(video_frame_result(true, vec![1, 2]), Some(vec![1, 2]));
    assert_eq!(video_frame_result(true, vec![]), None);
    assert_eq!(video_frame_result(false, vec![1]), None);
}
