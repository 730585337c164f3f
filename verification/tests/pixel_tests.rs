use pixbuf::pixel::PixelType;
use pixbuf::pixmap::{Pixmap, MAX_DIM};
use pixbuf::GfxError;

#[test]
fn rgb_to_pixel_formulas() {
    let (p, _st) = Pixmap::new(4, 4, PixelType::Rgb888, 0).expect("alloc failed");
    assert_eq!(p.rgb_to_pixel(0xff, 0x00, 0x00), 0xff0000);
    assert_eq!(p.rgb_to_pixel(0x01, 0x02, 0x03), 0x010203);

    let (g, _gst) = Pixmap::new(4, 4, PixelType::G8, 0).expect("alloc failed");
    assert_eq!(g.rgb_to_pixel(10, 20, 30), 20);

    let (a, _ast) = Pixmap::new(4, 4, PixelType::Rgba8888, 0).expect("alloc failed");
    assert_eq!(a.rgb_to_pixel(0x01, 0x02, 0x03), 0xff010203u32);
}

#[test]
fn from_data_decodes_little_endian() {
    let pixels: Vec<u8> = vec![1, 2, 3];
    let (p, st) = Pixmap::from_data(1, 1, PixelType::Rgb888, pixels).expect("wrap failed");
    assert_eq!(p.get_pixel(&st, 0, 0), 0x030201);
}

#[test]
fn from_data_needs_enough_bytes() {
    let pixels: Vec<u8> = vec![0; 5];
    assert!(Pixmap::from_data(2, 1, PixelType::Rgb888, pixels).is_none());
    let pixels: Vec<u8> = vec![0; 6];
    assert!(Pixmap::from_data(2, 1, PixelType::Rgb888, pixels).is_some());
}

#[test]
fn put_pixel_masks_to_format() {
    let (p, mut st) = Pixmap::new(2, 2, PixelType::Rgb888, 0).expect("alloc failed");
    p.put_pixel(&mut st, 1, 1, 0x11223344);
    assert_eq!(p.get_pixel(&st, 1, 1), 0x223344);

    let (g, mut gst) = Pixmap::new(2, 2, PixelType::G8, 0).expect("alloc failed");
    g.fill(&mut gst, 0x0102);
    assert_eq!(g.get_pixel(&gst, 0, 0), 0x02);
}

#[test]
fn out_of_bounds_reads_zero_and_writes_nothing() {
    let (p, mut st) = Pixmap::new(1, 1, PixelType::Rgb888, 0).expect("alloc failed");
    let red = p.rgb_to_pixel(0xff, 0, 0);
    p.fill(&mut st, red);

    assert_eq!(p.get_pixel(&st, -1, 0), 0);
    assert_eq!(p.get_pixel(&st, 0, -1), 0);
    assert_eq!(p.get_pixel(&st, 1, 0), 0);
    assert_eq!(p.get_pixel(&st, 0, 1), 0);

    p.put_pixel(&mut st, 1, 1, 0x42);
    p.put_pixel(&mut st, -1, 0, 0x42);
    assert_eq!(p.get_pixel(&st, 0, 0), red);
}

#[test]
fn new_rejects_undersized_stride() {
    match Pixmap::new(10, 10, PixelType::Rgb888, 5) {
        Err(GfxError::InvalidParameter) => {}
        other => panic!("expected InvalidParameter, got {:?}", other),
    }
    // the minimal stride for 10 RGB pixels is 30 bytes; 32 is fine
    assert!(Pixmap::new(10, 10, PixelType::Rgb888, 32).is_ok());
}

#[test]
fn new_rejects_oversized_extent() {
    match Pixmap::new(MAX_DIM, MAX_DIM, PixelType::Rgba8888, 0) {
        Err(GfxError::AllocationFailure) => {}
        other => panic!("expected AllocationFailure, got {:?}", other),
    }
}

#[test]
fn sub_pixmap_rejects_escaping_rect() {
    let (p, mut st) = Pixmap::new(10, 10, PixelType::Rgb888, 0).expect("alloc failed");
    match p.sub_pixmap(&mut st, 5, 5, 6, 6) {
        Err(GfxError::BoundsError) => {}
        other => panic!("expected BoundsError, got {:?}", other),
    }
    match p.sub_pixmap(&mut st, -1, 0, 2, 2) {
        Err(GfxError::BoundsError) => {}
        other => panic!("expected BoundsError, got {:?}", other),
    }
    assert!(p.sub_pixmap(&mut st, 5, 5, 5, 5).is_ok());
}

#[test]
fn gamma_and_srgb() {
    let (mut p, _st) = Pixmap::new(2, 2, PixelType::Rgb888, 0).expect("alloc failed");
    match p.set_gamma(0) {
        Err(GfxError::InvalidParameter) => {}
        other => panic!("expected InvalidParameter, got {:?}", other),
    }
    assert!(p.set_gamma(2200).is_ok());
    assert!(p.set_srgb().is_ok());
}

#[test]
fn axes_swap_swaps_reported_dims() {
    let (mut p, _st) = Pixmap::new(4, 2, PixelType::G8, 0).expect("alloc failed");
    assert_eq!((p.w(), p.h()), (4, 2));
    assert_eq!((p.raw_w(), p.raw_h()), (4, 2));

    p.set_axes_swap(true);
    assert_eq!((p.w(), p.h()), (2, 4));
    assert_eq!((p.raw_w(), p.raw_h()), (4, 2));

    // idempotent: setting the flag again changes nothing
    p.set_axes_swap(true);
    assert_eq!((p.w(), p.h()), (2, 4));

    p.set_axes_swap(false);
    assert_eq!((p.w(), p.h()), (4, 2));
}

#[test]
fn x_swap_mirrors_columns() {
    let (mut p, mut st) = Pixmap::new(4, 1, PixelType::G8, 0).expect("alloc failed");
    p.put_pixel(&mut st, 0, 0, 7);
    assert_eq!(p.get_pixel(&st, 0, 0), 7);

    p.set_x_swap(true);
    assert_eq!(p.get_pixel(&st, 3, 0), 7);
    assert_eq!(p.get_pixel(&st, 0, 0), 0);
}

#[test]
fn views_share_storage() {
    let (root, mut st) = Pixmap::new(8, 8, PixelType::Rgb888, 0).expect("alloc failed");
    let red = root.rgb_to_pixel(0xff, 0, 0);
    let green = root.rgb_to_pixel(0, 0xff, 0);
    root.fill(&mut st, red);

    let v = root.sub_pixmap(&mut st, 2, 3, 4, 4).expect("view failed");
    assert_eq!(v.get_pixel(&st, 0, 0), red);

    v.put_pixel(&mut st, 0, 0, green);
    assert_eq!(root.get_pixel(&st, 2, 3), green);
    assert_eq!(root.get_pixel(&st, 3, 3), red);

    // a fill of the view leaves the rest of the root untouched
    v.fill(&mut st, green);
    assert_eq!(root.get_pixel(&st, 1, 3), red);
    assert_eq!(root.get_pixel(&st, 5, 6), green);
}

#[test]
fn close_releases_owned_storage_only() {
    let (root, mut st) = Pixmap::new(4, 4, PixelType::G8, 0).expect("alloc failed");
    root.close(&mut st);
    assert_eq!(st.holders, 0);
    assert!(st.bytes.is_empty());

    let pixels: Vec<u8> = vec![9, 9, 9, 9];
    let (ext, mut ext_st) = Pixmap::from_data(2, 2, PixelType::G8, pixels).expect("wrap failed");
    ext.close(&mut ext_st);
    assert_eq!(ext_st.holders, 0);
    // external bytes are never released by this component
    assert_eq!(ext_st.bytes, vec![9, 9, 9, 9]);
}

#[test]
fn vline_and_hline_draw_segments() {
    let (p, mut st) = Pixmap::new(5, 5, PixelType::G8, 0).expect("alloc failed");
    p.vline(&mut st, 2, 3, 1, 7);
    assert_eq!(p.get_pixel(&st, 2, 0), 0);
    assert_eq!(p.get_pixel(&st, 2, 1), 7);
    assert_eq!(p.get_pixel(&st, 2, 2), 7);
    assert_eq!(p.get_pixel(&st, 2, 3), 7);
    assert_eq!(p.get_pixel(&st, 2, 4), 0);
    assert_eq!(p.get_pixel(&st, 1, 2), 0);

    p.hline(&mut st, -3, 1, 0, 9);
    assert_eq!(p.get_pixel(&st, 0, 0), 9);
    assert_eq!(p.get_pixel(&st, 1, 0), 9);
    assert_eq!(p.get_pixel(&st, 2, 0), 0);

    p.vline_xyh(&mut st, 4, 3, 2, 5);
    assert_eq!(p.get_pixel(&st, 4, 2), 0);
    assert_eq!(p.get_pixel(&st, 4, 3), 5);
    assert_eq!(p.get_pixel(&st, 4, 4), 5);

    p.hline_xyw(&mut st, 0, 4, 2, 6);
    assert_eq!(p.get_pixel(&st, 0, 4), 6);
    assert_eq!(p.get_pixel(&st, 1, 4), 6);
    assert_eq!(p.get_pixel(&st, 2, 4), 0);
}

#[test]
fn blit_converts_between_formats() {
    let (src, mut src_st) = Pixmap::new(2, 2, PixelType::Rgb888, 0).expect("alloc failed");
    let (dst, mut dst_st) = Pixmap::new(2, 2, PixelType::G8, 0).expect("alloc failed");
    src.fill(&mut src_st, 0x010203);

    src.blit_xyxy(&src_st, 0, 0, 1, 1, &dst, &mut dst_st, 0, 0);
    // the copied value is reduced to the destination's single byte
    assert_eq!(dst.get_pixel(&dst_st, 0, 0), 0x03);
}

#[test]
fn resize_zeroes_and_reroots() {
    let (mut p, mut st) = Pixmap::new(3, 3, PixelType::G8, 0).expect("alloc failed");
    p.fill(&mut st, 5);
    assert!(p.resize(&mut st, 2, 7).is_ok());
    assert_eq!((p.w(), p.h()), (2, 7));
    assert_eq!(p.get_pixel(&st, 0, 0), 0);
    assert_eq!(st.holders, 1);

    match p.resize(&mut st, MAX_DIM, MAX_DIM) {
        Err(GfxError::AllocationFailure) => {}
        other => panic!("expected AllocationFailure, got {:?}", other),
    }
    // a failed resize leaves everything as it was
    assert_eq!((p.w(), p.h()), (2, 7));
}
