use pixbuf::pixel::PixelType;
use pixbuf::pixmap::Pixmap;

#[test]
fn pixmap_test() {
    let w: u32 = 100;
    let h: u32 = 200;
    let pixel_type = PixelType::Rgb888;

    let (mut p, _st) = Pixmap::new(w, h, pixel_type, 0).expect("Malloc failed");

    assert_eq!(p.w(), w);
    assert_eq!(p.h(), h);
    assert_eq!(p.pixel_type(), pixel_type);

    assert_eq!(p.x_swap(), false);
    p.set_x_swap(true);
    assert_eq!(p.x_swap(), true);

    assert_eq!(p.y_swap(), false);
    p.set_y_swap(true);
    assert_eq!(p.y_swap(), true);

    assert_eq!(p.axes_swap(), false);
    p.set_axes_swap(true);
    assert_eq!(p.axes_swap(), true);
}

#[test]
fn sub_pixmap_test() {
    let w: u32 = 100;
    let h: u32 = 200;
    let pixel_type = PixelType::Rgb888;

    let (mut p, mut st) = Pixmap::new(w, h, pixel_type, 0).expect("Malloc failed");
    let mut sp = p.sub_pixmap(&mut st, 1, 1, w - 2, h - 2).expect("Malloc failed");
    let ssp = sp.sub_pixmap(&mut st, 1, 1, sp.w() - 2, sp.h() - 2).expect("Malloc failed");

    assert_eq!(sp.w(), w - 2);
    assert_eq!(sp.h(), h - 2);
    assert_eq!(sp.pixel_type(), pixel_type);

    assert_eq!(ssp.w(), w - 4);
    assert_eq!(ssp.h(), h - 4);
    assert_eq!(ssp.pixel_type(), pixel_type);

    assert_eq!(sp.x_swap(), false);
    sp.set_x_swap(true);
    assert_eq!(sp.x_swap(), true);

    assert_eq!(sp.y_swap(), false);
    sp.set_y_swap(true);
    assert_eq!(sp.y_swap(), true);

    assert_eq!(sp.axes_swap(), false);
    sp.set_axes_swap(true);
    assert_eq!(sp.axes_swap(), true);

    let res = sp.resize(&mut st, 10, 10);

    assert!(res.is_err(), "Subpixmap resize should have failed");

    let res = p.resize(&mut st, 10, 10);

    assert!(res.is_err(), "Pixmap with subpixmap cannot be resized");
}

#[test]
fn sub_pixmap_lifetime() {
    let sp: Pixmap;

    {
        let (p, mut st) = Pixmap::new(100, 100, PixelType::Rgb888, 0).expect("Malloc failed");

        sp = p.sub_pixmap(&mut st, 1, 1, 80, 80).expect("Malloc failed");
    }

    assert_eq!(sp.w(), 80);
    assert_eq!(sp.h(), 80);
}

#[test]
fn pixmap_fill() {
    let (pixmap, mut st) = Pixmap::new(100, 100, PixelType::Rgb888, 0).expect("Malloc failure");
    let red = pixmap.rgb_to_pixel(0xff, 0x00, 0x00);
    let green = pixmap.rgb_to_pixel(0x00, 0xff, 0x00);

    pixmap.fill(&mut st, red);
    assert_eq!(red, pixmap.get_pixel(&st, 0, 0));

    pixmap.fill(&mut st, green);
    assert_eq!(green, pixmap.get_pixel(&st, 0, 0));
}

#[test]
fn pixmap_from_vec() {
    let pixels: Vec<u8> = vec![0x00, 0x00, 0x00];
    let (p, mut st) = Pixmap::from_data(1, 1, PixelType::Rgb888, pixels).expect("Malloc failed");
    let white = p.rgb_to_pixel(0xff, 0xff, 0xff);
    let black = p.rgb_to_pixel(0x00, 0x00, 0x00);

    assert_eq!(black, p.get_pixel(&st, 0, 0));
    p.fill(&mut st, white);
    assert_eq!(white, p.get_pixel(&st, 0, 0));
}

#[test]
fn blit_test() {
    let (src, mut src_st) = Pixmap::new(100, 100, PixelType::Rgb888, 0).expect("Malloc failure");
    let (dst, mut dst_st) = Pixmap::new(100, 100, PixelType::Rgb888, 0).expect("Malloc failure");

    let white = src.rgb_to_pixel(0xff, 0xff, 0xff);
    let black = dst.rgb_to_pixel(0x00, 0x00, 0x00);

    src.fill(&mut src_st, white);
    dst.fill(&mut dst_st, black);

    src.blit_xywh(&src_st, 0, 0, 10, 10, &dst, &mut dst_st, 0, 0);

    assert_eq!(white, dst.get_pixel(&dst_st, 0, 0));
    assert_eq!(black, dst.get_pixel(&dst_st, 0, 10));
}
