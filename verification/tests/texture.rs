use dormin::texture::Texture;

fn png_bytes(width: u32, height: u32, rgb: &[u8]) -> Vec<u8> {
    let mut out = Vec::new();
    {
        let mut encoder = png::Encoder::new(&mut out, width, height);
        encoder.set_color(png::ColorType::Rgb);
        encoder.set_depth(png::BitDepth::Eight);
        let mut writer = encoder.write_header().unwrap();
        writer.write_image_data(rgb).unwrap();
    }
    out
}

#[test]
fn a_png_file_gives_the_image() {
    let pixels = [255, 0, 0, 0, 255, 0];
    let mut t = Texture::new("texture/red_green.png");
    t.load(&png_bytes(2, 1, &pixels));
    assert_eq!(t.state, 1);
    let img = t.image.as_ref().unwrap();
    assert_eq!(img.width, 2);
    assert_eq!(img.height, 1);
    assert_eq!(img.pixels, pixels.to_vec());
    assert_eq!(t.name, "texture/red_green.png");
}

#[test]
fn a_file_that_is_no_png_leaves_the_texture_unread() {
    let mut t = Texture::new("texture/bad.png");
    t.load(&[1, 2, 3, 4]);
    assert_eq!(t.state, 0);
    assert!(t.image.is_none());
    assert!(t.image_to_send().is_none());
}

#[test]
fn a_texture_is_read_once_and_sent_once() {
    let mut t = Texture::new("t.png");
    t.init(5);
    assert_eq!(t.state, 0);
    assert_eq!(t.cgl_texture, None);
    t.load(&png_bytes(1, 1, &[1, 2, 3]));
    t.load(&png_bytes(2, 1, &[0; 6]));
    assert_eq!(t.image.as_ref().unwrap().width, 1);
    assert_eq!(t.image_to_send().unwrap().pixels, vec![1, 2, 3]);
    t.init(7);
    assert_eq!(t.state, 2);
    assert_eq!(t.cgl_texture, Some(7));
    assert!(t.image_to_send().is_none());
    t.init(9);
    assert_eq!(t.cgl_texture, Some(7));
}
