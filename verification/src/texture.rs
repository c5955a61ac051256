use vstd::prelude::*;
use vstd::string::*;

verus! {

/// An image: its width and height in pixels, and the bytes of its pixels,
/// row after row.
pub struct Image {
    pub width: u32,
    pub height: u32,
    pub pixels: Vec<u8>,
}

/// What decoding the PNG file `bytes` gives: its width, its height and the
/// bytes of its first frame's pixels, or nothing where the file is not one.
pub uninterp spec fn png_decoded(bytes: Seq<u8>) -> Option<(u32, u32, Seq<u8>)>;

/// Decodes a PNG file with the `png` crate: `Decoder::new` on the bytes,
/// `read_info`, then `Reader::next_frame` into a buffer of
/// `output_buffer_size()` bytes, cut to the frame's `buffer_size()`. No
/// transformation is asked, so the pixels are the samples as the file
/// stores them. What comes out depends on the bytes alone and is named
/// `png_decoded`; `None` where the crate reports an error. The buffer has
/// the size the file's header declares (the crate checks that the size can
/// be counted); where the machine cannot allocate that much the program
/// stops, which nothing here rules out. The crate's decoder also asserts
/// invariants of its own, which malformed files are meant not to break;
/// that is its authors' claim, not proved here.
#[verifier::external_body]
fn decode_png(bytes: &[u8]) -> (r: Option<Image>)
    ensures
        match r {
            Some(img) => png_decoded(bytes@) == Some((img.width, img.height, img.pixels@)),
            None => png_decoded(bytes@) is None,
        },
{
    let mut reader = png::Decoder::new(std::io::Cursor::new(bytes)).read_info().ok()?;
    let mut pixels = vec![0u8; reader.output_buffer_size()];
    let info = reader.next_frame(&mut pixels).ok()?;
    pixels.truncate(info.buffer_size());
    Some(Image { width: info.width, height: info.height, pixels })
}

/// A texture: its name (the path of its image file), how far it is loaded
/// (0 new, 1 image read, 2 sent to the graphics card), its image once read
/// and the handle the graphics card gave it.
pub struct Texture {
    pub name: String,
    pub state: i32,
    pub image: Option<Image>,
    pub cgl_texture: Option<usize>,
}

/// `t` holds the image `(width, height, pixels)`.
pub open spec fn holds_image(t: Texture, img: (u32, u32, Seq<u8>)) -> bool {
    t.image matches Some(i) && i.width == img.0 && i.height == img.1 && i.pixels@ == img.2
}

impl Texture {
    /// A texture for the image file `name`, not read yet.
    pub fn new(name: &str) -> (t: Texture)
        ensures
            t.name@ == name@,
            t.state == 0,
            t.image is None,
            t.cgl_texture is None,
    {
        Texture { name: String::from_str(name), state: 0, image: None, cgl_texture: None }
    }

    /// Takes the image read from the texture's file, where none was read
    /// yet: with an image the texture is read; without one (the file could
    /// not be read or decoded) it stays as it is.
    pub fn image_loaded(&mut self, image: Option<Image>)
        ensures
            if old(self).state == 0 && image is Some {
                &&& final(self).state == 1
                &&& final(self).image == image
                &&& final(self).name == old(self).name
                &&& final(self).cgl_texture == old(self).cgl_texture
            } else {
                *final(self) == *old(self)
            },
    {
        if self.state != 0 {
            return;
        }
        if image.is_some() {
            self.image = image;
            self.state = 1;
        }
    }

    /// Reads the image from the bytes of the texture's file (a PNG file),
    /// where none was read yet (see `image_loaded`).
    pub fn load(&mut self, file: &[u8])
        ensures
            match (old(self).state, png_decoded(file@)) {
                (0, Some(img)) => {
                    &&& final(self).state == 1
                    &&& holds_image(*final(self), img)
                    &&& final(self).name == old(self).name
                    &&& final(self).cgl_texture == old(self).cgl_texture
                },
                _ => *final(self) == *old(self),
            },
    {
        if self.state != 0 {
            return;
        }
        let image = decode_png(file);
        self.image_loaded(image);
    }

    /// The image to send to the graphics card: the texture's image where it
    /// is read and not sent yet.
    pub fn image_to_send(&self) -> (r: Option<&Image>)
        ensures
            match r {
                Some(img) => self.state == 1 && self.image == Some(*img),
                None => self.state != 1 || self.image is None,
            },
    {
        if self.state != 1 {
            return None;
        }
        match &self.image {
            Some(img) => Some(img),
            None => None,
        }
    }

    /// Records the handle the graphics card gave the texture's image, where
    /// the image is read and not sent yet; the texture is then ready.
    pub fn init(&mut self, cgl_texture: usize)
        ensures
            if old(self).state == 1 && old(self).image is Some {
                &&& final(self).state == 2
                &&& final(self).cgl_texture == Some(cgl_texture)
                &&& final(self).image == old(self).image
                &&& final(self).name == old(self).name
            } else {
                *final(self) == *old(self)
            },
    {
        if self.state != 1 {
            return;
        }
        if self.image.is_some() {
            self.cgl_texture = Some(cgl_texture);
            self.state = 2;
        }
    }
}

} // verus!
