//! In-memory textures and the map that hands them out by handle.

use crate::fixed::SCALE;
use crate::vectors::Vec3;
use vstd::prelude::*;

verus! {

/// One texture pixel, a plain color triple.
#[derive(Debug, Clone, Copy, PartialEq, Eq, Structural)]
pub struct Rgb8 {
    pub r: u8,
    pub g: u8,
    pub b: u8,
}

impl Rgb8 {
    /// The pixel as a fixed-point color vector with channels in `[0, 255]`.
    pub open spec fn spec_to_color(self) -> Vec3 {
        Vec3 {
            x: ((self.r as int) * (SCALE as int)) as i64,
            y: ((self.g as int) * (SCALE as int)) as i64,
            z: ((self.b as int) * (SCALE as int)) as i64,
        }
    }

    /// Widen the pixel into a fixed-point color vector.
    pub fn to_color(self) -> (v: Vec3)
        ensures
            v == self.spec_to_color(),
    {
        Vec3 { x: (self.r as i64) * SCALE, y: (self.g as i64) * SCALE, z: (self.b as i64) * SCALE }
    }
}

/// A decoded image: its dimensions and its pixel rows, top row first.
#[derive(Debug, Clone, PartialEq, Eq)]
pub struct Image {
    pub width: usize,
    pub height: usize,
    pub pixels: Vec<Rgb8>,
}

impl Image {
    /// A consistent image holds exactly one pixel per cell.
    pub open spec fn wf(self) -> bool {
        self.pixels@.len() == self.width * self.height
    }

    /// Assemble an image, refusing pixel data of the wrong size.
    pub fn new(width: usize, height: usize, pixels: Vec<Rgb8>) -> (r: Option<Image>)
        ensures
            r is Some <==> pixels@.len() == width * height,
            r matches Some(img) ==> img == (Image { width, height, pixels }) && img.wf(),
    {
        proof {
            assert((width * height) as int == (width as int) * (height as int)
                || (width as int) * (height as int) > usize::MAX) by (nonlinear_arith);
        }
        if width == 0 || height == 0 {
            if pixels.len() == 0 {
                proof {
                    assert((width as int) * (height as int) == 0) by (nonlinear_arith)
                        requires
                            width == 0 || height == 0,
                    ;
                }
                Some(Image { width, height, pixels })
            } else {
                proof {
                    assert((width as int) * (height as int) == 0) by (nonlinear_arith)
                        requires
                            width == 0 || height == 0,
                    ;
                }
                None
            }
        } else {
            if pixels.len() / height == width && pixels.len() % height == 0 {
                proof {
                    assert(pixels@.len() == width * height) by (nonlinear_arith)
                        requires
                            height > 0,
                            pixels@.len() as int / (height as int) == width as int,
                            pixels@.len() as int % (height as int) == 0,
                    ;
                }
                Some(Image { width, height, pixels })
            } else {
                proof {
                    assert(pixels@.len() != width * height) by (nonlinear_arith)
                        requires
                            height > 0,
                            !(pixels@.len() as int / (height as int) == width as int && pixels@.len() as int
                                % (height as int) == 0),
                    ;
                }
                None
            }
        }
    }

    /// The pixel stored at a cell.
    pub open spec fn spec_pixel(self, x: int, y: int) -> Rgb8 {
        self.pixels@[y * self.width + x]
    }

    /// Read one pixel.
    pub fn get_pixel(&self, x: usize, y: usize) -> (p: Rgb8)
        requires
            self.wf(),
            x < self.width,
            y < self.height,
        ensures
            p == self.spec_pixel(x as int, y as int),
    {
        let l = self.pixels.len();
        proof {
            assert((y as int) * (self.width as int) + (x as int) < (self.width as int) * (
            self.height as int)) by (nonlinear_arith)
                requires
                    x < self.width,
                    y < self.height,
            ;
            assert(l as int == (self.width as int) * (self.height as int)) by (nonlinear_arith)
                requires
                    self.pixels@.len() == self.width * self.height,
                    l == self.pixels@.len(),
            ;
        }
        self.pixels[y * self.width + x]
    }
}

/// The texture cache: decoded images handed out by plain integer handle.
#[derive(Debug, Clone, PartialEq, Eq)]
pub struct TextureMap {
    pub textures: Vec<Image>,
}

impl TextureMap {
    /// Every held image is consistent.
    pub open spec fn wf(self) -> bool {
        forall|i: int| 0 <= i < self.textures@.len() ==> (#[trigger] self.textures@[i]).wf()
    }

    /// An empty texture map.
    pub fn new() -> (r: TextureMap)
        ensures
            r.textures@.len() == 0,
            r.wf(),
    {
        TextureMap { textures: Vec::new() }
    }

    /// Store an image and hand back its handle.
    pub fn add_image(&mut self, image: Image) -> (handle: usize)
        requires
            image.wf(),
        ensures
            final(self).textures@ == old(self).textures@.push(image),
            handle == old(self).textures@.len(),
            old(self).wf() ==> final(self).wf(),
    {
        let handle = self.textures.len();
        self.textures.push(image);
        handle
    }

    /// Look an image up by its handle; an unknown handle is an error.
    pub fn get_image_by_handle(&self, handle: usize) -> (r: Result<&Image, ()>)
        ensures
            handle < self.textures@.len() <==> r is Ok,
            r matches Ok(img) ==> *img == self.textures@[handle as int],
    {
        if handle < self.textures.len() {
            Ok(&self.textures[handle])
        } else {
            Err(())
        }
    }
}

} // verus!
