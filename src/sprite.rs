use crate::animation::AnimationSM;
use crate::types::Vec2i;
use std::rc::Rc;
use vstd::prelude::*;

verus! {

/// An RGBA image, four bytes per pixel, row by row. Shared between sprites and
/// never changed once made.
pub struct Texture {
    width: usize,
    height: usize,
    pixels: Vec<u8>,
}

impl Texture {
    pub closed spec fn width_spec(&self) -> nat {
        self.width as nat
    }

    pub closed spec fn height_spec(&self) -> nat {
        self.height as nat
    }

    pub closed spec fn pixels_spec(&self) -> Seq<u8> {
        self.pixels@
    }

    pub fn new(width: usize, height: usize, pixels: Vec<u8>) -> (r: Self)
        requires
            pixels@.len() == width * height * 4,
        ensures
            r.width_spec() == width,
            r.height_spec() == height,
            r.pixels_spec() == pixels@,
    {
        Texture { width, height, pixels }
    }

    pub fn width(&self) -> (r: usize)
        ensures
            r == self.width_spec(),
    {
        self.width
    }

    pub fn height(&self) -> (r: usize)
        ensures
            r == self.height_spec(),
    {
        self.height
    }

    pub fn pixels(&self) -> (r: &[u8])
        ensures
            r@ == self.pixels_spec(),
    {
        self.pixels.as_slice()
    }
}

/// Relies on `Rc::clone`: a second handle to the same texture.
#[verifier::external_body]
fn share_texture(image: &Rc<Texture>) -> (r: Rc<Texture>)
    ensures
        r == *image,
{
    Rc::clone(image)
}

/// A drawable: a shared image, the state machine that picks which part of it to
/// show, and where.
pub struct Sprite {
    pub image: Rc<Texture>,
    pub animation_sm: AnimationSM,
    pub position: Vec2i,
}

impl Sprite {
    pub fn new(image: &Rc<Texture>, animation_sm: AnimationSM, position: Vec2i) -> (r: Self)
        ensures
            r.image == *image,
            r.animation_sm == animation_sm,
            r.position == position,
    {
        Sprite { image: share_texture(image), animation_sm, position }
    }
}

/// A surface that sprites can be drawn on.
pub trait DrawSpriteExt {
    fn draw_sprite(&mut self, s: &mut Sprite, cur_frame: usize);
}

} // verus!
