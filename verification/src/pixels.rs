use vstd::prelude::*;

verus! {

/// An RGBA picture, 8 bits per channel, rows top to bottom, four bytes per pixel.
pub struct RgbaImage {
    pub width: u32,
    pub height: u32,
    pub data: Vec<u8>,
}

/// A grey picture, one byte per pixel, rows top to bottom.
pub struct LumaImage {
    pub width: u32,
    pub height: u32,
    pub data: Vec<u8>,
}

impl RgbaImage {
    /// The buffer holds exactly `width · height` pixels.
    pub open spec fn wf(&self) -> bool {
        self.data@.len() == self.width * self.height * 4
    }

    /// The four channels of pixel `(x, y)`.
    pub open spec fn pixel(&self, x: int, y: int) -> [u8; 4] {
        let i = (y * self.width + x) * 4;
        [self.data@[i], self.data@[i + 1], self.data@[i + 2], self.data@[i + 3]]
    }

    /// Wraps a buffer as a picture when its length matches the size, as
    /// `ImageBuffer::from_raw` does.
    pub fn from_raw(width: u32, height: u32, data: Vec<u8>) -> (r: Option<RgbaImage>)
        ensures
            r is Some <==> data@.len() == width * height * 4,
            r matches Some(img) ==> img.wf() && img.width == width && img.height == height
                && img.data@ == data@,
    {
        assert(width * height <= 0xffff_ffff * 0xffff_ffffu64) by (nonlinear_arith)
            requires
                width <= 0xffff_ffffu64,
                height <= 0xffff_ffffu64,
        ;
        let wh = (width as u64) * (height as u64);
        let len = data.len();
        if wh > (usize::MAX / 4) as u64 {
            return None;
        }
        if len != (wh as usize) * 4 {
            return None;
        }
        Some(RgbaImage { width, height, data })
    }

    /// The channels of pixel `(x, y)`.
    pub fn get_pixel(&self, x: u32, y: u32) -> (p: [u8; 4])
        requires
            self.wf(),
            x < self.width,
            y < self.height,
        ensures
            p == self.pixel(x as int, y as int),
    {
        proof {
            lemma_pixel_index(self.width as int, self.height as int, x as int, y as int);
        }
        let len = self.data.len();
        assert((y as int) * (self.width as int) <= (y as int) * (self.width as int) + (x as int));
        let i = ((y as usize) * (self.width as usize) + (x as usize)) * 4;
        [self.data[i], self.data[i + 1], self.data[i + 2], self.data[i + 3]]
    }
}

/// A pixel inside the picture starts four bytes before the end at the latest.
pub proof fn lemma_pixel_index(w: int, h: int, x: int, y: int)
    requires
        0 <= x < w,
        0 <= y < h,
    ensures
        0 <= y * w + x,
        (y * w + x) * 4 + 4 <= w * h * 4,
{
    assert(y * w + x < w * h) by (nonlinear_arith)
        requires
            0 <= x < w,
            0 <= y < h,
    ;
    assert(0 <= y * w) by (nonlinear_arith)
        requires
            0 <= y,
            0 <= w,
    ;
}

} // verus!
