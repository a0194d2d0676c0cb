//! An in-memory image: one packed 32-bit pixel per cell.

use vstd::prelude::*;

verus! {

/// A pixel buffer with a fixed extent; the buffer always holds exactly
/// `width * height` pixels.
#[derive(Clone, PartialEq, Debug)]
pub struct Image {
    pub width: u32,
    pub height: u32,
    pub data: Vec<u32>,
}

impl Image {
    /// The buffer matches the extent.
    pub open spec fn wf(self) -> bool {
        self.data@.len() == self.width as int * self.height as int
    }

    /// A new image of the given extent, every pixel clear.
    pub fn new(width: u32, height: u32) -> (r: Image)
        requires
            width as int * height as int <= 0xffffffff,
        ensures
            r.wf(),
            r.width == width,
            r.height == height,
            forall|i: int| 0 <= i < r.data@.len() ==> r.data@[i] == 0u32,
    {
        proof {
            assert(width as int * height as int >= 0) by (nonlinear_arith);
        }
        let total: usize = (width as usize) * (height as usize);
        let mut data: Vec<u32> = Vec::new();
        let mut i: usize = 0;
        while i < total
            invariant
                0 <= i <= total,
                data@.len() == i,
                forall|k: int| 0 <= k < i ==> data@[k] == 0u32,
            decreases total - i,
        {
            data.push(0);
            i = i + 1;
        }
        Image { width, height, data }
    }

    /// An image over an existing buffer; refused when the buffer does not
    /// match the extent.
    pub fn from_data(width: u32, height: u32, data: Vec<u32>) -> (r: Result<Image, ()>)
        ensures
            data@.len() == width as int * height as int <==> r is Ok,
            r matches Ok(img) ==> (img.wf() && img.width == width && img.height == height
                && img.data@ == data@),
    {
        proof {
            assert(width as int * height as int <= 0xffffffff * 0xffffffff) by (nonlinear_arith)
                requires
                    width <= 0xffffffffu32,
                    height <= 0xffffffffu32,
        ;
        }
        if width as u64 * height as u64 == data.len() as u64 {
            Ok(Image { width, height, data })
        } else {
            Err(())
        }
    }

    /// Copies a same-sized buffer into the image.
    pub fn draw(&mut self, data: &Vec<u32>)
        requires
            old(self).wf(),
            data@.len() == old(self).data@.len(),
        ensures
            final(self).wf(),
            final(self).width == old(self).width,
            final(self).height == old(self).height,
            final(self).data@ == data@,
    {
        let mut fresh: Vec<u32> = Vec::new();
        let mut i: usize = 0;
        while i < data.len()
            invariant
                0 <= i <= data@.len(),
                fresh@.len() == i,
                forall|k: int| 0 <= k < i ==> fresh@[k] == data@[k],
            decreases data@.len() - i,
        {
            fresh.push(data[i]);
            i = i + 1;
        }
        proof {
            assert(fresh@ =~= data@);
        }
        self.data = fresh;
    }

    /// The width in pixels.
    pub fn width(&self) -> (r: u32)
        ensures
            r == self.width,
    {
        self.width
    }

    /// The height in pixels.
    pub fn height(&self) -> (r: u32)
        ensures
            r == self.height,
    {
        self.height
    }

    /// The pixels, row by row.
    pub fn data(&self) -> (r: &Vec<u32>)
        ensures
            r@ == self.data@,
    {
        &self.data
    }

    /// The pixels, mutably; the caller must keep the length.
    pub fn data_mut(&mut self) -> (r: &mut Vec<u32>)
        ensures
            *r == old(self).data,
            final(self).data == *final(r),
            final(self).width == old(self).width,
            final(self).height == old(self).height,
    {
        &mut self.data
    }
}

} // verus!
