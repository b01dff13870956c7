//! Images: decoded from file bytes into rows of RGBA pixels, read and written
//! by pixel, and kept by name.
use crate::color::rgba::RGBA;
use crate::text::{chars_eq, chars_of};
use vstd::prelude::*;

verus! {

/// What `image::load_from_memory` followed by `to_rgba8` makes of `bytes`:
/// `None` when the bytes do not decode, else the width, the height and the
/// pixels' RGBA bytes, row by row.
pub uninterp spec fn decoded_rgba(bytes: Seq<u8>) -> Option<(u32, u32, Seq<u8>)>;

/// Decodes image bytes with `image::load_from_memory` and converts the
/// result to 8-bit RGBA (`to_rgba8`). The contract names the result
/// (`decoded_rgba`) and adds only what the crate's `ImageBuffer::new`, which
/// the conversion uses, shows: four bytes per pixel.
#[verifier::external_body]
fn decode_rgba(bytes: &[u8]) -> (r: Option<(u32, u32, Vec<u8>)>)
    ensures
        match r {
            None => decoded_rgba(bytes@) is None,
            Some((w, h, px)) => decoded_rgba(bytes@) == Some((w, h, px@)) && px@.len() == 4 * w * h,
        },
{
    match image::load_from_memory(bytes) {
        Ok(img) => {
            let rgba = img.to_rgba8();
            let (w, h) = rgba.dimensions();
            Some((w, h, rgba.into_raw()))
        },
        Err(_) => None,
    }
}

/// RGBA bytes read four at a time as pixels.
pub open spec fn pixels_of(bytes: Seq<u8>) -> Seq<RGBA> {
    Seq::new(
        bytes.len() / 4,
        |i: int| RGBA(bytes[4 * i], bytes[4 * i + 1], bytes[4 * i + 2], bytes[4 * i + 3]),
    )
}

/// The pixel position of `(x, y)` in an image `w` pixels wide.
pub open spec fn pixel_index(w: int, x: int, y: int) -> int {
    y * w + x
}

proof fn lemma_pixel_index(w: int, h: int, x: int, y: int)
    requires
        0 <= x < w,
        0 <= y < h,
    ensures
        0 <= pixel_index(w, x, y) < w * h,
{
    assert(0 <= y * w + x < w * h) by (nonlinear_arith)
        requires
            0 <= x < w,
            0 <= y < h,
    ;
}

/// An image: its width and height in pixels and its pixels row by row.
pub struct Image {
    width: u32,
    height: u32,
    pixels: Vec<RGBA>,
}

impl Image {
    /// Width, height and pixels.
    pub closed spec fn view(&self) -> (u32, u32, Seq<RGBA>) {
        (self.width, self.height, self.pixels@)
    }

    /// There is one pixel per position.
    pub open spec fn wf(&self) -> bool {
        self.view().2.len() == self.view().0 * self.view().1
    }

    /// An image of the given size with every pixel transparent black.
    pub fn empty(width: u32, height: u32) -> (img: Image)
        requires
            4 * width * height <= usize::MAX,
        ensures
            img.wf(),
            img.view() == (width, height, Seq::new((width * height) as nat, |i: int| RGBA(0, 0, 0, 0))),
    {
        assert(width * height <= 4 * width * height) by (nonlinear_arith);
        let n = width as usize * height as usize;
        let mut pixels: Vec<RGBA> = Vec::new();
        let mut i: usize = 0;
        while i < n
            invariant
                i <= n,
                n == width * height,
                pixels@ == Seq::new(i as nat, |k: int| RGBA(0, 0, 0, 0)),
            decreases n - i,
        {
            pixels.push(RGBA(0, 0, 0, 0));
            i = i + 1;
        }
        Image { width, height, pixels }
    }

    /// Decodes an image from the bytes of an image file.
    pub fn new(buf: &[u8]) -> (img: Image)
        requires
            decoded_rgba(buf@) is Some,
        ensures
            img.wf(),
            img.view() == (
                decoded_rgba(buf@)->Some_0.0,
                decoded_rgba(buf@)->Some_0.1,
                pixels_of(decoded_rgba(buf@)->Some_0.2),
            ),
    {
        match decode_rgba(buf) {
            Some((w, h, px)) => Image::from_rgba_bytes(w, h, px),
            None => {
                proof {
                    assert(false);
                }
                Image::empty(0, 0)
            },
        }
    }

    /// Decodes an image from the bytes of an image file, or `None` when the
    /// bytes do not decode.
    pub fn try_new(buf: &[u8]) -> (r: Option<Image>)
        ensures
            match r {
                None => decoded_rgba(buf@) is None,
                Some(img) => img.wf() && decoded_rgba(buf@) is Some && img.view() == (
                    decoded_rgba(buf@)->Some_0.0,
                    decoded_rgba(buf@)->Some_0.1,
                    pixels_of(decoded_rgba(buf@)->Some_0.2),
                ),
            },
    {
        match decode_rgba(buf) {
            None => None,
            Some(_) => Some(Image::new(buf)),
        }
    }

    /// An image from its size and its RGBA bytes, row by row.
    fn from_rgba_bytes(w: u32, h: u32, px: Vec<u8>) -> (img: Image)
        requires
            px@.len() == 4 * w * h,
        ensures
            img.wf(),
            img.view() == (w, h, pixels_of(px@)),
    {
        let plen = px.len();
        let n = plen / 4;
        let mut pixels: Vec<RGBA> = Vec::new();
        let mut i: usize = 0;
        while i < n
            invariant
                i <= n,
                n == px@.len() / 4,
                plen == px@.len(),
                px@.len() == 4 * w * h,
                pixels@ == pixels_of(px@).take(i as int),
            decreases n - i,
        {
            pixels.push(RGBA(px[4 * i], px[4 * i + 1], px[4 * i + 2], px[4 * i + 3]));
            assert(pixels_of(px@).take(i as int).push(pixels_of(px@)[i as int]) == pixels_of(px@).take(
                i + 1,
            ));
            i = i + 1;
        }
        assert(pixels_of(px@).take(n as int) == pixels_of(px@));
        assert(4 * w * h == 4 * (w * h)) by (nonlinear_arith);
        assert(n == w * h);
        Image { width: w, height: h, pixels }
    }

    /// The width in pixels.
    pub fn width(&self) -> (w: u32)
        ensures
            w == self.view().0,
    {
        self.width
    }

    /// The height in pixels.
    pub fn height(&self) -> (h: u32)
        ensures
            h == self.view().1,
    {
        self.height
    }

    /// The width and height in pixels.
    pub fn size(&self) -> (s: (u32, u32))
        ensures
            s == (self.view().0, self.view().1),
    {
        (self.width, self.height)
    }

    /// The pixels, row by row.
    pub fn pixels(&self) -> (p: &[RGBA])
        ensures
            p@ == self.view().2,
    {
        self.pixels.as_slice()
    }

    /// The color of the pixel at `(x, y)`.
    pub fn pixel(&self, x: u32, y: u32) -> (c: Option<RGBA>)
        requires
            self.wf(),
            x < self.view().0,
            y < self.view().1,
        ensures
            c == Some(self.view().2[pixel_index(self.view().0 as int, x as int, y as int)]),
    {
        proof {
            lemma_pixel_index(self.width as int, self.height as int, x as int, y as int);
            let len = self.pixels.len();
            assert(len == self.width * self.height);
            assert(y * self.width <= y * self.width + x);
        }
        let i = y as usize * self.width as usize + x as usize;
        Some(self.pixels[i])
    }

    /// Sets the color of the pixel at `(x, y)`.
    pub fn put_pixel(&mut self, x: u32, y: u32, color: RGBA)
        requires
            old(self).wf(),
            x < old(self).view().0,
            y < old(self).view().1,
        ensures
            final(self).wf(),
            final(self).view() == (
                old(self).view().0,
                old(self).view().1,
                old(self).view().2.update(pixel_index(old(self).view().0 as int, x as int, y as int), color),
            ),
    {
        proof {
            lemma_pixel_index(self.width as int, self.height as int, x as int, y as int);
            let len = self.pixels.len();
            assert(len == self.width * self.height);
            assert(y * self.width <= y * self.width + x);
        }
        let i = y as usize * self.width as usize + x as usize;
        self.pixels.set(i, color);
    }
}

/// Images kept by name; a name is held once.
pub struct Images {
    names: Vec<Vec<char>>,
    images: Vec<Image>,
}

impl Images {
    /// Names and images line up, and no name occurs twice.
    pub closed spec fn wf(&self) -> bool {
        &&& self.names@.len() == self.images@.len()
        &&& forall|i: int, j: int|
            0 <= i < j < self.names@.len() ==> #[trigger] self.names@[i]@ != #[trigger] self.names@[j]@
    }

    /// The images by name, each as width, height and pixels.
    pub closed spec fn view(&self) -> Map<Seq<char>, (u32, u32, Seq<RGBA>)> {
        Map::new(
            |k: Seq<char>| exists|i: int| 0 <= i < self.names@.len() && #[trigger] self.names@[i]@ == k,
            |k: Seq<char>|
                self.images@[choose|i: int| 0 <= i < self.names@.len() && #[trigger] self.names@[i]@
                    == k].view(),
        )
    }

    /// No images.
    pub fn new() -> (s: Images)
        ensures
            s.wf(),
            s.view() == Map::<Seq<char>, (u32, u32, Seq<RGBA>)>::empty(),
    {
        let s = Images { names: Vec::new(), images: Vec::new() };
        assert(s.view() =~= Map::<Seq<char>, (u32, u32, Seq<RGBA>)>::empty());
        s
    }

    fn position(&self, name: &[char]) -> (r: Option<usize>)
        requires
            self.wf(),
        ensures
            match r {
                Some(i) => i < self.names@.len() && self.names@[i as int]@ == name@,
                None => forall|i: int| 0 <= i < self.names@.len() ==> self.names@[i]@ != name@,
            },
    {
        let mut i: usize = 0;
        while i < self.names.len()
            invariant
                self.wf(),
                i <= self.names@.len(),
                forall|j: int| 0 <= j < i ==> self.names@[j]@ != name@,
            decreases self.names@.len() - i,
        {
            if chars_eq(self.names[i].as_slice(), name) {
                return Some(i);
            }
            i = i + 1;
        }
        None
    }

    /// Keeps `image` under `id`, replacing any image of that name.
    pub fn insert(&mut self, id: &str, image: Image)
        requires
            old(self).wf(),
        ensures
            final(self).wf(),
            final(self).view() == old(self).view().insert(id@, image.view()),
    {
        let name = chars_of(id);
        let ghost iv = image.view();
        match self.position(name.as_slice()) {
            Some(i) => {
                self.images.set(i, image);
                proof {
                    assert forall|k: Seq<char>| #[trigger] self.view().contains_key(k) == old(self).view().insert(
                        id@,
                        iv,
                    ).contains_key(k) by {
                        if k == id@ {
                            assert(self.names@[i as int]@ == k);
                        }
                    }
                    assert forall|k: Seq<char>| #[trigger] self.view().contains_key(k) implies self.view()[k]
                        == old(self).view().insert(id@, iv)[k] by {
                        let j = choose|j: int| 0 <= j < self.names@.len() && #[trigger] self.names@[j]@ == k;
                        if k == id@ {
                            assert(j == i as int);
                        } else {
                            let j0 = choose|j: int|
                                0 <= j < old(self).names@.len() && #[trigger] old(self).names@[j]@ == k;
                            assert(j0 == j);
                        }
                    }
                    assert(self.view() =~= old(self).view().insert(id@, iv));
                }
            },
            None => {
                self.names.push(name);
                self.images.push(image);
                proof {
                    let n = self.names@.len() - 1;
                    assert(self.names@[n]@ == id@);
                    assert forall|k: Seq<char>| #[trigger] self.view().contains_key(k) == old(self).view().insert(
                        id@,
                        iv,
                    ).contains_key(k) by {
                        if old(self).view().contains_key(k) {
                            let j = choose|j: int|
                                0 <= j < old(self).names@.len() && #[trigger] old(self).names@[j]@ == k;
                            assert(self.names@[j]@ == k);
                        }
                        if self.view().contains_key(k) && k != id@ {
                            let j = choose|j: int| 0 <= j < self.names@.len() && #[trigger] self.names@[j]@ == k;
                            assert(j < n);
                            assert(old(self).names@[j]@ == k);
                        }
                    }
                    assert forall|k: Seq<char>| #[trigger] self.view().contains_key(k) implies self.view()[k]
                        == old(self).view().insert(id@, iv)[k] by {
                        let j = choose|j: int| 0 <= j < self.names@.len() && #[trigger] self.names@[j]@ == k;
                        if k == id@ {
                            assert(j == n);
                        } else {
                            assert(j < n);
                            assert(old(self).names@[j]@ == k);
                            let j0 = choose|j: int|
                                0 <= j < old(self).names@.len() && #[trigger] old(self).names@[j]@ == k;
                            assert(j0 == j);
                        }
                    }
                    assert(self.view() =~= old(self).view().insert(id@, iv));
                }
            },
        }
    }

    /// The image kept under `id`, if any.
    pub fn get(&self, id: &str) -> (r: Option<&Image>)
        requires
            self.wf(),
        ensures
            match r {
                Some(img) => self.view().contains_key(id@) && img.view() == self.view()[id@],
                None => !self.view().contains_key(id@),
            },
    {
        let name = chars_of(id);
        match self.position(name.as_slice()) {
            Some(i) => {
                proof {
                    let j = choose|j: int| 0 <= j < self.names@.len() && #[trigger] self.names@[j]@ == id@;
                    assert(self.names@[i as int]@ == id@);
                    assert(j == i as int);
                }
                Some(&self.images[i])
            },
            None => None,
        }
    }
}

/// Loads image files into the image store.
pub struct ImageFileLoader;

impl ImageFileLoader {
    /// A new loader.
    pub fn new() -> (l: ImageFileLoader) {
        ImageFileLoader
    }
}

/// After `put_pixel(x, y, c)`, `pixel(x, y)` reads `c` and every other pixel
/// reads what it did before.
pub proof fn lemma_put_then_read(px: Seq<RGBA>, w: int, h: int, x: int, y: int, c: RGBA, x2: int, y2: int)
    requires
        px.len() == w * h,
        0 <= x < w,
        0 <= y < h,
        0 <= x2 < w,
        0 <= y2 < h,
    ensures
        px.update(pixel_index(w, x, y), c)[pixel_index(w, x, y)] == c,
        (x2 != x || y2 != y) ==> px.update(pixel_index(w, x, y), c)[pixel_index(w, x2, y2)]
            == px[pixel_index(w, x2, y2)],
{
    lemma_pixel_index(w, h, x, y);
    lemma_pixel_index(w, h, x2, y2);
    if x2 != x || y2 != y {
        assert(pixel_index(w, x, y) != pixel_index(w, x2, y2)) by (nonlinear_arith)
            requires
                0 <= x < w,
                0 <= x2 < w,
                x2 != x || y2 != y,
        {
            if y == y2 {
            } else if y < y2 {
                assert(y * w + w <= y2 * w) by (nonlinear_arith)
                    requires
                        y < y2,
                        0 <= w,
                ;
            } else {
                assert(y2 * w + w <= y * w) by (nonlinear_arith)
                    requires
                        y2 < y,
                        0 <= w,
                ;
            }
        }
    }
}

/// The image store gives back what was last kept under a name, and keeping
/// an image under one name leaves every other name as it was.
pub proof fn lemma_images_read_after_write(
    m: Map<Seq<char>, (u32, u32, Seq<RGBA>)>,
    id: Seq<char>,
    img: (u32, u32, Seq<RGBA>),
    other: Seq<char>,
)
    requires
        other != id,
    ensures
        m.insert(id, img)[id] == img,
        m.insert(id, img).contains_key(other) == m.contains_key(other),
        m.contains_key(other) ==> m.insert(id, img)[other] == m[other],
{
}

} // verus!
