use vstd::prelude::*;
use vstd::slice::slice_subrange;
use vstd::string::StringExecFns;
use crate::text::views;

verus! {

/// The directory that images are looked up in when none is named.
pub open spec fn default_dir() -> Seq<char> {
    "images"@
}

/// A path made of a prefix and a file name.
pub open spec fn joined(prefix: Seq<char>, filename: Seq<char>) -> Seq<char> {
    prefix + filename
}

/// The places where an image file is looked for, in the order in which
/// they are tried: below the named directory (or `images` when none is
/// named) unless its name is empty, then the name as it is, then below
/// `images` in the working directory and in each of its six nearest
/// ancestors.
pub open spec fn search_paths_spec(image_dir: Option<Seq<char>>, filename: Seq<char>) -> Seq<
    Seq<char>,
> {
    let dir = match image_dir {
        Some(dir) => dir,
        None => default_dir(),
    };
    let fixed = seq![
        filename,
        joined("images/"@, filename),
        joined("../images/"@, filename),
        joined("../../images/"@, filename),
        joined("../../../images/"@, filename),
        joined("../../../../images/"@, filename),
        joined("../../../../../images/"@, filename),
        joined("../../../../../../images/"@, filename),
    ];
    if dir.len() > 0 {
        seq![joined(dir + "/"@, filename)] + fixed
    } else {
        fixed
    }
}

fn join(prefix: &str, filename: &str) -> (r: String)
    ensures
        r@ == joined(prefix@, filename@),
{
    let mut path = String::from_str(prefix);
    path.append(filename);
    path
}

/// Bytes of one pixel: red, green, blue.
pub const BYTES_PER_PIXEL: usize = 3;

/// What an image without data shows in place of a pixel.
pub const MAGENTA: [u8; 3] = [255, 0, 255];

/// A decoded image: rows of pixels from the top, three bytes to a pixel.
pub struct RtwImage {
    data: Vec<u8>,
    image_width: usize,
    image_height: usize,
    bytes_per_scanline: usize,
}

impl RtwImage {
    /// The bytes of the image.
    pub closed spec fn bytes(self) -> Seq<u8> {
        self.data@
    }

    /// The width that was stored with the data.
    pub closed spec fn stored_width(self) -> nat {
        self.image_width as nat
    }

    /// The height that was stored with the data.
    pub closed spec fn stored_height(self) -> nat {
        self.image_height as nat
    }

    /// An image holds no data at all, or three bytes for each pixel of
    /// each row.
    #[verifier::type_invariant]
    pub closed spec fn well_formed(self) -> bool {
        self.data@.len() > 0 ==> {
            &&& self.image_width >= 1
            &&& self.image_height >= 1
            &&& self.bytes_per_scanline == BYTES_PER_PIXEL * self.image_width
            &&& self.data@.len() == self.bytes_per_scanline * self.image_height
        }
    }

    /// The width in pixels, 0 for an image without data.
    pub open spec fn width_spec(self) -> nat {
        if self.bytes().len() == 0 {
            0
        } else {
            self.stored_width()
        }
    }

    /// The height in pixels, 0 for an image without data.
    pub open spec fn height_spec(self) -> nat {
        if self.bytes().len() == 0 {
            0
        } else {
            self.stored_height()
        }
    }

    /// `x` held to `low ..= high - 1`.
    pub open spec fn clamp_spec(x: int, low: int, high: int) -> int {
        if x < low {
            low
        } else if x < high {
            x
        } else {
            high - 1
        }
    }

    /// Where the pixel at column `x` of row `y` starts among the bytes,
    /// each coordinate held to the image.
    pub open spec fn offset_spec(self, x: int, y: int) -> int {
        Self::clamp_spec(y, 0, self.stored_height() as int) * (BYTES_PER_PIXEL
            * self.stored_width()) + Self::clamp_spec(x, 0, self.stored_width() as int)
            * BYTES_PER_PIXEL
    }

    /// The three bytes of the pixel at column `x` of row `y`, or magenta
    /// for an image without data.
    pub open spec fn pixel_spec(self, x: int, y: int) -> Seq<u8> {
        if self.bytes().len() == 0 {
            MAGENTA@
        } else {
            self.bytes().subrange(self.offset_spec(x, y), self.offset_spec(x, y) + BYTES_PER_PIXEL)
        }
    }

    /// Lists the places where an image file is looked for.
    pub fn search_paths(image_dir: Option<&str>, filename: &str) -> (paths: Vec<String>)
        ensures
            views(paths@) == search_paths_spec(
                match image_dir {
                    Some(dir) => Some(dir@),
                    None => None,
                },
                filename@,
            ),
    {
        let dir = match image_dir {
            Some(dir) => dir,
            None => "images",
        };
        let mut paths: Vec<String> = Vec::new();
        if !dir.is_empty() {
            let mut below = String::from_str(dir);
            below.append("/");
            below.append(filename);
            paths.push(below);
        }
        paths.push(String::from_str(filename));
        paths.push(join("images/", filename));
        paths.push(join("../images/", filename));
        paths.push(join("../../images/", filename));
        paths.push(join("../../../images/", filename));
        paths.push(join("../../../../images/", filename));
        paths.push(join("../../../../../images/", filename));
        paths.push(join("../../../../../../images/", filename));
        proof {
            let want = search_paths_spec(
                match image_dir {
                    Some(dir) => Some(dir@),
                    None => None,
                },
                filename@,
            );
            assert(views(paths@) =~= want);
        }
        paths
    }

    /// The image without data.
    pub fn empty() -> (r: RtwImage)
        ensures
            r.bytes().len() == 0,
            r.width_spec() == 0,
            r.height_spec() == 0,
    {
        RtwImage { data: Vec::new(), image_width: 0, image_height: 0, bytes_per_scanline: 0 }
    }

    /// Takes over a decoded image of `width` by `height` pixels with `depth`
    /// bytes to the pixel. The image is accepted, and `true` returned, when
    /// the depth is three and `data` holds exactly the bytes of that many
    /// pixels. Otherwise the image stays as it was.
    pub fn load(&mut self, data: Vec<u8>, width: usize, height: usize, depth: usize) -> (ok: bool)
        ensures
            ok <==> depth == BYTES_PER_PIXEL && data@.len() == depth * width * height,
            ok ==> final(self).bytes() == data@,
            ok ==> final(self).stored_width() == width,
            ok ==> final(self).stored_height() == height,
            !ok ==> *final(self) == *old(self),
    {
        let given = data.len();
        if depth != BYTES_PER_PIXEL {
            return false;
        }
        if width == 0 || height == 0 {
            assert(depth * width * height == 0) by (nonlinear_arith)
                requires
                    width == 0 || height == 0,
            ;
            if given != 0 {
                return false;
            }
            *self = RtwImage {
                data,
                image_width: width,
                image_height: height,
                bytes_per_scanline: 0,
            };
            return true;
        }
        proof {
            lemma_product_bounds(BYTES_PER_PIXEL as int, width as int, height as int);
            assert(depth * width == 3 * width) by (nonlinear_arith)
                requires
                    depth == 3,
            ;
        }
        let row = match BYTES_PER_PIXEL.checked_mul(width) {
            Some(row) => row,
            None => {
                return false;
            },
        };
        let total = match row.checked_mul(height) {
            Some(total) => total,
            None => {
                return false;
            },
        };
        if given != total {
            return false;
        }
        *self = RtwImage {
            data,
            image_width: width,
            image_height: height,
            bytes_per_scanline: row,
        };
        true
    }

    pub fn width(&self) -> (w: usize)
        ensures
            w == self.width_spec(),
    {
        if self.data.is_empty() {
            0
        } else {
            self.image_width
        }
    }

    pub fn height(&self) -> (h: usize)
        ensures
            h == self.height_spec(),
    {
        if self.data.is_empty() {
            0
        } else {
            self.image_height
        }
    }

    /// The three bytes of the pixel at `x`, `y`. Coordinates beyond the
    /// image are held to its last column and row. An image without data
    /// gives magenta.
    pub fn pixel_data(&self, x: usize, y: usize) -> (rgb: &[u8])
        ensures
            rgb@ == self.pixel_spec(x as int, y as int),
            rgb@.len() == BYTES_PER_PIXEL,
    {
        proof {
            use_type_invariant(self);
        }
        if self.data.is_empty() {
            MAGENTA.as_slice()
        } else {
            let x = Self::clamp(x, 0, self.image_width);
            let y = Self::clamp(y, 0, self.image_height);
            proof {
                lemma_pixel_in_bounds(
                    x as int,
                    y as int,
                    self.image_width as int,
                    self.image_height as int,
                    self.bytes_per_scanline as int,
                );
            }
            let len = self.data.len();
            assert(y * self.bytes_per_scanline + x * BYTES_PER_PIXEL + BYTES_PER_PIXEL <= len);
            let start = y * self.bytes_per_scanline + x * BYTES_PER_PIXEL;
            slice_subrange(self.data.as_slice(), start, start + BYTES_PER_PIXEL)
        }
    }

    /// Holds `x` to `low ..= high - 1`.
    pub fn clamp(x: usize, low: usize, high: usize) -> (r: usize)
        requires
            high >= 1,
        ensures
            r == Self::clamp_spec(x as int, low as int, high as int),
    {
        if x < low {
            return low;
        }
        if x < high {
            return x;
        }
        high - 1
    }
}

/// A product of three factors is no less than the product of the first
/// two, when the third is not zero.
proof fn lemma_product_bounds(a: int, b: int, c: int)
    requires
        a >= 0,
        b >= 0,
        c >= 1,
    ensures
        a * b <= a * b * c,
{
    assert(a * b <= a * b * c) by (nonlinear_arith)
        requires
            a >= 0,
            b >= 0,
            c >= 1,
    ;
}

/// The three bytes of a pixel inside the image lie inside the data.
proof fn lemma_pixel_in_bounds(x: int, y: int, width: int, height: int, row: int)
    requires
        0 <= x < width,
        0 <= y < height,
        row == 3 * width,
    ensures
        0 <= y * row <= row * height,
        0 <= x * 3,
        y * row + x * 3 + 3 <= row * height,
{
    assert(0 <= y * row <= row * height && y * row + x * 3 + 3 <= row * height) by (nonlinear_arith)
        requires
            0 <= x < width,
            0 <= y < height,
            row == 3 * width,
    ;
}

} // verus!
