use vstd::prelude::*;

use vstd::arithmetic::div_mod::{lemma_fundamental_div_mod, lemma_fundamental_div_mod_converse};

use crate::text::{decimal, decimal_string};

verus! {

/// Icons are square, this many pixels a side.
pub const ICON_SIDE: usize = 48;

/// Bytes of one 48×48 image at four bytes a pixel.
pub const ICON_BYTES: usize = 9216;

/// The RGBA channel `k` of the default icon at column `x`, row `y`: a
/// cornflower-blue disc of radius 20 around (24, 24), transparent outside.
pub open spec fn default_icon_channel(x: int, y: int, k: int) -> u8 {
    if (x - 24) * (x - 24) + (y - 24) * (y - 24) < 400 {
        if k == 0 {
            100
        } else if k == 1 {
            149
        } else if k == 2 {
            237
        } else {
            255
        }
    } else {
        0
    }
}

/// Byte `i` of the default icon, pixels row by row.
pub open spec fn default_icon_byte(i: int) -> u8 {
    default_icon_channel((i / 4) % 48, (i / 4) / 48, i % 4)
}

/// The position in a BGRA buffer that byte `i` of its RGBA form comes from.
pub open spec fn rgba_source(i: int) -> int {
    let k = i % 4;
    if k == 0 {
        i + 2
    } else if k == 2 {
        i - 2
    } else {
        i
    }
}

/// The RGBA form of a BGRA buffer: blue and red swapped in every pixel.
pub open spec fn rgba_of(bgra: Seq<u8>) -> Seq<u8> {
    Seq::new(bgra.len(), |i: int| bgra[rgba_source(i)])
}

/// The PNG file of a 48×48 RGBA image, as the `image` crate writes it.
pub uninterp spec fn png_of_icon(rgba: Seq<u8>) -> Seq<u8>;

/// Relies on `image::ImageBuffer::from_raw`, which accepts a 48×48 RGBA
/// buffer of exactly that many bytes, and `ImageBuffer::write_to` with the
/// PNG format, which has no failing path for 8-bit RGBA written into memory
/// and whose output depends on the pixels alone.
#[verifier::external_body]
fn encode_png(rgba: &Vec<u8>) -> (r: Option<Vec<u8>>)
    requires
        rgba.len() == ICON_BYTES,
    ensures
        r is Some,
        r->Some_0@ == png_of_icon(rgba@),
{
    let img = image::ImageBuffer::<image::Rgba<u8>, Vec<u8>>::from_raw(48, 48, rgba.clone())?;
    let mut out = std::io::Cursor::new(Vec::new());
    img.write_to(&mut out, image::ImageOutputFormat::Png).ok()?;
    Some(out.into_inner())
}

proof fn lemma_byte_parts(p: int, k: int)
    requires
        0 <= p,
        0 <= k < 4,
    ensures
        (4 * p + k) / 4 == p,
        (4 * p + k) % 4 == k,
{
    lemma_fundamental_div_mod_converse(4 * p + k, 4, p, k);
}

proof fn lemma_pixel_parts(x: int, y: int)
    requires
        0 <= x < 48,
        0 <= y,
    ensures
        (48 * y + x) % 48 == x,
        (48 * y + x) / 48 == y,
{
    lemma_fundamental_div_mod_converse(48 * y + x, 48, y, x);
}

fn default_channel(x: usize, y: usize, k: usize) -> (r: u8)
    requires
        x < 48,
        y < 48,
    ensures
        r == default_icon_channel(x as int, y as int, k as int),
{
    let dx: i64 = x as i64 - 24;
    let dy: i64 = y as i64 - 24;
    assert(0 <= dx * dx <= 576 && 0 <= dy * dy <= 576) by (nonlinear_arith)
        requires
            -24 <= dx <= 24,
            -24 <= dy <= 24,
    ;
    if dx * dx + dy * dy < 400 {
        if k == 0 {
            100
        } else if k == 1 {
            149
        } else if k == 2 {
            237
        } else {
            255
        }
    } else {
        0
    }
}

/// The pixels of the default icon, RGBA, row by row.
pub fn default_icon_pixels() -> (r: Vec<u8>)
    ensures
        r@.len() == ICON_BYTES,
        forall|i: int| 0 <= i < ICON_BYTES ==> #[trigger] r@[i] == default_icon_byte(i),
{
    let mut r: Vec<u8> = Vec::new();
    let mut y: usize = 0;
    let mut x: usize = 0;
    let mut p: usize = 0;
    while p < 2304
        invariant
            p <= 2304,
            x < 48,
            p == 48 * y + x,
            r@.len() == 4 * p,
            forall|i: int| 0 <= i < r@.len() ==> #[trigger] r@[i] == default_icon_byte(i),
        decreases 2304 - p,
    {
        proof {
            lemma_pixel_parts(x as int, y as int);
        }
        let mut k: usize = 0;
        while k < 4
            invariant
                p < 2304,
                x < 48,
                y < 48,
                p == 48 * y + x,
                k <= 4,
                r@.len() == 4 * p + k,
                p as int % 48 == x,
                p as int / 48 == y,
                forall|i: int| 0 <= i < r@.len() ==> #[trigger] r@[i] == default_icon_byte(i),
            decreases 4 - k,
        {
            proof {
                lemma_byte_parts(p as int, k as int);
            }
            r.push(default_channel(x, y, k));
            k = k + 1;
        }
        x = x + 1;
        if x == 48 {
            x = 0;
            y = y + 1;
        }
        p = p + 1;
    }
    r
}

/// Turns a BGRA pixel buffer into RGBA by swapping blue and red in each pixel.
pub fn bgra_to_rgba(bgra: &Vec<u8>) -> (r: Vec<u8>)
    requires
        bgra.len() % 4 == 0,
    ensures
        r@ == rgba_of(bgra@),
{
    let mut r: Vec<u8> = Vec::new();
    let mut i: usize = 0;
    while i < bgra.len()
        invariant
            bgra.len() % 4 == 0,
            i <= bgra.len(),
            i % 4 == 0,
            r@.len() == i,
            forall|j: int| 0 <= j < i ==> #[trigger] r@[j] == bgra@[rgba_source(j)],
        decreases bgra.len() - i,
    {
        proof {
            lemma_byte_parts(i as int / 4, 0);
            lemma_byte_parts(i as int / 4, 1);
            lemma_byte_parts(i as int / 4, 2);
            lemma_byte_parts(i as int / 4, 3);
            lemma_fundamental_div_mod(i as int, 4);
        }
        r.push(bgra[i + 2]);
        r.push(bgra[i + 1]);
        r.push(bgra[i]);
        r.push(bgra[i + 3]);
        i = i + 4;
    }
    assert(r@ =~= rgba_of(bgra@));
    r
}

fn png_bytes(rgba: &Vec<u8>) -> (r: Vec<u8>)
    requires
        rgba.len() == ICON_BYTES,
    ensures
        r@ == png_of_icon(rgba@),
{
    match encode_png(rgba) {
        Some(png) => png,
        None => Vec::new(),
    }
}

/// The default icon as a PNG file.
pub fn default_icon_png() -> (r: Vec<u8>)
    ensures
        r@ == png_of_icon(Seq::new(ICON_BYTES as nat, |i: int| default_icon_byte(i))),
{
    let pixels = default_icon_pixels();
    assert(pixels@ =~= Seq::new(ICON_BYTES as nat, |i: int| default_icon_byte(i)));
    png_bytes(&pixels)
}

/// A captured 48×48 BGRA bitmap as a PNG file.
pub fn bitmap_png(bgra: &Vec<u8>) -> (r: Vec<u8>)
    requires
        bgra.len() == ICON_BYTES,
    ensures
        r@ == png_of_icon(rgba_of(bgra@)),
{
    let rgba = bgra_to_rgba(bgra);
    png_bytes(&rgba)
}

/// Hands out the sequential ids that name cached icon files.
pub struct IconIds {
    next: u64,
}

impl IconIds {
    /// The id that `issue` returns next.
    pub closed spec fn upcoming(&self) -> u64 {
        self.next
    }

    /// Ids start at 1.
    pub fn new() -> (r: IconIds)
        ensures
            r.upcoming() == 1,
    {
        IconIds { next: 1 }
    }

    /// A fresh id, larger than every id issued before; `None` once the ids
    /// are exhausted.
    pub fn issue(&mut self) -> (r: Option<u64>)
        ensures
            old(self).upcoming() < u64::MAX ==> r == Some(old(self).upcoming()) && final(self).upcoming()
                == old(self).upcoming() + 1,
            old(self).upcoming() == u64::MAX ==> r is None && final(self).upcoming() == old(self).upcoming(),
    {
        if self.next < u64::MAX {
            let id = self.next;
            self.next = self.next + 1;
            Some(id)
        } else {
            None
        }
    }
}

/// The file name of the cached icon with id `id`.
pub fn icon_file_name(id: u64) -> (r: String)
    ensures
        r@ == "icon_"@ + decimal(id as nat) + ".png"@,
{
    let digits = decimal_string(id);
    let r = String::from_str("icon_").concat(digits.as_str()).concat(".png");
    r
}

/// The file name of the default icon; the same on every call.
pub fn default_icon_file_name() -> (r: String)
    ensures
        r@ == "default_icon.png"@,
{
    String::from_str("default_icon.png")
}

/// The icon a record gets: the extracted icon where extraction produced
/// one, else the default icon. Resolution always yields a path.
pub fn choose_icon_path(extracted: Option<String>, default_icon: String) -> (r: String)
    ensures
        extracted is Some ==> r == extracted->Some_0,
        extracted is None ==> r == default_icon,
{
    match extracted {
        Some(p) => p,
        None => default_icon,
    }
}

} // verus!
