use vstd::prelude::*;

verus! {

/// An 8-bit color: red, green, blue.
pub type Rgb = (u8, u8, u8);

/// ASCII decimal digits of `n`, most significant first, without leading zeros.
pub open spec fn decimal(n: nat) -> Seq<u8>
    decreases n,
{
    if n < 10 {
        seq![(n + 48) as u8]
    } else {
        decimal(n / 10) + seq![((n % 10) + 48) as u8]
    }
}

/// `"P3\n<width> <height>\n255\n"`.
pub open spec fn header_text(width: nat, height: nat) -> Seq<u8> {
    seq![80u8, 51u8, 10u8] + decimal(width) + seq![32u8] + decimal(height) + seq![
        10u8,
        50u8,
        53u8,
        53u8,
        10u8,
    ]
}

/// `"<r> <g> <b>"`.
pub open spec fn rgb_text(p: Rgb) -> Seq<u8> {
    decimal(p.0 as nat) + seq![32u8] + decimal(p.1 as nat) + seq![32u8] + decimal(p.2 as nat)
}

/// What follows the pixel at position `k`: a newline after every seventh pixel,
/// a space otherwise.
pub open spec fn separator(k: nat) -> u8 {
    if k % 7 == 6 {
        10u8
    } else {
        32u8
    }
}

/// The pixel triples in order, each followed by its separator.
pub open spec fn pixels_text(pixels: Seq<Rgb>) -> Seq<u8>
    decreases pixels.len(),
{
    if pixels.len() == 0 {
        Seq::empty()
    } else {
        let k = (pixels.len() - 1) as nat;
        pixels_text(pixels.drop_last()) + rgb_text(pixels.last()) + seq![separator(k)]
    }
}

/// The whole plain-text PPM file: header, pixels, closing newline.
pub open spec fn ppm_text(width: nat, height: nat, pixels: Seq<Rgb>) -> Seq<u8> {
    header_text(width, height) + pixels_text(pixels) + seq![10u8]
}

/// Appends the decimal digits of `n` to `out`.
fn push_decimal(out: &mut Vec<u8>, n: usize)
    ensures
        final(out)@ == old(out)@ + decimal(n as nat),
    decreases n,
{
    if n >= 10 {
        push_decimal(out, n / 10);
    }
    let digit: u8 = (n % 10) as u8;
    out.push(digit + 48);
    proof {
        if n < 10 {
            assert(n % 10 == n);
        }
    }
    assert(final(out)@ =~= old(out)@ + decimal(n as nat));
}

/// A picture ready to be written out: `width * height` colors, row by row
/// from the top row down.
pub struct PpmImage {
    pub width: usize,
    pub height: usize,
    pub pixels: Vec<Rgb>,
}

impl PpmImage {
    /// Holds exactly one color per pixel.
    pub open spec fn wf(&self) -> bool {
        self.pixels@.len() == self.width * self.height
    }

    pub fn new(width: usize, height: usize, pixels: Vec<Rgb>) -> (r: PpmImage)
        requires
            pixels@.len() == width * height,
        ensures
            r.wf(),
            r.width == width,
            r.height == height,
            r.pixels@ == pixels@,
    {
        PpmImage { width, height, pixels }
    }

    /// The image as a plain-text PPM (`P3`) file.
    pub fn to_bytes(&self) -> (r: Vec<u8>)
        ensures
            r@ == ppm_text(self.width as nat, self.height as nat, self.pixels@),
    {
        let mut out: Vec<u8> = Vec::new();
        out.push(80);
        out.push(51);
        out.push(10);
        push_decimal(&mut out, self.width);
        out.push(32);
        push_decimal(&mut out, self.height);
        out.push(10);
        out.push(50);
        out.push(53);
        out.push(53);
        out.push(10);
        let ghost head = out@;
        assert(head =~= header_text(self.width as nat, self.height as nat));
        let n = self.pixels.len();
        let mut k: usize = 0;
        while k < n
            invariant
                n == self.pixels@.len(),
                k <= n,
                out@ == head + pixels_text(self.pixels@.take(k as int)),
            decreases n - k,
        {
            let p = self.pixels[k];
            let ghost before = out@;
            push_decimal(&mut out, p.0 as usize);
            out.push(32);
            push_decimal(&mut out, p.1 as usize);
            out.push(32);
            push_decimal(&mut out, p.2 as usize);
            if k % 7 == 6 {
                out.push(10);
            } else {
                out.push(32);
            }
            proof {
                let s = self.pixels@.take(k + 1);
                assert(s.drop_last() =~= self.pixels@.take(k as int));
                assert(s.last() == p);
                assert(out@ =~= before + rgb_text(p) + seq![separator(k as nat)]);
            }
            k = k + 1;
        }
        assert(self.pixels@.take(n as int) =~= self.pixels@);
        out.push(10);
        out
    }
}

} // verus!
