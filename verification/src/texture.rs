//! Texture inspection for the asset browser and inspector: average colour and
//! colour display of raw RGBA pixel data.

use vstd::prelude::*;
use crate::text::{hex_byte, push_hex_byte};

verus! {

/// Texture metadata gathered for the asset browser and inspector.
#[derive(Debug, Clone)]
pub struct TextureInfo {
    /// Width in pixels.
    pub width: u32,
    /// Height in pixels.
    pub height: u32,
    /// Pixel format.
    pub format: String,
    /// Average color (sRGB).
    pub average_color: [u8; 4],
    /// File size in bytes (if known).
    pub file_size: Option<u64>,
}

/// Sum of channel `c` over the first `n` four-byte pixels of `data`.
pub open spec fn channel_sum(data: Seq<u8>, c: int, n: nat) -> nat
    decreases n,
{
    if n == 0 {
        0
    } else {
        channel_sum(data, c, (n - 1) as nat) + data[4 * (n - 1) + c] as nat
    }
}

/// `average_color`'s result: opaque black when the image is empty or the data is shorter
/// than `width * height` pixels; otherwise, per channel, the mean (rounded down) over the
/// image's `width * height` pixels, taken from the start of the data.
pub open spec fn average_of(data: Seq<u8>, width: u32, height: u32) -> Seq<u8> {
    let pixels = width as nat * height as nat;
    if pixels == 0 || data.len() < pixels * 4 {
        seq![0u8, 0u8, 0u8, 255u8]
    } else {
        seq![
            (channel_sum(data, 0, pixels) / pixels) as u8,
            (channel_sum(data, 1, pixels) / pixels) as u8,
            (channel_sum(data, 2, pixels) / pixels) as u8,
            (channel_sum(data, 3, pixels) / pixels) as u8,
        ]
    }
}

proof fn lemma_channel_sum_bound(data: Seq<u8>, c: int, n: nat)
    requires
        0 <= c < 4,
        4 * n <= data.len(),
    ensures
        channel_sum(data, c, n) <= 255 * n,
    decreases n,
{
    if n > 0 {
        lemma_channel_sum_bound(data, c, (n - 1) as nat);
    }
}

/// Compute the average color of an RGBA pixel buffer.
pub fn average_color(data: &[u8], width: u32, height: u32) -> (r: [u8; 4])
    requires
        width as nat * height as nat * 4 <= usize::MAX,
        data@.len() < 0x400_0000_0000_0000,
    ensures
        r@ == average_of(data@, width, height),
{
    let pixel_count: u64 = (width as u64) * (height as u64);
    if pixel_count == 0 || data.len() < (pixel_count as usize) * 4 {
        return [0, 0, 0, 255];
    }
    let n = pixel_count as usize;
    let (mut r, mut g, mut b, mut a) = (0u64, 0u64, 0u64, 0u64);
    let mut i: usize = 0;
    while i < n
        invariant
            n as nat == width as nat * height as nat,
            4 * n <= data@.len(),
            data@.len() == data.len(),
            data@.len() < 0x400_0000_0000_0000,
            i <= n,
            r as nat == channel_sum(data@, 0, i as nat),
            g as nat == channel_sum(data@, 1, i as nat),
            b as nat == channel_sum(data@, 2, i as nat),
            a as nat == channel_sum(data@, 3, i as nat),
        decreases n - i,
    {
        proof {
            lemma_channel_sum_bound(data@, 0, i as nat);
            lemma_channel_sum_bound(data@, 1, i as nat);
            lemma_channel_sum_bound(data@, 2, i as nat);
            lemma_channel_sum_bound(data@, 3, i as nat);
        }
        assert(r <= 255 * i && g <= 255 * i && b <= 255 * i && a <= 255 * i);
        assert(i < 0x100_0000_0000_0000);
        assert(4 * i + 3 < data@.len());
        assert(data@.len() == data.len());
        r = r + data[4 * i] as u64;
        g = g + data[4 * i + 1] as u64;
        b = b + data[4 * i + 2] as u64;
        a = a + data[4 * i + 3] as u64;
        i = i + 1;
    }
    proof {
        lemma_channel_sum_bound(data@, 0, n as nat);
        lemma_channel_sum_bound(data@, 1, n as nat);
        lemma_channel_sum_bound(data@, 2, n as nat);
        lemma_channel_sum_bound(data@, 3, n as nat);
        lemma_mean_fits(r as nat, n as nat);
        lemma_mean_fits(g as nat, n as nat);
        lemma_mean_fits(b as nat, n as nat);
        lemma_mean_fits(a as nat, n as nat);
    }
    let out = [
        (r / pixel_count) as u8,
        (g / pixel_count) as u8,
        (b / pixel_count) as u8,
        (a / pixel_count) as u8,
    ];
    proof {
        assert(pixel_count as nat == width as nat * height as nat);
        assert(out@ =~= average_of(data@, width, height));
    }
    out
}

/// A sum of `n` bytes divided by `n` is a byte.
proof fn lemma_mean_fits(sum: nat, n: nat)
    requires
        n > 0,
        sum <= 255 * n,
    ensures
        sum / n <= 255,
{
    assert(sum / n <= 255) by (nonlinear_arith)
        requires
            n > 0,
            sum <= 255 * n,
    ;
}

/// Build a `TextureInfo` from raw RGBA pixel data.
pub fn inspect_texture(data: &[u8], width: u32, height: u32) -> (info: TextureInfo)
    requires
        width as nat * height as nat * 4 <= usize::MAX,
        data@.len() < 0x400_0000_0000_0000,
    ensures
        info.width == width,
        info.height == height,
        info.format@ == "RGBA8"@,
        info.average_color@ == average_of(data@, width, height),
        info.file_size.is_none(),
{
    TextureInfo {
        width,
        height,
        format: String::from_str("RGBA8"),
        average_color: average_color(data, width, height),
        file_size: None,
    }
}

/// `#RRGGBBAA` with upper-case hex digits.
pub open spec fn hex_color(c: Seq<u8>) -> Seq<char> {
    seq!['#'] + hex_byte(c[0]) + hex_byte(c[1]) + hex_byte(c[2]) + hex_byte(c[3])
}

/// Convert an sRGB color to a display string.
pub fn color_to_hex(color: [u8; 4]) -> (s: String)
    ensures
        s@ == hex_color(color@),
{
    let mut out = String::from_str("#");
    proof {
        reveal_strlit("#");
    }
    push_hex_byte(&mut out, color[0]);
    push_hex_byte(&mut out, color[1]);
    push_hex_byte(&mut out, color[2]);
    push_hex_byte(&mut out, color[3]);
    out
}

proof fn lemma_channel_sum_uniform(data: Seq<u8>, c: int, v: u8, n: nat)
    requires
        0 <= c < 4,
        4 * n <= data.len(),
        forall|k: int| 0 <= k < n ==> #[trigger] data[4 * k + c] == v,
    ensures
        channel_sum(data, c, n) == n * v,
    decreases n,
{
    if n > 0 {
        lemma_channel_sum_uniform(data, c, v, (n - 1) as nat);
        assert(data[4 * (n - 1) + c] == v);
        let m = (n - 1) as nat;
        let w: nat = v as nat;
        assert(channel_sum(data, c, n) == channel_sum(data, c, m) + w);
        assert(channel_sum(data, c, m) == m * w);
        assert(m * w + w == n * w) by (nonlinear_arith)
            requires n == m + 1;
        assert(n * w == n * v);
    } else {
        assert(n * v == 0) by (nonlinear_arith)
            requires n == 0;
    }
}

/// The bytes of channel `c` of the first `n` pixels, in pixel order.
pub open spec fn channel_values(data: Seq<u8>, c: int, n: nat) -> Seq<int> {
    Seq::new(n, |k: int| data[4 * k + c] as int)
}

/// A channel's sum adds each of the first `n` pixels' byte for that channel exactly once:
/// it is the plain sum of those bytes.
pub proof fn law_channel_sum_counts_each_pixel(data: Seq<u8>, c: int, n: nat)
    requires
        0 <= c < 4,
        4 * n <= data.len(),
    ensures
        channel_sum(data, c, n) == channel_values(data, c, n).fold_left(0int, |acc: int, x: int| acc + x),
    decreases n,
{
    if n > 0 {
        law_channel_sum_counts_each_pixel(data, c, (n - 1) as nat);
        assert(channel_values(data, c, n).drop_last() =~= channel_values(data, c, (n - 1) as nat));
    }
}

/// The average colour of an image is, per channel, the sum of that channel over every one of
/// its `width * height` pixels, divided (rounding down) by the pixel count.
pub proof fn law_average_is_mean_of_all_pixels(data: Seq<u8>, width: u32, height: u32, c: int)
    requires
        0 <= c < 4,
        width as nat * height as nat > 0,
        data.len() >= width as nat * height as nat * 4,
    ensures
        average_of(data, width, height)[c] as int == channel_values(data, c, width as nat * height as nat).fold_left(
            0int,
            |acc: int, x: int| acc + x,
        ) / (width as nat * height as nat) as int,
{
    let pixels = width as nat * height as nat;
    law_channel_sum_counts_each_pixel(data, c, pixels);
    lemma_channel_sum_bound(data, c, pixels);
    lemma_mean_fits(channel_sum(data, c, pixels), pixels);
}

/// An image whose pixels all have the same colour averages to that colour; bytes past the
/// image's pixels do not count.
pub proof fn law_average_of_uniform_image(data: Seq<u8>, width: u32, height: u32, color: Seq<u8>)
    requires
        color.len() == 4,
        width as nat * height as nat > 0,
        data.len() >= width as nat * height as nat * 4,
        forall|k: int, c: int| 0 <= k < width as nat * height as nat && 0 <= c < 4
            ==> #[trigger] data[4 * k + c] == color[c],
    ensures
        average_of(data, width, height) == color,
{
    let pixels = width as nat * height as nat;
    let n = pixels;
    assert forall|c: int| 0 <= c < 4 implies channel_sum(data, c, n) / pixels == color[c] as nat by {
        assert forall|k: int| 0 <= k < n implies #[trigger] data[4 * k + c] == color[c] by {}
        lemma_channel_sum_uniform(data, c, color[c], n);
        let v: nat = color[c] as nat;
        assert((n * v) / n == v) by (nonlinear_arith)
            requires n > 0;
        assert(v < 256);
    }
    assert(average_of(data, width, height) =~= color);
}

} // verus!
