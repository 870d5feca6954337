//! Pixel-format expansion for decoded texture data.
//!
//! Model files carry their images in one-, two-, three- or four-channel
//! form; the GPU upload path wants plain RGBA. Expansion is pure byte
//! shuffling: one-channel data is replicated into a grey RGB with full
//! alpha, two-channel data is treated as luminance plus alpha,
//! three-channel data gets full alpha appended, four-channel data passes
//! through unchanged.

use vstd::prelude::*;

verus! {

/// The channel layout of decoded image data, one byte per channel.
#[derive(Clone, Copy, PartialEq, Eq, Structural, Debug)]
pub enum TexelFormat {
    R8,
    R8G8,
    R8G8B8,
    R8G8B8A8,
}

/// How many bytes one texel occupies in the source data.
pub open spec fn bytes_per_texel(format: TexelFormat) -> int {
    match format {
        TexelFormat::R8 => 1,
        TexelFormat::R8G8 => 2,
        TexelFormat::R8G8B8 => 3,
        TexelFormat::R8G8B8A8 => 4,
    }
}

/// The red byte of texel `t` after expansion.
pub open spec fn red_at(format: TexelFormat, pixels: Seq<u8>, t: int) -> u8 {
    match format {
        TexelFormat::R8 => pixels[t],
        TexelFormat::R8G8 => pixels[2 * t],
        TexelFormat::R8G8B8 => pixels[3 * t],
        TexelFormat::R8G8B8A8 => pixels[4 * t],
    }
}

/// The green byte of texel `t` after expansion.
pub open spec fn green_at(format: TexelFormat, pixels: Seq<u8>, t: int) -> u8 {
    match format {
        TexelFormat::R8 => pixels[t],
        TexelFormat::R8G8 => pixels[2 * t],
        TexelFormat::R8G8B8 => pixels[3 * t + 1],
        TexelFormat::R8G8B8A8 => pixels[4 * t + 1],
    }
}

/// The blue byte of texel `t` after expansion.
pub open spec fn blue_at(format: TexelFormat, pixels: Seq<u8>, t: int) -> u8 {
    match format {
        TexelFormat::R8 => pixels[t],
        TexelFormat::R8G8 => pixels[2 * t],
        TexelFormat::R8G8B8 => pixels[3 * t + 2],
        TexelFormat::R8G8B8A8 => pixels[4 * t + 2],
    }
}

/// The alpha byte of texel `t` after expansion: the second channel of
/// two-channel data, the source alpha of four-channel data, opaque
/// otherwise.
pub open spec fn alpha_at(format: TexelFormat, pixels: Seq<u8>, t: int) -> u8 {
    match format {
        TexelFormat::R8 => 255,
        TexelFormat::R8G8 => pixels[2 * t + 1],
        TexelFormat::R8G8B8 => 255,
        TexelFormat::R8G8B8A8 => pixels[4 * t + 3],
    }
}

/// Expand decoded image data to RGBA, four bytes per texel, texels in
/// order. The input must hold whole texels; the output holds exactly
/// four bytes for each of them, with the channels placed as the
/// per-channel functions state.
pub fn to_rgba(format: TexelFormat, pixels: &Vec<u8>) -> (r: Vec<u8>)
    requires
        pixels@.len() as int % bytes_per_texel(format) == 0,
        4 * (pixels@.len() as int / bytes_per_texel(format)) <= usize::MAX,
    ensures
        r@.len() == 4 * (pixels@.len() as int / bytes_per_texel(format)),
        forall|t: int|
            0 <= t < pixels@.len() as int / bytes_per_texel(format) ==> r@[4 * t] == red_at(
                format,
                pixels@,
                t,
            ) && r@[4 * t + 1] == green_at(format, pixels@, t) && r@[4 * t + 2] == blue_at(
                format,
                pixels@,
                t,
            ) && r@[4 * t + 3] == alpha_at(format, pixels@, t),
{
    let stride: usize = match format {
        TexelFormat::R8 => 1,
        TexelFormat::R8G8 => 2,
        TexelFormat::R8G8B8 => 3,
        TexelFormat::R8G8B8A8 => 4,
    };
    let count = pixels.len() / stride;
    let mut out: Vec<u8> = Vec::new();
    for t in 0..count
        invariant
            stride == bytes_per_texel(format),
            count == pixels@.len() as int / bytes_per_texel(format),
            pixels@.len() as int % bytes_per_texel(format) == 0,
            4 * count <= usize::MAX,
            out@.len() == 4 * t,
            forall|t2: int|
                0 <= t2 < t ==> out@[4 * t2] == red_at(format, pixels@, t2) && out@[4 * t2
                    + 1] == green_at(format, pixels@, t2) && out@[4 * t2 + 2] == blue_at(
                    format,
                    pixels@,
                    t2,
                ) && out@[4 * t2 + 3] == alpha_at(format, pixels@, t2),
    {
        proof {
            assert(stride * count <= pixels@.len() as int) by (nonlinear_arith)
                requires
                    count == pixels@.len() as int / stride as int,
                    stride >= 1,
            ;
            assert(stride * (t + 1) <= stride * count) by (nonlinear_arith)
                requires
                    t < count,
                    stride >= 1,
            ;
        }
        let base = t * stride;
        match format {
            TexelFormat::R8 => {
                let l = pixels[base];
                out.push(l);
                out.push(l);
                out.push(l);
                out.push(255);
            }
            TexelFormat::R8G8 => {
                let l = pixels[base];
                out.push(l);
                out.push(l);
                out.push(l);
                out.push(pixels[base + 1]);
            }
            TexelFormat::R8G8B8 => {
                out.push(pixels[base]);
                out.push(pixels[base + 1]);
                out.push(pixels[base + 2]);
                out.push(255);
            }
            TexelFormat::R8G8B8A8 => {
                out.push(pixels[base]);
                out.push(pixels[base + 1]);
                out.push(pixels[base + 2]);
                out.push(pixels[base + 3]);
            }
        }
    }
    out
}

} // verus!
