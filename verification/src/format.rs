//! Image formats of graph images and the conversion of their texels to and
//! from tightly packed RGBA8 pixels.
use vstd::prelude::*;
use crate::errors::{ComputeGraphError, GraphError};

verus! {

/// Vulkan image formats supported by graph image inputs and outputs.
#[derive(Clone, Copy, Debug, PartialEq, Eq, Structural)]
pub enum ImageFormat {
    R8Unorm,
    R8G8Unorm,
    R8G8B8A8Unorm,
    B8G8R8A8Unorm,
    R32Sfloat,
    R32G32Sfloat,
    R32G32B32A32Sfloat,
}

impl ImageFormat {
    /// Bytes per texel.
    pub open spec fn texel_bytes(self) -> nat {
        match self {
            ImageFormat::R8Unorm => 1,
            ImageFormat::R8G8Unorm => 2,
            ImageFormat::R8G8B8A8Unorm => 4,
            ImageFormat::B8G8R8A8Unorm => 4,
            ImageFormat::R32Sfloat => 4,
            ImageFormat::R32G32Sfloat => 8,
            ImageFormat::R32G32B32A32Sfloat => 16,
        }
    }

    /// Number of colour channels stored per texel.
    pub open spec fn channels(self) -> nat {
        match self {
            ImageFormat::R8Unorm | ImageFormat::R32Sfloat => 1,
            ImageFormat::R8G8Unorm | ImageFormat::R32G32Sfloat => 2,
            _ => 4,
        }
    }

    /// The channels are 32-bit floats rather than normalized bytes.
    pub open spec fn is_float(self) -> bool {
        self is R32Sfloat || self is R32G32Sfloat || self is R32G32B32A32Sfloat
    }

    /// Bytes per texel.
    pub fn pixel_size(self) -> (r: u64)
        ensures
            r == self.texel_bytes(),
    {
        match self {
            ImageFormat::R8Unorm => 1,
            ImageFormat::R8G8Unorm => 2,
            ImageFormat::R8G8B8A8Unorm | ImageFormat::B8G8R8A8Unorm => 4,
            ImageFormat::R32Sfloat => 4,
            ImageFormat::R32G32Sfloat => 8,
            ImageFormat::R32G32B32A32Sfloat => 16,
        }
    }

    /// Number of colour channels stored per texel.
    pub fn channel_count(self) -> (r: usize)
        ensures
            r == self.channels(),
    {
        match self {
            ImageFormat::R8Unorm | ImageFormat::R32Sfloat => 1,
            ImageFormat::R8G8Unorm | ImageFormat::R32G32Sfloat => 2,
            _ => 4,
        }
    }
}


/// One colour channel read back from an image texel.
#[derive(Clone, Copy, Debug, PartialEq, Eq, Structural)]
pub enum Channel {
    /// A normalized byte, used as it is.
    Byte(u8),
    /// The bits of a 32-bit float, which the caller scales to a byte.
    FloatBits(u32),
}

/// One part of an uploaded texel, produced from an RGBA8 pixel.
#[derive(Clone, Copy, Debug, PartialEq, Eq, Structural)]
pub enum TexelPart {
    /// A byte stored as it is.
    Byte(u8),
    /// The channel value divided by 255, stored as a little-endian 32-bit float.
    UnitFloat(u8),
}

/// The 32-bit word stored little-endian in four bytes.
pub open spec fn le_word(b0: u8, b1: u8, b2: u8, b3: u8) -> u32 {
    (b0 as int + 256 * (b1 as int) + 65536 * (b2 as int) + 16777216 * (b3 as int)) as u32
}

/// The byte of a BGRA texel that holds RGBA channel `c`.
pub open spec fn bgra_index(c: int) -> int {
    if c == 0 {
        2
    } else if c == 1 {
        1
    } else if c == 2 {
        0
    } else {
        3
    }
}

/// Channel `c` (red, green, blue, alpha) of a texel of this format.
pub open spec fn texel_channel(format: ImageFormat, texel: Seq<u8>, c: int) -> Channel {
    match format {
        ImageFormat::B8G8R8A8Unorm => Channel::Byte(texel[bgra_index(c)]),
        ImageFormat::R32Sfloat | ImageFormat::R32G32Sfloat | ImageFormat::R32G32B32A32Sfloat =>
            Channel::FloatBits(
            le_word(texel[4 * c], texel[4 * c + 1], texel[4 * c + 2], texel[4 * c + 3]),
        ),
        _ => Channel::Byte(texel[c]),
    }
}

/// The red, green, blue and alpha channels of a texel. Formats with one or
/// two channels read as zero for the missing colours and opaque alpha.
pub open spec fn texel_rgba(format: ImageFormat, texel: Seq<u8>, j: int) -> Channel {
    if format.channels() <= 2 {
        if j == 0 {
            texel_channel(format, texel, 0)
        } else if j == 1 && format.channels() == 2 {
            texel_channel(format, texel, 1)
        } else if j == 3 {
            Channel::Byte(255)
        } else {
            Channel::Byte(0)
        }
    } else {
        texel_channel(format, texel, j)
    }
}

/// The bytes of texel `t` in tightly packed image data.
pub open spec fn texel_at(format: ImageFormat, data: Seq<u8>, t: int) -> Seq<u8> {
    data.subrange(t * format.texel_bytes(), (t + 1) * format.texel_bytes())
}

/// `out` holds the RGBA channels of every texel of `data`, four per texel.
pub open spec fn is_rgba_readback(format: ImageFormat, data: Seq<u8>, out: Seq<Channel>) -> bool {
    let n = data.len() / format.texel_bytes();
    &&& out.len() == 4 * n
    &&& forall|t: int, j: int|
        0 <= t < n && 0 <= j < 4 ==> out[4 * t + j] == texel_rgba(format, texel_at(format, data, t), j)
}

/// Part `j` of the uploaded texel for the RGBA pixel `(r, g, b, a)`.
pub open spec fn pixel_part(format: ImageFormat, r: u8, g: u8, b: u8, a: u8, j: int) -> TexelPart {
    let rgba = seq![r, g, b, a];
    match format {
        ImageFormat::B8G8R8A8Unorm => TexelPart::Byte(rgba[bgra_index(j)]),
        ImageFormat::R32Sfloat | ImageFormat::R32G32Sfloat | ImageFormat::R32G32B32A32Sfloat =>
            TexelPart::UnitFloat(rgba[j]),
        _ => TexelPart::Byte(rgba[j]),
    }
}

/// Part `j` of the uploaded texel for pixel `p` of tightly packed RGBA8 data.
pub open spec fn upload_part(format: ImageFormat, rgba: Seq<u8>, p: int, j: int) -> TexelPart {
    pixel_part(format, rgba[4 * p], rgba[4 * p + 1], rgba[4 * p + 2], rgba[4 * p + 3], j)
}

/// `out` holds, for every whole RGBA pixel of `rgba`, the parts of its
/// texel: the format's channels in the format's order.
pub open spec fn is_texel_upload(format: ImageFormat, rgba: Seq<u8>, out: Seq<TexelPart>) -> bool {
    let n = rgba.len() / 4;
    let c = format.channels();
    &&& out.len() == c * n
    &&& forall|p: int, j: int|
        0 <= p < n && 0 <= j < c ==> out[c * p + j] == #[trigger] upload_part(format, rgba, p, j)
}

/// The bytes of uploaded texel parts; a float part stands for its channel byte.
pub open spec fn part_bytes(parts: Seq<TexelPart>) -> Seq<u8> {
    parts.map_values(
        |part: TexelPart|
            match part {
                TexelPart::Byte(b) => b,
                TexelPart::UnitFloat(c) => c,
            },
    )
}

/// Channel `j` of pixel `p` as read back after an upload in a byte format:
/// the channels the format stores come back unchanged, missing colours read
/// as zero and missing alpha as opaque.
pub open spec fn round_trip_channel(format: ImageFormat, rgba: Seq<u8>, p: int, j: int) -> u8 {
    if j < format.channels() {
        rgba[4 * p + j]
    } else if j == 3 {
        255
    } else {
        0
    }
}

/// Uploading RGBA8 pixels into an image of a byte format and reading the
/// image back gives the pixels' stored channels back, in RGBA order.
pub proof fn lemma_byte_format_round_trip(
    format: ImageFormat,
    rgba: Seq<u8>,
    parts: Seq<TexelPart>,
    channels: Seq<Channel>,
)
    requires
        !format.is_float(),
        rgba.len() % 4 == 0,
        is_texel_upload(format, rgba, parts),
        is_rgba_readback(format, part_bytes(parts), channels),
    ensures
        channels.len() == rgba.len(),
        forall|p: int, j: int|
            0 <= p < rgba.len() / 4 && 0 <= j < 4 ==> channels[4 * p + j] == Channel::Byte(
                #[trigger] round_trip_channel(format, rgba, p, j),
            ),
{
    let n = rgba.len() / 4;
    let c = format.channels();
    let data = part_bytes(parts);
    assert(format.texel_bytes() == c);
    assert(data.len() == c * n);
    assert(data.len() / format.texel_bytes() == n) by (nonlinear_arith)
        requires
            data.len() == c * n,
            format.texel_bytes() == c,
            c >= 1,
    ;
    assert forall|p: int, j: int| 0 <= p < n && 0 <= j < 4 implies channels[4 * p + j]
        == Channel::Byte(#[trigger] round_trip_channel(format, rgba, p, j)) by {
        let texel = texel_at(format, data, p);
        assert(c * p + c <= c * n) by (nonlinear_arith)
            requires
                p < n,
                c >= 1,
        ;
        assert(c * (p + 1) == c * p + c) by (nonlinear_arith);
        assert(texel == data.subrange(c * p, c * p + c)) by {
            assert(p * format.texel_bytes() == c * p) by (nonlinear_arith)
                requires
                    format.texel_bytes() == c,
            ;
            assert((p + 1) * format.texel_bytes() == c * p + c) by (nonlinear_arith)
                requires
                    format.texel_bytes() == c,
            ;
        }
        assert forall|m: int| 0 <= m < c implies texel[m] == match #[trigger] upload_part(
            format,
            rgba,
            p,
            m,
        ) {
            TexelPart::Byte(b) => b,
            TexelPart::UnitFloat(x) => x,
        } by {
            assert(texel[m] == data[c * p + m]);
            assert(parts[c * p + m] == upload_part(format, rgba, p, m));
        }
        assert(channels[4 * p + j] == texel_rgba(format, texel, j));
        if j < c {
            assert(upload_part(format, rgba, p, j) == pixel_part(
                format,
                rgba[4 * p],
                rgba[4 * p + 1],
                rgba[4 * p + 2],
                rgba[4 * p + 3],
                j,
            ));
            assert(upload_part(format, rgba, p, bgra_index(j)) == pixel_part(
                format,
                rgba[4 * p],
                rgba[4 * p + 1],
                rgba[4 * p + 2],
                rgba[4 * p + 3],
                bgra_index(j),
            ));
        }
    }
}

/// Channel `c` of the texel starting at `start`.
pub fn image_channel(data: &[u8], format: ImageFormat, start: usize, c: usize) -> (r: Channel)
    requires
        c < format.channels(),
        start + format.texel_bytes() <= data.len(),
    ensures
        r == texel_channel(format, data@.subrange(start as int, start + format.texel_bytes()), c as int),
{
    let ghost texel = data@.subrange(start as int, start + format.texel_bytes());
    match format {
        ImageFormat::B8G8R8A8Unorm => {
            assert(format.texel_bytes() == 4);
            let index: usize = if c == 0 {
                2
            } else if c == 1 {
                1
            } else if c == 2 {
                0
            } else {
                3
            };
            Channel::Byte(data[start + index])
        },
        ImageFormat::R32Sfloat | ImageFormat::R32G32Sfloat | ImageFormat::R32G32B32A32Sfloat => {
            assert(format.texel_bytes() == 4 * format.channels());
            let b0 = data[start + 4 * c] as u32;
            let b1 = data[start + 4 * c + 1] as u32;
            let b2 = data[start + 4 * c + 2] as u32;
            let b3 = data[start + 4 * c + 3] as u32;
            Channel::FloatBits(b0 + 256 * b1 + 65536 * b2 + 16777216 * b3)
        },
        _ => {
            assert(format.channels() <= format.texel_bytes());
            Channel::Byte(data[start + c])
        },
    }
}

impl ImageFormat {
    /// Reads image data of this format back as RGBA channels, four per
    /// texel. Data whose length is not a whole number of texels is rejected.
    pub fn output_channels(self, data: &[u8]) -> (r: Result<Vec<Channel>, ComputeGraphError>)
        ensures
            match r {
                Ok(out) => data@.len() % self.texel_bytes() == 0 && is_rgba_readback(self, data@, out@),
                Err(e) => data@.len() % self.texel_bytes() != 0 && e@ == GraphError::<
                    Seq<char>,
                >::UnalignedImageData { format: self, length: data@.len() as usize },
            },
    {
        let size = self.pixel_size() as usize;
        if data.len() % size != 0 {
            return Err(GraphError::UnalignedImageData { format: self, length: data.len() });
        }
        let n = data.len() / size;
        let channels = self.channel_count();
        let mut out: Vec<Channel> = Vec::new();
        let mut t: usize = 0;
        while t < n
            invariant
                size == self.texel_bytes(),
                channels == self.channels(),
                n == data@.len() / (size as nat),
                n * size == data.len(),
                t <= n,
                out@.len() == 4 * t,
                forall|t2: int, j: int|
                    0 <= t2 < t && 0 <= j < 4 ==> out@[4 * t2 + j] == texel_rgba(
                        self,
                        texel_at(self, data@, t2),
                        j,
                    ),
            decreases n - t,
        {
            assert((t + 1) * size <= n * size) by (nonlinear_arith)
                requires
                    t < n,
            ;
            assert(t * size + size == (t + 1) * size) by (nonlinear_arith);
            let start = t * size;
            let ghost texel = texel_at(self, data@, t as int);
            assert(texel == data@.subrange(start as int, start + size));
            let ghost before = out@;
            if channels <= 2 {
                out.push(image_channel(data, self, start, 0));
                if channels == 2 {
                    out.push(image_channel(data, self, start, 1));
                } else {
                    out.push(Channel::Byte(0));
                }
                out.push(Channel::Byte(0));
                out.push(Channel::Byte(255));
            } else {
                out.push(image_channel(data, self, start, 0));
                out.push(image_channel(data, self, start, 1));
                out.push(image_channel(data, self, start, 2));
                out.push(image_channel(data, self, start, 3));
            }
            proof {
                assert forall|t2: int, j: int| 0 <= t2 < t + 1 && 0 <= j < 4 implies out@[4 * t2 + j]
                    == texel_rgba(self, texel_at(self, data@, t2), j) by {
                    if t2 < t {
                        assert(out@[4 * t2 + j] == before[4 * t2 + j]);
                    }
                }
            }
            t = t + 1;
        }
        Ok(out)
    }

    /// The parts of the texels uploaded for tightly packed RGBA8 pixels: the
    /// format's channels of each whole pixel, in the format's order.
    pub fn input_parts(self, rgba: &[u8]) -> (out: Vec<TexelPart>)
        ensures
            is_texel_upload(self, rgba@, out@),
    {
        let n = rgba.len() / 4;
        let c = self.channel_count();
        let mut out: Vec<TexelPart> = Vec::new();
        let mut p: usize = 0;
        while p < n
            invariant
                n == rgba.len() / 4,
                c == self.channels(),
                1 <= c <= 4,
                p <= n,
                out@.len() == c * p,
                forall|p2: int, j: int|
                    0 <= p2 < p && 0 <= j < c ==> out@[c * p2 + j] == #[trigger] upload_part(
                        self,
                        rgba@,
                        p2,
                        j,
                    ),
            decreases n - p,
        {
            assert(4 * p + 3 < rgba.len());
            let r = rgba[4 * p];
            let g = rgba[4 * p + 1];
            let b = rgba[4 * p + 2];
            let a = rgba[4 * p + 3];
            let ghost before = out@;
            match self {
                ImageFormat::R8Unorm => {
                    out.push(TexelPart::Byte(r));
                },
                ImageFormat::R8G8Unorm => {
                    out.push(TexelPart::Byte(r));
                    out.push(TexelPart::Byte(g));
                },
                ImageFormat::R8G8B8A8Unorm => {
                    out.push(TexelPart::Byte(r));
                    out.push(TexelPart::Byte(g));
                    out.push(TexelPart::Byte(b));
                    out.push(TexelPart::Byte(a));
                },
                ImageFormat::B8G8R8A8Unorm => {
                    out.push(TexelPart::Byte(b));
                    out.push(TexelPart::Byte(g));
                    out.push(TexelPart::Byte(r));
                    out.push(TexelPart::Byte(a));
                },
                ImageFormat::R32Sfloat => {
                    out.push(TexelPart::UnitFloat(r));
                },
                ImageFormat::R32G32Sfloat => {
                    out.push(TexelPart::UnitFloat(r));
                    out.push(TexelPart::UnitFloat(g));
                },
                ImageFormat::R32G32B32A32Sfloat => {
                    out.push(TexelPart::UnitFloat(r));
                    out.push(TexelPart::UnitFloat(g));
                    out.push(TexelPart::UnitFloat(b));
                    out.push(TexelPart::UnitFloat(a));
                },
            }
            proof {
                assert(c * (p + 1) == c * p + c) by (nonlinear_arith);
                assert forall|p2: int, j: int| 0 <= p2 < p + 1 && 0 <= j < c implies out@[c * p2 + j]
                    == #[trigger] upload_part(self, rgba@, p2, j) by {
                    if p2 < p {
                        assert(c * p2 + j < c * p) by (nonlinear_arith)
                            requires
                                p2 < p,
                                j < c,
                        ;
                        assert(out@[c * p2 + j] == before[c * p2 + j]);
                    } else {
                        assert(c * p2 == c * p);
                    }
                }
            }
            p = p + 1;
        }
        out
    }
}

} // verus!

verus! {

/// The little-endian 32-bit word stored at bytes `k` to `k + 3`.
pub open spec fn word_at(data: Seq<u8>, k: int) -> u32 {
    (data[k] as int + 256 * (data[k + 1] as int) + 65536 * (data[k + 2] as int) + 16777216 * (
    data[k + 3] as int)) as u32
}

/// Reading back a float image gives, for every texel `t` and every channel
/// `c` the format stores, the bits of the float at bytes `4c` to `4c + 3` of
/// the texel; a missing colour reads as zero and a missing alpha as opaque.
pub proof fn lemma_float_readback(format: ImageFormat, data: Seq<u8>, out: Seq<Channel>)
    requires
        format.is_float(),
        is_rgba_readback(format, data, out),
    ensures
        forall|i: int|
            0 <= i < out.len() ==> #[trigger] out[i] == (if i % 4 < format.channels() {
                Channel::FloatBits(word_at(data, 4 * format.channels() * (i / 4) + 4 * (i % 4)))
            } else if i % 4 == 3 {
                Channel::Byte(255)
            } else {
                Channel::Byte(0)
            }),
{
    let tb = format.texel_bytes();
    let n = data.len() / tb;
    assert forall|i: int| 0 <= i < out.len() implies #[trigger] out[i] == (if i % 4 < format.channels() {
        Channel::FloatBits(word_at(data, 4 * format.channels() * (i / 4) + 4 * (i % 4)))
    } else if i % 4 == 3 {
        Channel::Byte(255)
    } else {
        Channel::Byte(0)
    }) by {
        let t = i / 4;
        let c = i % 4;
        assert(4 * t + c == i);
        assert(0 <= t < n);
        assert(out[4 * t + c] == texel_rgba(format, texel_at(format, data, t), c));
        assert(tb == 4 * format.channels());
        assert(tb * n <= data.len()) by (nonlinear_arith)
            requires
                n == data.len() / tb,
                tb > 0,
        ;
        assert(t * tb + tb <= tb * n) by (nonlinear_arith)
            requires
                t < n,
                tb > 0,
        ;
        assert((t + 1) * tb == t * tb + tb) by (nonlinear_arith);
        assert(4 * format.channels() * t == t * tb) by (nonlinear_arith)
            requires
                tb == 4 * format.channels(),
        ;
        let texel = texel_at(format, data, t);
        if c < format.channels() {
            assert(texel[4 * c] == data[t * tb + 4 * c]);
            assert(texel[4 * c + 1] == data[t * tb + 4 * c + 1]);
            assert(texel[4 * c + 2] == data[t * tb + 4 * c + 2]);
            assert(texel[4 * c + 3] == data[t * tb + 4 * c + 3]);
        }
    }
}

/// Reading back an image of a byte format gives, for every texel, its red,
/// green, blue and alpha bytes in that order: `b8g8r8a8_unorm` texels store
/// blue first, one- and two-channel formats read as zero for the missing
/// colours and as opaque for the missing alpha.
pub proof fn lemma_byte_readback(format: ImageFormat, data: Seq<u8>, out: Seq<Channel>)
    requires
        !format.is_float(),
        is_rgba_readback(format, data, out),
    ensures
        format is R8G8B8A8Unorm ==> forall|i: int|
            0 <= i < out.len() ==> #[trigger] out[i] == Channel::Byte(data[i]),
        format is B8G8R8A8Unorm ==> forall|i: int|
            0 <= i < out.len() ==> #[trigger] out[i] == Channel::Byte(
                if i % 4 == 0 {
                    data[i + 2]
                } else if i % 4 == 2 {
                    data[i - 2]
                } else {
                    data[i]
                },
            ),
        format is R8G8Unorm ==> forall|i: int|
            0 <= i < out.len() ==> #[trigger] out[i] == (if i % 4 < 2 {
                Channel::Byte(data[2 * (i / 4) + i % 4])
            } else if i % 4 == 3 {
                Channel::Byte(255)
            } else {
                Channel::Byte(0)
            }),
        format is R8Unorm ==> forall|i: int|
            0 <= i < out.len() ==> #[trigger] out[i] == (if i % 4 == 0 {
                Channel::Byte(data[i / 4])
            } else if i % 4 == 3 {
                Channel::Byte(255)
            } else {
                Channel::Byte(0)
            }),
{
    let tb = format.texel_bytes();
    let n = data.len() / tb;
    assert forall|i: int| 0 <= i < out.len() implies {
        let t = i / 4;
        let c = i % 4;
        &&& 0 <= t < n
        &&& t * tb + tb <= data.len()
        &&& #[trigger] out[i] == texel_rgba(format, texel_at(format, data, t), c)
    } by {
        let t = i / 4;
        let c = i % 4;
        assert(4 * t + c == i);
        assert(out[4 * t + c] == texel_rgba(format, texel_at(format, data, t), c));
        assert(tb * n <= data.len()) by (nonlinear_arith)
            requires
                n == data.len() / tb,
                tb > 0,
        ;
        assert(t * tb + tb <= tb * n) by (nonlinear_arith)
            requires
                t < n,
                tb > 0,
        ;
    }
    assert forall|i: int| 0 <= i < out.len() implies #[trigger] out[i] == (if i % 4
        < format.channels() {
        Channel::Byte(
            if format is B8G8R8A8Unorm {
                data[tb * (i / 4) + bgra_index(i % 4)]
            } else {
                data[tb * (i / 4) + i % 4]
            },
        )
    } else if i % 4 == 3 {
        Channel::Byte(255)
    } else {
        Channel::Byte(0)
    }) by {
        let t = i / 4;
        let c = i % 4;
        assert((t + 1) * tb == t * tb + tb) by (nonlinear_arith);
        assert(tb * t == t * tb) by (nonlinear_arith);
        let texel = texel_at(format, data, t);
        assert(texel.len() == tb);
        if c < format.channels() {
            assert(texel[c] == data[t * tb + c]);
            if format is B8G8R8A8Unorm {
                assert(texel[bgra_index(c)] == data[t * tb + bgra_index(c)]);
            }
        }
    }
}

/// Part `i` of an upload is the part for channel `i % c` of pixel `i / c`,
/// where `c` is the number of channels the format stores.
proof fn lemma_upload_part_at(format: ImageFormat, rgba: Seq<u8>, out: Seq<TexelPart>, i: int)
    requires
        is_texel_upload(format, rgba, out),
        0 <= i < out.len(),
    ensures
        out[i] == upload_part(format, rgba, i / (format.channels() as int), i % (format.channels() as int)),
        4 * (i / (format.channels() as int)) + 3 < rgba.len(),
{
    let c = format.channels();
    let n = rgba.len() / 4;
    let p = i / (c as int);
    let j = i % (c as int);
    assert(c * p + j == i) by (nonlinear_arith)
        requires
            p == i / (c as int),
            j == i % (c as int),
            c > 0,
    ;
    assert(p < n) by (nonlinear_arith)
        requires
            p == i / (c as int),
            i < c * n,
            c > 0,
            i >= 0,
    ;
    assert(0 <= j < c);
    assert(out[c * p + j] == upload_part(format, rgba, p, j));
}

proof fn lemma_upload_four(format: ImageFormat, rgba: Seq<u8>, out: Seq<TexelPart>)
    requires
        is_texel_upload(format, rgba, out),
        format is R8G8B8A8Unorm || format is R32G32B32A32Sfloat || format is B8G8R8A8Unorm,
    ensures
        forall|i: int|
            0 <= i < out.len() ==> #[trigger] out[i] == pixel_part(
                format,
                rgba[4 * (i / 4)],
                rgba[4 * (i / 4) + 1],
                rgba[4 * (i / 4) + 2],
                rgba[4 * (i / 4) + 3],
                i % 4,
            ) && 4 * (i / 4) + 3 < rgba.len(),
{
    assert forall|i: int| 0 <= i < out.len() implies #[trigger] out[i] == pixel_part(
        format,
        rgba[4 * (i / 4)],
        rgba[4 * (i / 4) + 1],
        rgba[4 * (i / 4) + 2],
        rgba[4 * (i / 4) + 3],
        i % 4,
    ) && 4 * (i / 4) + 3 < rgba.len() by {
        lemma_upload_part_at(format, rgba, out, i);
    }
}

proof fn lemma_upload_two(format: ImageFormat, rgba: Seq<u8>, out: Seq<TexelPart>)
    requires
        is_texel_upload(format, rgba, out),
        format is R8G8Unorm || format is R32G32Sfloat,
    ensures
        forall|i: int|
            0 <= i < out.len() ==> #[trigger] out[i] == pixel_part(
                format,
                rgba[4 * (i / 2)],
                rgba[4 * (i / 2) + 1],
                rgba[4 * (i / 2) + 2],
                rgba[4 * (i / 2) + 3],
                i % 2,
            ) && 4 * (i / 2) + 3 < rgba.len(),
{
    assert forall|i: int| 0 <= i < out.len() implies #[trigger] out[i] == pixel_part(
        format,
        rgba[4 * (i / 2)],
        rgba[4 * (i / 2) + 1],
        rgba[4 * (i / 2) + 2],
        rgba[4 * (i / 2) + 3],
        i % 2,
    ) && 4 * (i / 2) + 3 < rgba.len() by {
        lemma_upload_part_at(format, rgba, out, i);
    }
}

proof fn lemma_upload_one(format: ImageFormat, rgba: Seq<u8>, out: Seq<TexelPart>)
    requires
        is_texel_upload(format, rgba, out),
        format is R8Unorm || format is R32Sfloat,
    ensures
        forall|i: int|
            0 <= i < out.len() ==> #[trigger] out[i] == pixel_part(
                format,
                rgba[4 * i],
                rgba[4 * i + 1],
                rgba[4 * i + 2],
                rgba[4 * i + 3],
                0,
            ) && 4 * i + 3 < rgba.len(),
{
    assert forall|i: int| 0 <= i < out.len() implies #[trigger] out[i] == pixel_part(
        format,
        rgba[4 * i],
        rgba[4 * i + 1],
        rgba[4 * i + 2],
        rgba[4 * i + 3],
        0,
    ) && 4 * i + 3 < rgba.len() by {
        lemma_upload_part_at(format, rgba, out, i);
    }
}

/// Uploading RGBA8 pixels stores, for every pixel, the channels the format
/// holds in the format's order: bytes for byte formats (blue first for
/// `b8g8r8a8_unorm`), the channel scaled to a unit float for float formats.
pub proof fn lemma_upload_parts(format: ImageFormat, rgba: Seq<u8>, out: Seq<TexelPart>)
    requires
        is_texel_upload(format, rgba, out),
    ensures
        format is R8G8B8A8Unorm ==> forall|i: int|
            0 <= i < out.len() ==> #[trigger] out[i] == TexelPart::Byte(rgba[i]),
        format is R32G32B32A32Sfloat ==> forall|i: int|
            0 <= i < out.len() ==> #[trigger] out[i] == TexelPart::UnitFloat(rgba[i]),
        format is B8G8R8A8Unorm ==> forall|i: int|
            0 <= i < out.len() ==> #[trigger] out[i] == TexelPart::Byte(
                if i % 4 == 0 {
                    rgba[i + 2]
                } else if i % 4 == 2 {
                    rgba[i - 2]
                } else {
                    rgba[i]
                },
            ),
        format is R8G8Unorm ==> forall|i: int|
            0 <= i < out.len() ==> #[trigger] out[i] == TexelPart::Byte(rgba[4 * (i / 2) + i % 2]),
        format is R32G32Sfloat ==> forall|i: int|
            0 <= i < out.len() ==> #[trigger] out[i] == TexelPart::UnitFloat(
                rgba[4 * (i / 2) + i % 2],
            ),
        format is R8Unorm ==> forall|i: int|
            0 <= i < out.len() ==> #[trigger] out[i] == TexelPart::Byte(rgba[4 * i]),
        format is R32Sfloat ==> forall|i: int|
            0 <= i < out.len() ==> #[trigger] out[i] == TexelPart::UnitFloat(rgba[4 * i]),
{
    if format is R8G8B8A8Unorm || format is R32G32B32A32Sfloat || format is B8G8R8A8Unorm {
        lemma_upload_four(format, rgba, out);
    } else if format is R8G8Unorm || format is R32G32Sfloat {
        lemma_upload_two(format, rgba, out);
    } else {
        lemma_upload_one(format, rgba, out);
    }
}

} // verus!
