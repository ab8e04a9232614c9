//! The checks on the parameters of the stand-alone image renderers, made
//! before any Vulkan object is created.
use vstd::prelude::*;

verus! {

/// Why a render request was rejected.
#[derive(Clone, Copy, Debug, PartialEq, Eq, Structural)]
pub enum RenderRequestError {
    /// Width or height is zero.
    ZeroDimensions,
    /// The pixel count does not fit in 32 bits.
    DimensionsOverflow,
    /// The byte count does not fit in 32 bits.
    SizeOverflow,
    /// Shader code whose length is not a whole number of 32-bit words.
    UnalignedSpirv,
    /// Downsampled renders need even dimensions of at least two pixels.
    OddSdfDimensions,
}

/// The message that describes a request error.
pub open spec fn request_error_text(e: RenderRequestError) -> Seq<char> {
    match e {
        RenderRequestError::ZeroDimensions => "image dimensions must be greater than zero"@,
        RenderRequestError::DimensionsOverflow => "image dimensions overflow"@,
        RenderRequestError::SizeOverflow => "image size overflow"@,
        RenderRequestError::UnalignedSpirv => "compute shader SPIR-V size must be a multiple of four"@,
        RenderRequestError::OddSdfDimensions => "SDF dimensions must be even and at least two pixels"@,
    }
}

impl RenderRequestError {
    /// The message that describes the error.
    pub fn message(&self) -> (m: &'static str)
        ensures
            m@ == request_error_text(*self),
    {
        match self {
            RenderRequestError::ZeroDimensions => "image dimensions must be greater than zero",
            RenderRequestError::DimensionsOverflow => "image dimensions overflow",
            RenderRequestError::SizeOverflow => "image size overflow",
            RenderRequestError::UnalignedSpirv => "compute shader SPIR-V size must be a multiple of four",
            RenderRequestError::OddSdfDimensions => "SDF dimensions must be even and at least two pixels",
        }
    }
}

/// The outcome of sizing an RGBA8 image: its byte count, or why it does not
/// fit in 32-bit arithmetic.
pub open spec fn rgba8_size(width: u32, height: u32) -> Result<u64, RenderRequestError> {
    if width * height > 0xffff_ffff {
        Err(RenderRequestError::DimensionsOverflow)
    } else if width * height * 4 > 0xffff_ffff {
        Err(RenderRequestError::SizeOverflow)
    } else {
        Ok((width * height * 4) as u64)
    }
}

/// The byte count of an RGBA8 image, computed in 32-bit arithmetic.
pub fn rgba8_byte_count(width: u32, height: u32) -> (r: Result<u64, RenderRequestError>)
    ensures
        r == rgba8_size(width, height),
{
    let w = width as u64;
    let h = height as u64;
    assert(w * h <= 0xffff_ffff * 0xffff_ffff) by (nonlinear_arith)
        requires
            w <= 0xffff_ffff,
            h <= 0xffff_ffff,
    ;
    let pixels = w * h;
    assert(pixels == width * height);
    if pixels > 0xffff_ffff {
        return Err(RenderRequestError::DimensionsOverflow);
    }
    if pixels * 4 > 0xffff_ffff {
        return Err(RenderRequestError::SizeOverflow);
    }
    Ok(pixels * 4)
}

/// The outcome of checking a request to clear an image: zero dimensions are
/// rejected before the size is computed.
pub open spec fn cleared_image_check(width: u32, height: u32) -> Result<u64, RenderRequestError> {
    if width == 0 || height == 0 {
        Err(RenderRequestError::ZeroDimensions)
    } else {
        rgba8_size(width, height)
    }
}

/// Checks a request to clear an image and returns its byte count.
pub fn cleared_image_request(width: u32, height: u32) -> (r: Result<u64, RenderRequestError>)
    ensures
        r == cleared_image_check(width, height),
{
    if width == 0 || height == 0 {
        return Err(RenderRequestError::ZeroDimensions);
    }
    rgba8_byte_count(width, height)
}

/// The outcome of checking a request to render an image with a shader whose
/// SPIR-V is `spirv_len` bytes long.
pub open spec fn bindless_image_check(width: u32, height: u32, spirv_len: usize) -> Result<
    u64,
    RenderRequestError,
> {
    if width == 0 || height == 0 {
        Err(RenderRequestError::ZeroDimensions)
    } else if spirv_len % 4 != 0 {
        Err(RenderRequestError::UnalignedSpirv)
    } else {
        rgba8_size(width, height)
    }
}

/// Checks a request to render an image with one shader and returns its byte
/// count.
pub fn bindless_image_request(width: u32, height: u32, spirv_len: usize) -> (r: Result<
    u64,
    RenderRequestError,
>)
    ensures
        r == bindless_image_check(width, height, spirv_len),
{
    if width == 0 || height == 0 {
        return Err(RenderRequestError::ZeroDimensions);
    }
    if spirv_len % 4 != 0 {
        return Err(RenderRequestError::UnalignedSpirv);
    }
    rgba8_byte_count(width, height)
}

/// The outcome of checking a request to render at `width` by `height` and
/// downsample by two: the output dimensions and byte count.
pub open spec fn sdf_downsample_check(
    width: u32,
    height: u32,
    sdf_len: usize,
    downsample_len: usize,
) -> Result<(u32, u32, u64), RenderRequestError> {
    if width < 2 || height < 2 || width % 2 != 0 || height % 2 != 0 {
        Err(RenderRequestError::OddSdfDimensions)
    } else if sdf_len % 4 != 0 || downsample_len % 4 != 0 {
        Err(RenderRequestError::UnalignedSpirv)
    } else {
        match rgba8_size((width / 2) as u32, (height / 2) as u32) {
            Err(e) => Err(e),
            Ok(bytes) => Ok(((width / 2) as u32, (height / 2) as u32, bytes)),
        }
    }
}

/// Checks a request to render and downsample by two, and returns the output
/// dimensions and byte count.
pub fn sdf_downsample_request(width: u32, height: u32, sdf_len: usize, downsample_len: usize) -> (r:
    Result<(u32, u32, u64), RenderRequestError>)
    ensures
        r == sdf_downsample_check(width, height, sdf_len, downsample_len),
{
    if width < 2 || height < 2 || width % 2 != 0 || height % 2 != 0 {
        return Err(RenderRequestError::OddSdfDimensions);
    }
    if sdf_len % 4 != 0 || downsample_len % 4 != 0 {
        return Err(RenderRequestError::UnalignedSpirv);
    }
    let output_width = width / 2;
    let output_height = height / 2;
    let bytes = rgba8_byte_count(output_width, output_height)?;
    Ok((output_width, output_height, bytes))
}

} // verus!
