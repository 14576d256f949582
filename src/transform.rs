use crate::dispatch::dispatch_count;
use crate::error::PipelineError;
use crate::layout::{ceil_div, is_pow2, round_up, RowLayout, BYTES_PER_PIXEL};
use crate::readback::{unpack_rows, unpacked};
use vstd::prelude::*;

verus! {

/// Width and height of a two-dimensional domain, in pixels or work-items.
#[derive(Clone, Copy, Debug, PartialEq, Eq, Structural)]
pub struct Extent {
    pub width: u32,
    pub height: u32,
}

/// A rotation by a multiple of a quarter turn.
#[derive(Clone, Copy, Debug, PartialEq, Eq, Structural)]
pub enum Rotation {
    Deg0,
    Deg90,
    Deg180,
    Deg270,
}

impl Rotation {
    pub open spec fn spec_degrees(self) -> u32 {
        match self {
            Rotation::Deg0 => 0,
            Rotation::Deg90 => 90,
            Rotation::Deg180 => 180,
            Rotation::Deg270 => 270,
        }
    }

    /// An odd number of quarter turns exchanges the two axes.
    pub open spec fn swaps_axes(self) -> bool {
        self is Deg90 || self is Deg270
    }

    /// The rotation by `degrees`; `None` unless it is 0, 90, 180 or 270.
    pub fn from_degrees(degrees: u32) -> (r: Option<Rotation>)
        ensures
            r is Some <==> (degrees == 0 || degrees == 90 || degrees == 180 || degrees == 270),
            r matches Some(x) ==> x.spec_degrees() == degrees,
    {
        match degrees {
            0 => Some(Rotation::Deg0),
            90 => Some(Rotation::Deg90),
            180 => Some(Rotation::Deg180),
            270 => Some(Rotation::Deg270),
            _ => None,
        }
    }

    /// The angle in degrees, as handed to the rotation shader.
    pub fn degrees(&self) -> (r: u32)
        ensures
            r == self.spec_degrees(),
    {
        match self {
            Rotation::Deg0 => 0,
            Rotation::Deg90 => 90,
            Rotation::Deg180 => 180,
            Rotation::Deg270 => 270,
        }
    }
}

/// Resources a transform's shader binds, in binding order.
#[derive(Clone, Copy, Debug, PartialEq, Eq, Structural)]
pub enum BindingLayout {
    /// An input texture and an output storage texture.
    TextureToTexture,
    /// An input texture, an output storage texture and a storage buffer
    /// holding one configuration value.
    TextureToTextureWithConfig,
    /// A luma texture, a chroma texture, a filtering sampler and an output
    /// storage texture.
    PlanesWithSampler,
}

/// A single-pass compute transform producing RGBA pixels.
#[derive(Clone, Copy, Debug, PartialEq, Eq, Structural)]
pub enum Transform {
    Grayscale,
    Binarize,
    YuvToRgb,
    Rotate(Rotation),
}

impl Transform {
    pub open spec fn spec_tile(self) -> u32 {
        match self {
            Transform::Rotate(_) => 16,
            _ => 8,
        }
    }

    /// Side of the square workgroup of the transform's shader: 8 for the
    /// per-pixel filters, 16 for geometric transforms.
    pub fn tile(&self) -> (r: u32)
        ensures
            r == self.spec_tile(),
    {
        match self {
            Transform::Rotate(_) => 16,
            _ => 8,
        }
    }

    pub open spec fn spec_output_extent(self, input: Extent) -> Extent {
        match self {
            Transform::Rotate(rot) => if rot.swaps_axes() {
                Extent { width: input.height, height: input.width }
            } else {
                input
            },
            _ => input,
        }
    }

    /// Extent of the output image for an input of `input`: the axes are
    /// exchanged by an odd number of quarter turns, and kept otherwise.
    pub fn output_extent(&self, input: Extent) -> (r: Extent)
        ensures
            r == self.spec_output_extent(input),
    {
        match self {
            Transform::Rotate(rot) => match rot {
                Rotation::Deg90 | Rotation::Deg270 => Extent {
                    width: input.height,
                    height: input.width,
                },
                _ => input,
            },
            _ => input,
        }
    }

    pub open spec fn spec_binding_layout(self) -> BindingLayout {
        match self {
            Transform::Rotate(_) => BindingLayout::TextureToTextureWithConfig,
            Transform::YuvToRgb => BindingLayout::PlanesWithSampler,
            _ => BindingLayout::TextureToTexture,
        }
    }

    /// The resources the transform's shader binds.
    pub fn binding_layout(&self) -> (r: BindingLayout)
        ensures
            r == self.spec_binding_layout(),
    {
        match self {
            Transform::Rotate(_) => BindingLayout::TextureToTextureWithConfig,
            Transform::YuvToRgb => BindingLayout::PlanesWithSampler,
            _ => BindingLayout::TextureToTexture,
        }
    }
}

/// Everything one invocation of a transform needs to size its dispatch and
/// its readback.
#[derive(Clone, Copy, Debug, PartialEq, Eq, Structural)]
pub struct TransformPlan {
    pub transform: Transform,
    pub input: Extent,
    pub output: Extent,
    /// Workgroup counts along x and y, covering the output domain.
    pub workgroups: Extent,
    /// Strides of an output row, tightly packed and as copied to staging.
    pub layout: RowLayout,
    /// Size in bytes of the staging buffer that receives the padded rows.
    pub staging_size: u64,
}

impl TransformPlan {
    /// Strips the padding from the rows that the device copied back into
    /// `padded_data`: `output.height` rows of `layout.unpadded` bytes laid
    /// `layout.padded` bytes apart. Fails with `TruncatedReadback`, returning
    /// no pixels, when `padded_data` is shorter than all those rows.
    pub fn read_back(&self, padded_data: &[u8]) -> (r: Result<Vec<u8>, PipelineError>)
        requires
            self.layout.unpadded <= self.layout.padded,
        ensures
            r is Ok <==> padded_data@.len() >= self.layout.padded * self.output.height,
            r matches Ok(v) ==> v@ == unpacked(
                padded_data@,
                self.layout.unpadded as nat,
                self.layout.padded as nat,
                self.output.height as nat,
            ) && v@.len() == self.layout.unpadded * self.output.height,
            r matches Err(e) ==> e == PipelineError::TruncatedReadback,
    {
        unpack_rows(
            padded_data,
            self.layout.unpadded as usize,
            self.layout.padded as usize,
            self.output.height as usize,
        )
    }

    /// The plan is the one `plan_transform` makes for its fields.
    pub open spec fn wf(self, alignment: nat) -> bool {
        let out = self.transform.spec_output_extent(self.input);
        let tile = self.transform.spec_tile() as int;
        &&& self.input.width > 0
        &&& self.input.height > 0
        &&& self.output == out
        &&& self.workgroups.width == ceil_div(out.width as int, tile)
        &&& self.workgroups.height == ceil_div(out.height as int, tile)
        &&& self.layout.describes(out.width as nat, alignment)
        &&& self.staging_size == self.layout.padded * out.height
    }
}

/// Plans `transform` on an input of `input` with rows copied back at
/// multiples of `alignment` bytes. A zero width or height is refused with
/// `UnsupportedDomain`; a padded output row of more than `u32::MAX` bytes
/// cannot be described to the device and is refused with
/// `ResourceCreationFailed`.
pub fn plan_transform(transform: Transform, input: Extent, alignment: u32) -> (r: Result<
    TransformPlan,
    PipelineError,
>)
    requires
        alignment > 0,
        is_pow2(alignment as nat),
    ensures
        (input.width == 0 || input.height == 0) <==> r == Err::<TransformPlan, PipelineError>(
            PipelineError::UnsupportedDomain,
        ),
        r == Err::<TransformPlan, PipelineError>(PipelineError::ResourceCreationFailed) <==> (
        input.width > 0 && input.height > 0 && round_up(
            transform.spec_output_extent(input).width * BYTES_PER_PIXEL,
            alignment as int,
        ) > u32::MAX),
        r is Err ==> r == Err::<TransformPlan, PipelineError>(PipelineError::UnsupportedDomain)
            || r == Err::<TransformPlan, PipelineError>(PipelineError::ResourceCreationFailed),
        r matches Ok(p) ==> p.transform == transform && p.input == input && p.wf(
            alignment as nat,
        ),
        r matches Ok(p) ==> (transform matches Transform::Rotate(rot) && rot.swaps_axes()
            ==> p.output.width == input.height && p.output.height == input.width),
{
    if input.width == 0 || input.height == 0 {
        return Err(PipelineError::UnsupportedDomain);
    }
    let output = transform.output_extent(input);
    let layout = match RowLayout::for_width(output.width, alignment) {
        Some(l) => l,
        None => {
            return Err(PipelineError::ResourceCreationFailed);
        },
    };
    let tile = transform.tile();
    let workgroups = Extent {
        width: dispatch_count(output.width, tile),
        height: dispatch_count(output.height, tile),
    };
    proof {
        let (a, b) = (layout.padded as int, output.height as int);
        assert(a * b <= u32::MAX * u32::MAX) by (nonlinear_arith)
            requires 0 <= a <= u32::MAX, 0 <= b <= u32::MAX;
    }
    let staging_size = layout.padded as u64 * output.height as u64;
    Ok(TransformPlan { transform, input, output, workgroups, layout, staging_size })
}

} // verus!
