//! Host-side logic of a GPU compute pipeline: row layouts for texture
//! readback, workgroup dispatch sizing, unpacking of padded readback buffers,
//! per-transform planning, the order of an invocation's steps, and a CPU
//! conversion of semi-planar 4:2:0 frames to RGBA.
mod dispatch;
mod error;
mod layout;
mod readback;
mod session;
mod transform;
mod yuv;

pub use dispatch::{compute_work_group_count, dispatch_count, lemma_dispatch_covers};
pub use error::PipelineError;
pub use layout::{is_valid_alignment, lemma_round_up, padded_stride, RowLayout, BYTES_PER_PIXEL};
pub use readback::{lemma_unpack_of_pad, lemma_unpack_unpadded, lemma_unpacked_len, pad_rows, unpack_rows};
pub use session::{after_successes, lemma_invocation_completes, Outcome, Step};
pub use transform::{plan_transform, BindingLayout, Extent, Rotation, Transform, TransformPlan};
pub use yuv::{chroma_extent, split_planes, yuv_to_rgba_cpu};
