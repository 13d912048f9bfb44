//! The rendering core of an immediate-mode, script-driven 2D user
//! interface: a scripting host issues rectangle, quad and text draw
//! calls each frame, and this crate turns them into batched GPU draw
//! data with correct clipping, z-ordering and minimal redundant work.
//!
//! The pipeline runs once per frame on one thread: [`layers::Layers`]
//! buckets the issued primitives by (layer, sublayer) key and stamps
//! them with the active viewport; [`fonts::Fonts`] resolves styled text
//! into positioned glyphs backed by a packed [`fonts::atlas::FontAtlas`]
//! and two caches swept by generation; and
//! [`renderer::tessellator::Tessellator`] folds the ordered primitive
//! stream into one mesh per contiguous run sharing a clip rectangle and
//! texture. A structural content hash over the frame lets the caller
//! skip GPU work for a frame identical to the previous one.
//!
//! Geometry is held in fixed-point units of [`math::PX_ONE`] per pixel.
//! Shaping and rasterization stay outside: the caller hands in shaped
//! glyph runs as plain values and rasterizes exactly the glyphs the
//! engine requests.

use vstd::prelude::*;

pub mod color;
pub mod math;
pub mod dpi;
pub mod fonts;
pub mod hashing;
pub mod layers;
pub mod renderer;
pub mod std_contracts;
pub mod mode;
pub mod text;

pub use color::Srgba;

verus! {

} // verus!
