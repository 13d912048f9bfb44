use vstd::prelude::*;

verus! {

/// A switch from one application mode to another; after installation
/// completes, the application enters the main mode.
pub enum ModeTransition {
    PoB,
}

/// Whether a frame's GPU work may be skipped and the previous image
/// re-presented: the frame's content hash matches the previous frame's,
/// no texture uploads or frees are pending, and no redraw was forced.
pub fn frame_identical(
    layers_hash: u64,
    previous_layers_hash: u64,
    textures_delta_empty: bool,
    force_render: bool,
) -> (r: bool)
    ensures
        r == (layers_hash == previous_layers_hash && textures_delta_empty && !force_render),
{
    layers_hash == previous_layers_hash && textures_delta_empty && !force_render
}

} // verus!
