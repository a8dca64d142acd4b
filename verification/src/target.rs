//! Setting up the render target of a channel.

use vstd::prelude::*;
use crate::layout::{
    atlas_dimensions, atlas_size, calculate_grid_dimensions, can_pack, grid_fits, is_grid_layout,
    is_packing,
};
use crate::pixels::{blank, rgba_len};
use crate::registry::{published_frame, region_fits, ExportedImages, ViewParams};
use crate::snapshot::{ImageWrapper, SnapshotView};

verus! {

/// The inputs for which a render target can be set up: the views can be
/// laid out, both sides of the atlas fit in `u32`, and the bytes of the
/// atlas fit in memory.
pub open spec fn target_fits(viewport_size: (u32, u32), num_views: u32) -> bool {
    let atlas = atlas_size(viewport_size.0 as nat, viewport_size.1 as nat, num_views as nat);
    &&& grid_fits(viewport_size.0, viewport_size.1, num_views)
    &&& atlas.0 <= u32::MAX
    &&& atlas.1 <= u32::MAX
    &&& rgba_len(atlas.0, atlas.1) <= isize::MAX
}

/// Whether a render target for `num_views` views of `viewport_size` pixels
/// can be set up.
pub fn can_setup_render_target(viewport_size: (u32, u32), num_views: u32) -> (fits: bool)
    ensures
        fits == target_fits(viewport_size, num_views),
{
    if !can_pack(viewport_size.0, viewport_size.1, num_views) {
        return false;
    }
    let (tex_width, tex_height) = atlas_dimensions(viewport_size.0, viewport_size.1, num_views);
    if tex_width > u32::MAX as usize || tex_height > u32::MAX as usize {
        return false;
    }
    proof {
        assert(4 * tex_width * tex_height <= 4 * 0xffff_ffff * 0xffff_ffff) by (nonlinear_arith)
            requires
                0 <= tex_width <= 0xffff_ffff,
                0 <= tex_height <= 0xffff_ffff,
        ;
    }
    4 * (tex_width as u128) * (tex_height as u128) <= isize::MAX as u128
}

/// The rectangle of a view of `viewport_size` pixels whose top left corner
/// is at `offset`.
pub open spec fn view_rectangle(offset: (u32, u32), viewport_size: (u32, u32)) -> ViewParams {
    ViewParams { x: offset.0, y: offset.1, width: viewport_size.0, height: viewport_size.1 }
}

/// The rectangle of every view of a layout, in the order of the views.
pub fn view_rectangles(viewport_size: (u32, u32), viewports: &Vec<(u32, u32)>) -> (views: Vec<
    ViewParams,
>)
    ensures
        views@.len() == viewports@.len(),
        forall|i: int|
            0 <= i < views@.len() ==> #[trigger] views@[i] == view_rectangle(
                viewports@[i],
                viewport_size,
            ),
{
    let mut views: Vec<ViewParams> = Vec::with_capacity(viewports.len());
    let mut i: usize = 0;
    while i < viewports.len()
        invariant
            i <= viewports@.len(),
            views@.len() == i,
            forall|k: int|
                0 <= k < i ==> #[trigger] views@[k] == view_rectangle(viewports@[k], viewport_size),
        decreases viewports@.len() - i,
    {
        views.push(
            ViewParams {
                x: viewports[i].0,
                y: viewports[i].1,
                width: viewport_size.0,
                height: viewport_size.1,
            },
        );
        i = i + 1;
    }
    views
}

/// The views of a layout can be read: every rectangle of a packing lies
/// inside a snapshot that has the size of the packing's atlas.
pub proof fn lemma_views_fit_target(
    images: Map<Seq<char>, SnapshotView>,
    name: Seq<char>,
    offsets: Seq<(u32, u32)>,
    viewport_size: (u32, u32),
    i: int,
)
    requires
        images.contains_key(name),
        is_packing(
            (images[name].pixels.width, images[name].pixels.height),
            offsets,
            viewport_size.0 as nat,
            viewport_size.1 as nat,
        ),
        0 <= i < offsets.len(),
    ensures
        region_fits(images, name, view_rectangle(offsets[i], viewport_size)),
{
}

/// Publishing a frame changes the size of no snapshot: a rectangle that
/// could be read before can be read after.
pub proof fn lemma_publish_keeps_regions(
    images: Map<Seq<char>, SnapshotView>,
    published: Seq<char>,
    frame_id: u64,
    bytes: Seq<u8>,
    name: Seq<char>,
    params: ViewParams,
)
    requires
        region_fits(images, name, params),
    ensures
        region_fits(published_frame(images, published, frame_id, bytes), name, params),
        published_frame(images, published, frame_id, bytes).dom() == images.dom(),
{
    assert(published_frame(images, published, frame_id, bytes).dom() =~= images.dom());
}

/// Sets up channel `target_name` for `num_views` views of `viewport_size`
/// pixels: lays the views out in an atlas and registers a blank snapshot of
/// the atlas under the channel's name. Returns the size of the atlas
/// texture and the top left corner of every view.
pub fn setup_render_target(
    target_name: &String,
    exported_images: &mut ExportedImages,
    viewport_size: (u32, u32),
    num_views: u32,
) -> (target: ((u32, u32), Vec<(u32, u32)>))
    requires
        old(exported_images).wf(),
        target_fits(viewport_size, num_views),
    ensures
        final(exported_images).wf(),
        ((target.0).0 as nat, (target.0).1 as nat) == atlas_size(
            viewport_size.0 as nat,
            viewport_size.1 as nat,
            num_views as nat,
        ),
        is_grid_layout(
            target.1@,
            viewport_size.0 as nat,
            viewport_size.1 as nat,
            num_views as nat,
        ),
        is_packing(
            ((target.0).0 as nat, (target.0).1 as nat),
            target.1@,
            viewport_size.0 as nat,
            viewport_size.1 as nat,
        ),
        final(exported_images)@ == old(exported_images)@.insert(
            target_name@,
            SnapshotView { pixels: blank((target.0).0 as nat, (target.0).1 as nat), frame_id: 0 },
        ),
        forall|i: int|
            0 <= i < target.1@.len() ==> region_fits(
                final(exported_images)@,
                target_name@,
                view_rectangle(#[trigger] target.1@[i], viewport_size),
            ),
{
    let ((tex_width, tex_height), viewports) = calculate_grid_dimensions(
        viewport_size.0,
        viewport_size.1,
        num_views,
    );
    let size: (u32, u32) = (tex_width as u32, tex_height as u32);
    let export_image = ImageWrapper::new(size.0, size.1);
    exported_images.insert(target_name.clone(), export_image);
    (size, viewports)
}

} // verus!
