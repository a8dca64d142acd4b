//! The settings and markers of an exported channel, and the part of the
//! plugin that needs no engine.

use vstd::prelude::*;
use crate::readback::next_frame_id;
use crate::registry::ExportedImages;

verus! {

/// The name of the channel that is exported under no name of its own.
pub const DEFAULT_EXPORT_NAME: &'static str = "default_export";

/// The settings of an exported channel.
#[derive(Debug)]
pub struct ImageExportSettings {
    /// The name under which the channel's snapshot is registered.
    pub name: String,
}

impl Clone for ImageExportSettings {
    fn clone(&self) -> (settings: Self)
        ensures
            settings.name == self.name,
    {
        Self { name: self.name.clone() }
    }
}

impl ImageExportSettings {
    pub fn new(name: String) -> (settings: Self)
        ensures
            settings.name == name,
    {
        Self { name }
    }
}

impl Default for ImageExportSettings {
    fn default() -> (settings: Self)
        ensures
            settings.name@ == DEFAULT_EXPORT_NAME@,
    {
        Self { name: DEFAULT_EXPORT_NAME.to_owned() }
    }
}

/// The frame in which an exporter was set up.
#[derive(Clone, Copy, Debug)]
pub struct ImageExportStartFrame(u64);

impl View for ImageExportStartFrame {
    type V = u64;

    closed spec fn view(&self) -> u64 {
        self.0
    }
}

impl ImageExportStartFrame {
    /// The id of the frame.
    pub fn frame(&self) -> (frame_id: u64)
        ensures
            frame_id == self@,
    {
        self.0
    }
}

/// Starts a frame of the main world: the frame counter goes on by one, and
/// every exporter that has no start frame yet gets the one returned.
pub fn setup_exporters(frame_id: &mut u64) -> (start: ImageExportStartFrame)
    ensures
        *final(frame_id) == next_frame_id(*old(frame_id)),
        start@ == *final(frame_id),
{
    *frame_id = frame_id.wrapping_add(1);
    ImageExportStartFrame(*frame_id)
}

/// The two system sets of an export, in the order in which they run: first
/// the exporters are set up, then the commands that did so are applied.
#[derive(Debug, Hash, PartialEq, Eq, Clone, Copy)]
pub enum ImageExportSystems {
    SetupImageExport,
    SetupImageExportFlush,
}

/// The plugin that captures channels into CPU snapshots.
#[derive(Debug)]
pub struct GpuToCpuCpyPlugin;

impl Default for GpuToCpuCpyPlugin {
    fn default() -> Self {
        GpuToCpuCpyPlugin
    }
}

impl GpuToCpuCpyPlugin {
    /// The registry that the plugin hands to the main world and to the
    /// render world when it is built: no channel is registered yet.
    pub fn build(&self) -> (images: ExportedImages)
        ensures
            images.wf(),
            images@.is_empty(),
    {
        ExportedImages::new()
    }
}

} // verus!
