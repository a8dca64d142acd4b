//! The vision sensor of an agent: one line of its view of the atlas.

use vstd::prelude::*;
use vstd::slice::{slice_subrange, slice_to_vec};
use crate::pixels::PixelsView;
use crate::registry::{region_fits, view_of, ExportedImages, ViewParams};

verus! {

/// The line of a view that a vision sensor reads.
pub const SENSED_ROW: u32 = 25;

/// What surrounds a sensor.
#[derive(Clone, Copy, Debug)]
pub enum Environment {
    VisibleEnvironment,
}

/// A vision sensor: its id and, once it was given a place in the atlas, the
/// rectangle that it sees.
#[derive(Clone, Copy, Debug)]
pub struct Vision {
    pub id: isize,
    pub visual_sensor: Option<ViewParams>,
}

impl Default for Vision {
    fn default() -> (vision: Self)
        ensures
            vision.id == 0,
            vision.visual_sensor is None,
    {
        Vision { id: 0, visual_sensor: None }
    }
}

/// The bytes that a sensor reads of a view: as many bytes as the view is
/// wide in pixels, from byte `SENSED_ROW * width` on, where the view holds
/// that many.
pub open spec fn sensed_bytes(view: PixelsView) -> Option<Seq<u8>> {
    let start = SENSED_ROW * view.width;
    let end = start + view.width;
    if start < view.bytes.len() && end <= view.bytes.len() {
        Some(view.bytes.subrange(start as int, end as int))
    } else {
        None
    }
}

impl Vision {
    /// What the sensor sees in channel `channel`: the sensed bytes of its
    /// rectangle of the channel's snapshot. A sensor without a rectangle
    /// sees nothing.
    pub fn sense(&self, environment: Environment, images: &ExportedImages, channel: &String) -> (
    sensation: Option<Vec<u8>>)
        requires
            images.wf(),
            self.visual_sensor matches Some(params) ==> region_fits(images@, channel@, params),
        ensures
            match self.visual_sensor {
                Some(params) => match sensed_bytes(view_of(images@, channel@, params).0) {
                    Some(bytes) => sensation matches Some(row) && row@ == bytes,
                    None => sensation is None,
                },
                None => sensation is None,
            },
    {
        match environment {
            Environment::VisibleEnvironment => {
                match &self.visual_sensor {
                    Some(view_params) => {
                        let (image, _frame_id) = images.get_view(channel, view_params);
                        let width: u64 = image.dimensions().0 as u64;
                        let raw = image.as_raw();
                        assert(SENSED_ROW * width <= 25 * 0xffff_ffff) by (nonlinear_arith)
                            requires
                                SENSED_ROW == 25,
                                0 <= width <= 0xffff_ffff,
                        ;
                        let start: u64 = (SENSED_ROW as u64) * width;
                        let end: u64 = start + width;
                        let len: u64 = raw.len() as u64;
                        let region_is_valid = start < len && end <= len;
                        if region_is_valid {
                            Some(
                                slice_to_vec(
                                    slice_subrange(raw.as_slice(), start as usize, end as usize),
                                ),
                            )
                        } else {
                            None
                        }
                    },
                    None => None,
                }
            },
        }
    }
}

} // verus!
