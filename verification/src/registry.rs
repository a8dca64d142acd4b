//! The named snapshots that consumers read.

use vstd::prelude::*;
use crate::pixels::{blank, cropped, PixelBuffer, PixelsView};
use crate::snapshot::{ImageWrapper, SnapshotView};

verus! {

/// A rectangle of an atlas, in pixels.
#[derive(Debug, Clone, Copy)]
pub struct ViewParams {
    pub x: u32,
    pub y: u32,
    pub width: u32,
    pub height: u32,
}

impl Default for ViewParams {
    fn default() -> (params: Self)
        ensures
            params == (ViewParams { x: 0, y: 0, width: 0, height: 0 }),
    {
        ViewParams { x: 0, y: 0, width: 0, height: 0 }
    }
}

struct Channel {
    name: String,
    image: ImageWrapper,
}

/// The latest snapshot of every channel, by channel name.
pub struct ExportedImages {
    channels: Vec<Channel>,
}

impl View for ExportedImages {
    type V = Map<Seq<char>, SnapshotView>;

    closed spec fn view(&self) -> Map<Seq<char>, SnapshotView> {
        Map::new(
            |name: Seq<char>| self.holds(name),
            |name: Seq<char>| self.channels[self.index_of(name)].image@,
        )
    }
}

impl Default for ExportedImages {
    fn default() -> (images: Self)
        ensures
            images.wf(),
            images@ == Map::<Seq<char>, SnapshotView>::empty(),
    {
        ExportedImages::new()
    }
}

impl ExportedImages {
    /// No two channels have the same name.
    pub closed spec fn wf(&self) -> bool {
        forall|i: int, j: int|
            0 <= i < j < self.channels.len() ==> self.channels[i].name@ != self.channels[j].name@
    }

    spec fn holds(&self, name: Seq<char>) -> bool {
        exists|i: int| 0 <= i < self.channels.len() && self.channels[i].name@ == name
    }

    spec fn index_of(&self, name: Seq<char>) -> int {
        choose|i: int| 0 <= i < self.channels.len() && self.channels[i].name@ == name
    }

    /// A channel is found by its name, and by its name alone.
    proof fn lemma_index(&self, name: Seq<char>, i: int)
        requires
            self.wf(),
            0 <= i < self.channels.len(),
            self.channels[i].name@ == name,
        ensures
            self.holds(name),
            self.index_of(name) == i,
            self@.contains_key(name),
            self@[name] == self.channels[i].image@,
    {
        let j = self.index_of(name);
        assert(0 <= j < self.channels.len() && self.channels[j].name@ == name);
        if j < i {
            assert(self.channels[j].name@ != self.channels[i].name@);
        }
        if i < j {
            assert(self.channels[i].name@ != self.channels[j].name@);
        }
    }

    /// Putting a snapshot at index `at`, under the name that was there or,
    /// behind the last channel, under a name that no channel has, changes
    /// the registry at that name alone.
    proof fn lemma_put(before: Self, after: Self, at: int)
        requires
            before.wf(),
            0 <= at <= before.channels.len(),
            at < before.channels.len() ==> after.channels.len() == before.channels.len(),
            at == before.channels.len() ==> after.channels.len() == before.channels.len() + 1,
            forall|k: int|
                0 <= k < before.channels.len() && k != at ==> #[trigger] after.channels[k]
                    == before.channels[k],
            at < before.channels.len() ==> after.channels[at].name@ == before.channels[at].name@,
            at == before.channels.len() ==> !before.holds(after.channels[at].name@),
        ensures
            after.wf(),
            after@ == before@.insert(after.channels[at].name@, after.channels[at].image@),
    {
        let key = after.channels[at].name@;
        let value = after.channels[at].image@;
        assert(after.wf()) by {
            assert forall|i: int, j: int| 0 <= i < j < after.channels.len() implies
                after.channels[i].name@ != after.channels[j].name@ by {
                if j < before.channels.len() {
                    assert(before.channels[i].name@ != before.channels[j].name@);
                } else {
                    assert(after.channels[i] == before.channels[i]);
                }
            }
        }
        after.lemma_index(key, at);
        assert forall|k: Seq<char>| #[trigger]
            after@.contains_key(k) == before@.insert(key, value).contains_key(k) by {
            if after.holds(k) && k != key {
                let j = after.index_of(k);
                assert(after.channels[j] == before.channels[j]);
                before.lemma_index(k, j);
            }
            if before.holds(k) && k != key {
                let j = before.index_of(k);
                assert(after.channels[j] == before.channels[j]);
                after.lemma_index(k, j);
            }
        }
        assert forall|k: Seq<char>| #[trigger] after@.contains_key(k) implies after@[k]
            == before@.insert(key, value)[k] by {
            if k != key {
                let j = after.index_of(k);
                assert(after.channels[j] == before.channels[j]);
                before.lemma_index(k, j);
                after.lemma_index(k, j);
            }
        }
        assert(after@ =~= before@.insert(key, value));
    }

    /// A registry without channels.
    pub fn new() -> (images: Self)
        ensures
            images.wf(),
            images@ == Map::<Seq<char>, SnapshotView>::empty(),
    {
        let images = ExportedImages { channels: Vec::new() };
        assert(images@ =~= Map::<Seq<char>, SnapshotView>::empty());
        images
    }

    fn position(&self, name: &String) -> (found: Option<usize>)
        requires
            self.wf(),
        ensures
            match found {
                Some(i) => i < self.channels.len() && self.channels[i as int].name@ == name@
                    && self.index_of(name@) == i,
                None => !self.holds(name@),
            },
    {
        let mut i: usize = 0;
        while i < self.channels.len()
            invariant
                self.wf(),
                i <= self.channels.len(),
                forall|k: int| 0 <= k < i ==> self.channels[k].name@ != name@,
            decreases self.channels.len() - i,
        {
            if self.channels[i].name == *name {
                proof {
                    self.lemma_index(name@, i as int);
                }
                return Some(i);
            }
            i = i + 1;
        }
        None
    }

    /// Whether no channel is registered.
    pub fn is_empty(&self) -> (empty: bool)
        ensures
            empty == self@.is_empty(),
    {
        let empty = self.channels.len() == 0;
        proof {
            if !empty {
                assert(self.holds(self.channels[0].name@));
                assert(self@.contains_key(self.channels[0].name@));
            } else {
                assert(self@.dom() =~= Set::<Seq<char>>::empty());
            }
        }
        empty
    }

    /// The snapshot of channel `name`, if there is such a channel.
    pub fn get(&self, name: &String) -> (found: Option<&ImageWrapper>)
        requires
            self.wf(),
        ensures
            match found {
                Some(image) => self@.contains_key(name@) && image@ == self@[name@],
                None => !self@.contains_key(name@),
            },
    {
        match self.position(name) {
            Some(i) => {
                proof {
                    self.lemma_index(name@, i as int);
                }
                Some(&self.channels[i].image)
            },
            None => None,
        }
    }

    /// Registers `image` as the snapshot of channel `name`, in place of the
    /// one that the channel had.
    pub fn insert(&mut self, name: String, image: ImageWrapper)
        requires
            old(self).wf(),
        ensures
            final(self).wf(),
            final(self)@ == old(self)@.insert(name@, image@),
    {
        let ghost at: int;
        match self.position(&name) {
            Some(i) => {
                proof {
                    at = i as int;
                }
                self.channels[i].image = image;
            },
            None => {
                proof {
                    at = self.channels.len() as int;
                }
                self.channels.push(Channel { name, image });
            },
        }
        proof {
            Self::lemma_put(*old(self), *self, at);
        }
    }

    /// Publishes a frame of channel `name`: the channel's pixels are
    /// overwritten in place by `image_bytes` and stamped with `frame_id`.
    /// Where no such channel is registered, nothing changes.
    pub fn publish(&mut self, name: &String, frame_id: u64, image_bytes: &Vec<u8>) -> (published:
        bool)
        requires
            old(self).wf(),
            old(self)@.contains_key(name@) ==> image_bytes@.len() == old(self)@[name@].pixels.bytes.len(),
        ensures
            final(self).wf(),
            published == old(self)@.contains_key(name@),
            final(self)@ == published_frame(old(self)@, name@, frame_id, image_bytes@),
    {
        match self.position(name) {
            Some(i) => {
                proof {
                    self.lemma_index(name@, i as int);
                }
                self.channels[i].image.update_data(frame_id, image_bytes);
                proof {
                    Self::lemma_put(*old(self), *self, i as int);
                }
                true
            },
            None => false,
        }
    }

    /// Whether `params` lies inside the atlas of channel `name`, or there is
    /// no such channel.
    pub fn can_view(&self, name: &String, params: &ViewParams) -> (inside: bool)
        requires
            self.wf(),
        ensures
            inside == region_fits(self@, name@, *params),
    {
        match self.get(name) {
            Some(image) => {
                let (width, height) = image.img_buffer.dimensions();
                params.width <= width && params.x <= width - params.width && params.height
                    <= height && params.y <= height - params.height
            },
            None => true,
        }
    }

    /// A copy of the rectangle `params` of the snapshot of channel `name`,
    /// with the snapshot's frame id. Where no such channel is registered,
    /// one zero pixel with frame id `0`.
    pub fn get_view(&self, name: &String, params: &ViewParams) -> (view: (PixelBuffer, u64))
        requires
            self.wf(),
            region_fits(self@, name@, *params),
        ensures
            (view.0@, view.1) == view_of(self@, name@, *params),
            view.0.wf(),
    {
        match self.get(name) {
            Some(image) => (
                image.img_buffer.crop(params.x, params.y, params.width, params.height),
                image.frame_id,
            ),
            None => (PixelBuffer::new(1, 1), 0),
        }
    }
}

/// The registry after a frame of channel `name` was published: the channel
/// has the new bytes and frame id and its old size, the others are as they
/// were. Without such a channel the registry is as it was.
pub open spec fn published_frame(
    images: Map<Seq<char>, SnapshotView>,
    name: Seq<char>,
    frame_id: u64,
    bytes: Seq<u8>,
) -> Map<Seq<char>, SnapshotView> {
    if images.contains_key(name) {
        images.insert(
            name,
            SnapshotView { pixels: PixelsView { bytes, ..images[name].pixels }, frame_id },
        )
    } else {
        images
    }
}

/// The rectangle `params` lies inside the atlas of channel `name`, or there
/// is no such channel.
pub open spec fn region_fits(
    images: Map<Seq<char>, SnapshotView>,
    name: Seq<char>,
    params: ViewParams,
) -> bool {
    images.contains_key(name) ==> {
        &&& params.x + params.width <= images[name].pixels.width
        &&& params.y + params.height <= images[name].pixels.height
    }
}

/// What a reader of channel `name` gets for the rectangle `params`.
pub open spec fn view_of(
    images: Map<Seq<char>, SnapshotView>,
    name: Seq<char>,
    params: ViewParams,
) -> (PixelsView, u64) {
    if images.contains_key(name) {
        (
            cropped(
                images[name].pixels,
                params.x as nat,
                params.y as nat,
                params.width as nat,
                params.height as nat,
            ),
            images[name].frame_id,
        )
    } else {
        (blank(1, 1), 0)
    }
}

/// Reading is repeatable: whatever two calls of [`ExportedImages::get_view`]
/// return for the same rectangle of the same channel of the same registry,
/// they return the same frame id, the same size and the same bytes.
pub proof fn lemma_read_is_repeatable(
    images: ExportedImages,
    name: String,
    params: ViewParams,
    first: (PixelBuffer, u64),
    second: (PixelBuffer, u64),
)
    requires
        call_ensures(ExportedImages::get_view, (&images, &name, &params), first),
        call_ensures(ExportedImages::get_view, (&images, &name, &params), second),
    ensures
        first.1 == second.1,
        first.0@.width == second.0@.width,
        first.0@.height == second.0@.height,
        first.0@.bytes == second.0@.bytes,
{
}

/// A read shows the frame that was published last: after a frame of channel
/// `name` was published, a reader of a rectangle inside the channel's atlas
/// gets the frame id and, of the published bytes, those of the rectangle.
pub proof fn lemma_read_after_publish(
    images: Map<Seq<char>, SnapshotView>,
    name: Seq<char>,
    frame_id: u64,
    bytes: Seq<u8>,
    params: ViewParams,
)
    requires
        images.contains_key(name),
    ensures
        view_of(published_frame(images, name, frame_id, bytes), name, params).1 == frame_id,
        view_of(published_frame(images, name, frame_id, bytes), name, params).0 == cropped(
            PixelsView { bytes, ..images[name].pixels },
            params.x as nat,
            params.y as nat,
            params.width as nat,
            params.height as nat,
        ),
{
}

/// Publishing a frame of one channel changes no other channel.
pub proof fn lemma_publish_is_local(
    images: Map<Seq<char>, SnapshotView>,
    name: Seq<char>,
    frame_id: u64,
    bytes: Seq<u8>,
    other: Seq<char>,
    params: ViewParams,
)
    requires
        other != name,
    ensures
        view_of(published_frame(images, name, frame_id, bytes), other, params) == view_of(
            images,
            other,
            params,
        ),
{
}

} // verus!
