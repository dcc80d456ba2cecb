//! Fetching the pixels of a terminal's images in chunks.

use vstd::prelude::*;
use std::collections::HashSet;

verus! {

/// The most bytes that are requested at once.
pub const TERMINAL_IMAGE_CHUNK_SIZE: u32 = 16777216;

/// Which image, and which of its generations.
#[derive(Clone, Copy, Debug, PartialEq, Eq, Structural)]
pub struct ImageKey {
    pub id: u32,
    pub generation: u64,
}

/// An image as a terminal announces it.
#[derive(Clone, Copy, Debug, PartialEq, Eq, Structural)]
pub struct ImageDescriptor {
    pub key: ImageKey,
    pub width: u32,
    pub height: u32,
}

/// What comes with a chunk of pixels.
#[derive(Clone, Copy, Debug, PartialEq, Eq, Structural)]
pub struct ChunkMetadata {
    pub key: ImageKey,
    pub width: u32,
    pub height: u32,
    pub total_length: u32,
    pub offset: u32,
    pub chunk_length: u32,
}

/// Why an image could not be fetched.
#[derive(Clone, Copy, Debug, PartialEq, Eq, Structural)]
pub enum ImageError {
    DimensionsOverflow,
    MetadataChanged,
    EndedEarly,
    TooLong,
}

impl ImageError {
    /// The error in words.
    pub fn message(self) -> (r: &'static str)
        ensures
            r@ == (match self {
                ImageError::DimensionsOverflow => "terminal image dimensions overflow"@,
                ImageError::MetadataChanged => "terminal image metadata changed during transfer"@,
                ImageError::EndedEarly => "terminal image transfer ended before all pixels arrived"@,
                ImageError::TooLong => "terminal image transfer exceeded its declared length"@,
            }),
    {
        match self {
            ImageError::DimensionsOverflow => "terminal image dimensions overflow",
            ImageError::MetadataChanged => "terminal image metadata changed during transfer",
            ImageError::EndedEarly => "terminal image transfer ended before all pixels arrived",
            ImageError::TooLong => "terminal image transfer exceeded its declared length",
        }
    }
}

/// An image that is being fetched: how many bytes it has, and those that have arrived.
#[derive(Debug)]
pub struct ImageTransfer {
    pub descriptor: ImageDescriptor,
    pub expected: u32,
    pub pixels: Vec<u8>,
}

/// The number of bytes of the image: four to a pixel.
pub open spec fn image_length(d: ImageDescriptor) -> int {
    d.width * d.height * 4
}

/// What is requested next.
#[derive(Clone, Copy, Debug, PartialEq, Eq, Structural)]
pub struct ChunkRequest {
    pub offset: u32,
    pub length: u32,
}

/// The first thing that is wrong with a chunk that arrived at `offset` and left `arrived` bytes.
pub open spec fn chunk_error(
    d: ImageDescriptor,
    expected: u32,
    offset: int,
    m: ChunkMetadata,
    arrived: int,
) -> Option<ImageError> {
    if m.key != d.key || m.width != d.width || m.height != d.height || m.total_length != expected
        || m.offset != offset {
        Some(ImageError::MetadataChanged)
    } else if m.chunk_length == 0 {
        Some(ImageError::EndedEarly)
    } else if arrived > expected {
        Some(ImageError::TooLong)
    } else {
        None
    }
}

impl ImageTransfer {
    /// The transfer fits the image and has not gone beyond it.
    pub open spec fn well_formed(&self) -> bool {
        self.expected == image_length(self.descriptor) && self.pixels@.len() <= self.expected
    }

    /// Starts fetching an image.
    pub fn begin(descriptor: ImageDescriptor) -> (r: Result<ImageTransfer, ImageError>)
        ensures
            match r {
                Ok(t) => t.well_formed() && t.descriptor == descriptor && t.pixels@.len() == 0,
                Err(e) => e == ImageError::DimensionsOverflow,
            },
            r is Ok <==> image_length(descriptor) <= u32::MAX,
    {
        let ghost w = descriptor.width as int;
        let ghost h = descriptor.height as int;
        assert(w * h * 4 == (w * h) * 4);
        assert(0 <= w * h) by (nonlinear_arith)
            requires
                0 <= w,
                0 <= h,
        ;
        match descriptor.width.checked_mul(descriptor.height) {
            Some(pixels) => match pixels.checked_mul(4) {
                Some(expected) => Ok(ImageTransfer { descriptor, expected, pixels: Vec::new() }),
                None => Err(ImageError::DimensionsOverflow),
            },
            None => Err(ImageError::DimensionsOverflow),
        }
    }

    /// What to request next, or `None` once all pixels are there.
    pub fn next_request(&self) -> (r: Option<ChunkRequest>)
        requires
            self.well_formed(),
        ensures
            match r {
                Some(q) => self.pixels@.len() < self.expected && q.offset == self.pixels@.len()
                    && q.length == TERMINAL_IMAGE_CHUNK_SIZE,
                None => self.pixels@.len() == self.expected,
            },
    {
        if self.pixels.len() < self.expected as usize {
            Some(
                ChunkRequest {
                    offset: self.pixels.len() as u32,
                    length: TERMINAL_IMAGE_CHUNK_SIZE,
                },
            )
        } else {
            None
        }
    }

    /// Takes a chunk: its bytes follow those that are there. Where something is wrong with it the
    /// transfer stays as it was.
    pub fn accept_chunk(&mut self, metadata: ChunkMetadata, bytes: &Vec<u8>) -> (r: Result<
        (),
        ImageError,
    >)
        requires
            old(self).well_formed(),
        ensures
            final(self).well_formed(),
            final(self).descriptor == old(self).descriptor,
            final(self).expected == old(self).expected,
            ({
                let error = chunk_error(
                    old(self).descriptor,
                    old(self).expected,
                    old(self).pixels@.len() as int,
                    metadata,
                    (old(self).pixels@.len() + bytes@.len()) as int,
                );
                match r {
                    Ok(_) => error is None && final(self).pixels@ == old(self).pixels@ + bytes@,
                    Err(e) => error == Some(e) && final(self).pixels@ == old(self).pixels@,
                }
            }),
    {
        let offset: usize = self.pixels.len();
        let d: ImageDescriptor = self.descriptor;
        if metadata.key != d.key || metadata.width != d.width || metadata.height != d.height
            || metadata.total_length != self.expected || metadata.offset as usize != offset {
            return Err(ImageError::MetadataChanged);
        }
        if metadata.chunk_length == 0 {
            return Err(ImageError::EndedEarly);
        }
        if bytes.len() > self.expected as usize - offset {
            return Err(ImageError::TooLong);
        }
        let mut i: usize = 0;
        while i < bytes.len()
            invariant
                i <= bytes@.len(),
                self.descriptor == old(self).descriptor,
                self.expected == old(self).expected,
                self.pixels@ == old(self).pixels@ + bytes@.take(i as int),
            decreases bytes@.len() - i,
        {
            self.pixels.push(bytes[i]);
            assert(self.pixels@ =~= old(self).pixels@ + bytes@.take(i + 1));
            i = i + 1;
        }
        assert(bytes@.take(i as int) =~= bytes@);
        Ok(())
    }
}

/// How long to wait before trying again after the given number of failed attempts; `None` where
/// the third attempt has failed and the error is final.
pub fn retry_delay_ms(failed_attempts: u32) -> (r: Option<u64>)
    ensures
        r == (if failed_attempts == 1 {
            Some(20u64)
        } else if failed_attempts == 2 {
            Some(40u64)
        } else {
            None
        }),
{
    if failed_attempts == 1 {
        Some(20)
    } else if failed_attempts == 2 {
        Some(40)
    } else {
        None
    }
}

/// Which images of a terminal are fetched now: those that are not there and of whose image no
/// generation is under way.
pub open spec fn fetched_now(d: ImageDescriptor, present: bool, in_flight: Set<u32>) -> bool {
    !present && !in_flight.contains(d.key.id)
}

/// The images to fetch and the images under way once they are fetched, image by image.
pub open spec fn schedule(
    images: Seq<ImageDescriptor>,
    present: Seq<bool>,
    in_flight: Set<u32>,
) -> (Seq<ImageDescriptor>, Set<u32>)
    decreases images.len(),
{
    if images.len() == 0 {
        (seq![], in_flight)
    } else {
        let (fetch, flying) = schedule(images.drop_last(), present, in_flight);
        let d = images.last();
        if fetched_now(d, present[images.len() - 1], flying) {
            (fetch.push(d), flying.insert(d.key.id))
        } else {
            (fetch, flying)
        }
    }
}

/// The images of a terminal to fetch now; `present[i]` says whether `images[i]` is there. The
/// images that are fetched are added to those under way.
pub fn schedule_terminal_images(
    images: &Vec<ImageDescriptor>,
    present: &Vec<bool>,
    in_flight: &mut HashSet<u32>,
) -> (r: Vec<ImageDescriptor>)
    requires
        present@.len() == images@.len(),
    ensures
        (r@, final(in_flight)@) == schedule(images@, present@, old(in_flight)@),
{
    let mut fetch: Vec<ImageDescriptor> = Vec::new();
    let mut i: usize = 0;
    assert(images@.take(0) =~= seq![]);
    while i < images.len()
        invariant
            i <= images@.len(),
            present@.len() == images@.len(),
            (fetch@, in_flight@) == schedule(images@.take(i as int), present@, old(in_flight)@),
        decreases images@.len() - i,
    {
        assert(images@.take(i + 1).drop_last() =~= images@.take(i as int));
        let d: ImageDescriptor = images[i];
        if !present[i] && !in_flight.contains(&d.key.id) {
            fetch.push(d);
            in_flight.insert(d.key.id);
        }
        i = i + 1;
    }
    assert(images@.take(i as int) =~= images@);
    fetch
}

/// No image is fetched twice at a time: those that are fetched now were not under way, they are
/// distinct, and they are under way afterwards.
pub proof fn an_image_is_fetched_once_at_a_time(
    images: Seq<ImageDescriptor>,
    present: Seq<bool>,
    in_flight: Set<u32>,
)
    ensures
        ({
            let (fetch, flying) = schedule(images, present, in_flight);
            &&& in_flight.subset_of(flying)
            &&& forall|a: int|
                0 <= a < fetch.len() ==> !in_flight.contains((#[trigger] fetch[a]).key.id)
                    && flying.contains(fetch[a].key.id)
            &&& forall|a: int, b: int|
                0 <= a < b < fetch.len() ==> (#[trigger] fetch[a]).key.id != (
                #[trigger] fetch[b]).key.id
        }),
    decreases images.len(),
{
    if images.len() > 0 {
        an_image_is_fetched_once_at_a_time(images.drop_last(), present, in_flight);
    }
}

/// Whether a fetched image is still wanted: the terminal still shows this generation.
pub fn is_still_live(images: &Vec<ImageDescriptor>, key: ImageKey) -> (r: bool)
    ensures
        r == exists|i: int| 0 <= i < images@.len() && (#[trigger] images@[i]).key == key,
{
    let mut i: usize = 0;
    while i < images.len()
        invariant
            i <= images@.len(),
            forall|j: int| 0 <= j < i ==> (#[trigger] images@[j]).key != key,
        decreases images@.len() - i,
    {
        if images[i].key == key {
            return true;
        }
        i = i + 1;
    }
    false
}

/// What follows once the transfer of an image has ended.
#[derive(Clone, Copy, Debug, PartialEq, Eq, Structural)]
pub struct ImageFollowUp {
    /// Whether the image is taken over.
    pub install: bool,
    /// Whether the images that the terminal shows now are looked through for the next transfer.
    pub schedule: bool,
    /// Whether a frame is due.
    pub frame: bool,
}

/// The terminal shows this generation of the image.
pub open spec fn shows_image(images: Option<&Vec<ImageDescriptor>>, key: ImageKey) -> bool {
    images matches Some(v) && exists|i: int| 0 <= i < v@.len() && (#[trigger] v@[i]).key == key
}

/// Takes the end of a transfer; `images` are those of the terminal, where its picture is known. The
/// image is no longer under way. One that came is taken over where the terminal still shows its
/// generation; the next transfer is looked for, and a frame is due, even where it came too late.
/// After a failure nothing follows.
pub fn finish_image_transfer(
    in_flight: &mut HashSet<u32>,
    key: ImageKey,
    fetched: bool,
    images: Option<&Vec<ImageDescriptor>>,
) -> (r: ImageFollowUp)
    ensures
        final(in_flight)@ == old(in_flight)@.remove(key.id),
        r == (ImageFollowUp {
            install: fetched && shows_image(images, key),
            schedule: fetched && images is Some,
            frame: fetched,
        }),
{
    in_flight.remove(&key.id);
    let live: bool = match images {
        Some(v) => is_still_live(v, key),
        None => false,
    };
    ImageFollowUp { install: fetched && live, schedule: fetched && images.is_some(), frame: fetched }
}

/// An image has four bytes for each of its points.
pub proof fn a_point_takes_four_bytes(d: ImageDescriptor)
    ensures
        image_length(d) == 4 * (d.width * d.height),
        d.width == 0 || d.height == 0 ==> image_length(d) == 0,
{
    let n = d.width * d.height;
    assert(image_length(d) == n * 4);
    if d.width == 0 || d.height == 0 {
        assert(d.width * d.height == 0) by (nonlinear_arith)
            requires
                d.width == 0 || d.height == 0,
        ;
    }
}

/// A piece of an image is taken exactly where it is of this image, of its size and from where it is
/// expected, is not empty, and does not go beyond the end; else the reason is told.
pub proof fn a_piece_is_taken_where_it_fits(
    d: ImageDescriptor,
    expected: u32,
    offset: int,
    m: ChunkMetadata,
    arrived: int,
)
    ensures
        ({
            let fits = m.key == d.key && m.width == d.width && m.height == d.height && m.total_length
                == expected && m.offset == offset;
            let error = chunk_error(d, expected, offset, m, arrived);
            &&& error is None <==> fits && m.chunk_length > 0 && arrived <= expected
            &&& !fits ==> error == Some(ImageError::MetadataChanged)
            &&& fits && m.chunk_length == 0 ==> error == Some(ImageError::EndedEarly)
            &&& fits && m.chunk_length > 0 && arrived > expected ==> error == Some(
                ImageError::TooLong,
            )
        }),
{
}

/// An image under way has no more bytes than it needs.
pub proof fn a_transfer_has_no_more_than_it_needs(t: ImageTransfer)
    ensures
        t.well_formed() ==> t.expected == image_length(t.descriptor) && t.pixels@.len()
            <= t.expected,
{
}

/// Every image that a terminal shows and that is neither there nor under way is fetched, or another
/// generation of it is; nothing else is fetched.
pub proof fn missing_images_are_fetched(
    images: Seq<ImageDescriptor>,
    present: Seq<bool>,
    in_flight: Set<u32>,
    i: int,
)
    requires
        0 <= i < images.len(),
    ensures
        ({
            let (fetch, flying) = schedule(images, present, in_flight);
            &&& !present[i] ==> flying.contains(images[i].key.id)
            &&& forall|a: int| #![trigger fetch[a]]
                0 <= a < fetch.len() ==> exists|k: int|
                    0 <= k < images.len() && !present[k] && #[trigger] images[k] == fetch[a]
        }),
    decreases images.len(),
{
    let rest = images.drop_last();
    let (f, g) = schedule(rest, present, in_flight);
    let (fetch, flying) = schedule(images, present, in_flight);
    if i < rest.len() {
        missing_images_are_fetched(rest, present, in_flight, i);
        assert(rest[i] == images[i]);
    } else if rest.len() > 0 {
        missing_images_are_fetched(rest, present, in_flight, 0);
    }
    assert forall|a: int| #![trigger fetch[a]] 0 <= a < fetch.len() implies exists|k: int|
        0 <= k < images.len() && !present[k] && #[trigger] images[k] == fetch[a] by {
        if a < f.len() {
            assert(fetch[a] == f[a]);
            let k = choose|k: int| 0 <= k < rest.len() && !present[k] && #[trigger] rest[k] == f[a];
            assert(images[k] == fetch[a]);
        } else {
            assert(images[images.len() - 1] == fetch[a]);
        }
    }
}

/// An image is fetched now exactly where it is not there and none of its generations is under way.
pub proof fn an_image_under_way_waits(d: ImageDescriptor, present: bool, in_flight: Set<u32>)
    ensures
        fetched_now(d, present, in_flight) <==> !present && !in_flight.contains(d.key.id),
{
}

/// A terminal shows an image only where it lists that generation of it.
pub proof fn a_listed_image_is_shown(images: Option<&Vec<ImageDescriptor>>, key: ImageKey, i: int)
    ensures
        images is None ==> !shows_image(images, key),
        images is Some && 0 <= i < images->0@.len() && images->0@[i].key == key ==> shows_image(
            images,
            key,
        ),
        shows_image(images, key) ==> images is Some && images->0@.len() > 0,
{
}

} // verus!
