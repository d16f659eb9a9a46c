//! The choices made when a device and a swapchain are set up: which queue
//! family serves, how many images the swapchain gets, how large they are,
//! and how they are presented.

use vstd::prelude::*;

verus! {

/// The bit of queues that draw.
pub const QUEUE_GRAPHICS: u32 = 0x1;

/// The bit of queues that compute.
pub const QUEUE_COMPUTE: u32 = 0x2;

/// The bit of the transform that leaves an image as it is.
pub const TRANSFORM_IDENTITY: u32 = 0x1;

/// Presentation as soon as an image is ready, the newest replacing one that
/// waits.
pub const PRESENT_MODE_MAILBOX: i32 = 1;

/// Presentation in the order of submission, one image per refresh.
pub const PRESENT_MODE_FIFO: i32 = 2;

/// The format code that stands for "no preference".
pub const FORMAT_UNDEFINED: i32 = 0;

/// The format code of three 8 bit channels, blue first.
pub const FORMAT_B8G8R8_UNORM: i32 = 30;

/// A width that says that the surface takes its size from the swapchain.
pub const EXTENT_FROM_SWAPCHAIN: u32 = 0xffff_ffff;

#[derive(Clone, Copy, Debug, PartialEq, Eq, Structural)]
pub struct SurfaceFormat {
    pub format: i32,
    pub color_space: i32,
}

#[derive(Clone, Copy, Debug, PartialEq, Eq, Structural)]
pub struct Extent2D {
    pub width: u32,
    pub height: u32,
}

/// Whether queues with these capabilities both draw and compute.
pub open spec fn spec_draws_and_computes(queue_flags: u32) -> bool {
    queue_flags & QUEUE_GRAPHICS == QUEUE_GRAPHICS && queue_flags & QUEUE_COMPUTE == QUEUE_COMPUTE
}

#[verifier::when_used_as_spec(spec_draws_and_computes)]
pub fn draws_and_computes(queue_flags: u32) -> (b: bool)
    ensures
        b == spec_draws_and_computes(queue_flags),
{
    queue_flags & QUEUE_GRAPHICS == QUEUE_GRAPHICS && queue_flags & QUEUE_COMPUTE == QUEUE_COMPUTE
}

/// Finds the first queue family that draws, computes and can present to the
/// surface. `presents` is asked about each family in turn, up to the one
/// that is found, whatever its capabilities.
pub fn find_queue_family<F: Fn(usize) -> bool>(
    queue_flags: &Vec<u32>,
    presents: F,
) -> (found: Option<usize>)
    requires
        forall|index: usize| call_requires(presents, (index,)),
    ensures
        match found {
            Some(index) => {
                &&& index < queue_flags.len()
                &&& spec_draws_and_computes(queue_flags@[index as int])
                &&& call_ensures(presents, (index,), true)
                &&& forall|j: int|
                    0 <= j < index && spec_draws_and_computes(#[trigger] queue_flags@[j])
                        ==> call_ensures(presents, (j as usize,), false)
            },
            None => forall|j: int|
                0 <= j < queue_flags.len() && spec_draws_and_computes(#[trigger] queue_flags@[j])
                    ==> call_ensures(presents, (j as usize,), false),
        },
{
    let mut index: usize = 0;
    while index < queue_flags.len()
        invariant
            index <= queue_flags.len(),
            forall|index: usize| call_requires(presents, (index,)),
            forall|j: int|
                0 <= j < index && spec_draws_and_computes(#[trigger] queue_flags@[j])
                    ==> call_ensures(presents, (j as usize,), false),
        decreases queue_flags.len() - index,
    {
        let surface_support = presents(index);
        if draws_and_computes(queue_flags[index]) && surface_support {
            return Some(index);
        }
        index += 1;
    }
    None
}

/// The format of the swapchain images: the first that the surface offers,
/// with a format of the program's choice where the surface has no
/// preference.
pub fn surface_format(surface_formats: &Vec<SurfaceFormat>) -> (chosen: Option<SurfaceFormat>)
    ensures
        chosen == if surface_formats@.len() == 0 {
            None
        } else if surface_formats@[0].format == FORMAT_UNDEFINED {
            Some(
                SurfaceFormat {
                    format: FORMAT_B8G8R8_UNORM,
                    color_space: surface_formats@[0].color_space,
                },
            )
        } else {
            Some(surface_formats@[0])
        },
{
    if surface_formats.len() == 0 {
        return None;
    }
    let first = surface_formats[0];
    if first.format == FORMAT_UNDEFINED {
        Some(SurfaceFormat { format: FORMAT_B8G8R8_UNORM, color_space: first.color_space })
    } else {
        Some(first)
    }
}

/// The number of swapchain images to ask for: one more than the least, but
/// no more than the most, where the surface names a most.
pub fn desired_image_count(min_image_count: u32, max_image_count: u32) -> (count: u32)
    requires
        min_image_count < u32::MAX,
    ensures
        count == if max_image_count > 0 && min_image_count + 1 > max_image_count {
            max_image_count
        } else {
            (min_image_count + 1) as u32
        },
{
    let mut desired_image_count: u32 = min_image_count + 1;
    if max_image_count > 0 && desired_image_count > max_image_count {
        desired_image_count = max_image_count;
    }
    desired_image_count
}

/// The size of the swapchain images: that of the surface, or that of the
/// window where the surface leaves the size open.
pub fn surface_resolution(
    current_extent: Extent2D,
    window_width: u32,
    window_height: u32,
) -> (extent: Extent2D)
    ensures
        extent == if current_extent.width == EXTENT_FROM_SWAPCHAIN {
            (Extent2D { width: window_width, height: window_height })
        } else {
            current_extent
        },
{
    if current_extent.width == EXTENT_FROM_SWAPCHAIN {
        Extent2D { width: window_width, height: window_height }
    } else {
        current_extent
    }
}

/// The transform applied before presentation: none, where the surface
/// supports that; otherwise the one it has.
pub fn pre_transform(supported_transforms: u32, current_transform: u32) -> (transform: u32)
    ensures
        transform == if supported_transforms & TRANSFORM_IDENTITY == TRANSFORM_IDENTITY {
            TRANSFORM_IDENTITY
        } else {
            current_transform
        },
{
    if supported_transforms & TRANSFORM_IDENTITY == TRANSFORM_IDENTITY {
        TRANSFORM_IDENTITY
    } else {
        current_transform
    }
}

/// How images are presented: in order, where the surface offers that;
/// otherwise as soon as ready.
pub fn present_mode(present_modes: &Vec<i32>) -> (mode: i32)
    ensures
        mode == if present_modes@.contains(PRESENT_MODE_FIFO) {
            PRESENT_MODE_FIFO
        } else {
            PRESENT_MODE_MAILBOX
        },
{
    let mut i: usize = 0;
    while i < present_modes.len()
        invariant
            i <= present_modes.len(),
            forall|j: int| 0 <= j < i ==> present_modes@[j] != PRESENT_MODE_FIFO,
        decreases present_modes.len() - i,
    {
        if present_modes[i] == PRESENT_MODE_FIFO {
            return PRESENT_MODE_FIFO;
        }
        i += 1;
    }
    PRESENT_MODE_MAILBOX
}

} // verus!
