//! The images that a window shows in turn.

use vstd::prelude::*;

verus! {

/// How many frames are prepared at a time.
pub const FRAMES_IN_FLIGHT: usize = 2;

pub const PRESENT_MODE_MAILBOX: i32 = 1;

pub const PRESENT_MODE_FIFO: i32 = 2;

pub const FORMAT_B8G8R8A8_UNORM: i32 = 44;

pub const FORMAT_B8G8R8A8_SRGB: i32 = 50;

pub const FORMAT_A2R10G10B10_UNORM_PACK32: i32 = 58;

pub const FORMAT_A2B10G10R10_UNORM_PACK32: i32 = 64;

pub const COLOR_SPACE_SRGB_NONLINEAR: i32 = 0;

pub const COLOR_SPACE_HDR10_ST2084: i32 = 1_000_104_008;

#[derive(Clone, Copy, Debug, PartialEq, Eq, Structural)]
pub enum VulkanOutputPreference {
    Sdr,
    Hdr10IfAvailable,
}

impl Default for VulkanOutputPreference {
    fn default() -> (preference: Self)
        ensures
            preference == VulkanOutputPreference::Sdr,
    {
        VulkanOutputPreference::Sdr
    }
}

/// Whether high dynamic range is asked for: only where it is preferred and colour
/// spaces beyond the usual one can be named.
pub fn requests_hdr10(preference: VulkanOutputPreference, extended_color_space: bool) -> (requests:
    bool)
    ensures
        requests == (preference == VulkanOutputPreference::Hdr10IfAvailable
            && extended_color_space),
{
    matches!(preference, VulkanOutputPreference::Hdr10IfAvailable) && extended_color_space
}

#[derive(Clone, Copy, Debug, PartialEq, Eq, Structural)]
pub struct Extent {
    pub width: u32,
    pub height: u32,
}

/// What a surface can do.
#[derive(Clone, Copy, Debug, PartialEq, Eq, Structural)]
pub struct SurfaceCapabilities {
    pub current_extent: Extent,
    pub min_image_extent: Extent,
    pub max_image_extent: Extent,
    pub min_image_count: u32,
    pub max_image_count: u32,
    /// One bit for each way to blend with what lies below.
    pub supported_composite_alpha: u32,
}

/// What a swap chain is made with.
#[derive(Clone, Copy, Debug, PartialEq, Eq, Structural)]
pub struct SwapchainPlan {
    pub extent: Extent,
    pub image_count: u32,
    pub present_mode: i32,
    pub composite_alpha: u32,
}

/// The surface knows no way to blend with what lies below.
#[derive(Clone, Copy, Debug, PartialEq, Eq, Structural)]
pub struct NoCompositeAlpha;

pub open spec fn spec_clamp(value: u32, low: u32, high: u32) -> u32 {
    if value < low {
        low
    } else if value > high {
        high
    } else {
        value
    }
}

fn clamp(value: u32, low: u32, high: u32) -> (result: u32)
    ensures
        result == spec_clamp(value, low, high),
{
    if value < low {
        low
    } else if value > high {
        high
    } else {
        value
    }
}

/// The size of the images: what the surface says, or the wanted size as far as the
/// surface allows it.
pub open spec fn spec_extent(capabilities: SurfaceCapabilities, width: u32, height: u32) -> Extent {
    if capabilities.current_extent.width != u32::MAX {
        capabilities.current_extent
    } else {
        Extent {
            width: spec_clamp(
                width,
                capabilities.min_image_extent.width,
                capabilities.max_image_extent.width,
            ),
            height: spec_clamp(
                height,
                capabilities.min_image_extent.height,
                capabilities.max_image_extent.height,
            ),
        }
    }
}

/// One image more than the least, but no more than the most. Zero stands for no
/// limit.
pub open spec fn spec_image_count(capabilities: SurfaceCapabilities) -> u32 {
    let wanted = if capabilities.min_image_count == u32::MAX {
        u32::MAX
    } else {
        (capabilities.min_image_count + 1) as u32
    };
    if capabilities.max_image_count != 0 && capabilities.max_image_count < wanted {
        capabilities.max_image_count
    } else {
        wanted
    }
}

/// Replacing the waiting image where that can be had, and queueing otherwise.
pub open spec fn spec_present_mode(modes: Seq<i32>) -> i32 {
    if modes.contains(PRESENT_MODE_MAILBOX) {
        PRESENT_MODE_MAILBOX
    } else {
        PRESENT_MODE_FIFO
    }
}

/// The first of the four ways to blend that the surface knows.
pub open spec fn spec_composite_alpha(supported: u32) -> Option<u32> {
    if supported % 2 == 1 {
        Some(1)
    } else if (supported / 2) % 2 == 1 {
        Some(2)
    } else if (supported / 4) % 2 == 1 {
        Some(4)
    } else if (supported / 8) % 2 == 1 {
        Some(8)
    } else {
        None
    }
}

fn composite_alpha(supported: u32) -> (mode: Option<u32>)
    ensures
        mode == spec_composite_alpha(supported),
{
    if supported % 2 == 1 {
        Some(1)
    } else if (supported / 2) % 2 == 1 {
        Some(2)
    } else if (supported / 4) % 2 == 1 {
        Some(4)
    } else if (supported / 8) % 2 == 1 {
        Some(8)
    } else {
        None
    }
}

fn present_mode(modes: &[i32]) -> (mode: i32)
    ensures
        mode == spec_present_mode(modes@),
{
    let mut index: usize = 0;
    while index < modes.len()
        invariant
            index <= modes@.len(),
            forall|i: int| 0 <= i < index ==> #[trigger] modes@[i] != PRESENT_MODE_MAILBOX,
        decreases modes@.len() - index,
    {
        if modes[index] == PRESENT_MODE_MAILBOX {
            assert(modes@.contains(modes@[index as int]));
            return PRESENT_MODE_MAILBOX;
        }
        index = index + 1;
    }
    PRESENT_MODE_FIFO
}

/// What the swap chain of a window is made with. Where the surface leaves the size
/// open, its limits are in order.
pub fn plan_swapchain(
    capabilities: SurfaceCapabilities,
    modes: &[i32],
    width: u32,
    height: u32,
) -> (plan: Result<SwapchainPlan, NoCompositeAlpha>)
    requires
        capabilities.current_extent.width == u32::MAX ==> {
            &&& capabilities.min_image_extent.width <= capabilities.max_image_extent.width
            &&& capabilities.min_image_extent.height <= capabilities.max_image_extent.height
        },
    ensures
        plan == match spec_composite_alpha(capabilities.supported_composite_alpha) {
            Some(composite_alpha) => Ok::<SwapchainPlan, NoCompositeAlpha>(
                SwapchainPlan {
                    extent: spec_extent(capabilities, width, height),
                    image_count: spec_image_count(capabilities),
                    present_mode: spec_present_mode(modes@),
                    composite_alpha,
                },
            ),
            None => Err(NoCompositeAlpha),
        },
{
    let extent: Extent = if capabilities.current_extent.width != u32::MAX {
        capabilities.current_extent
    } else {
        Extent {
            width: clamp(
                width,
                capabilities.min_image_extent.width,
                capabilities.max_image_extent.width,
            ),
            height: clamp(
                height,
                capabilities.min_image_extent.height,
                capabilities.max_image_extent.height,
            ),
        }
    };
    let mut image_count: u32 = capabilities.min_image_count.saturating_add(1);
    if capabilities.max_image_count != 0 && capabilities.max_image_count < image_count {
        image_count = capabilities.max_image_count;
    }
    match composite_alpha(capabilities.supported_composite_alpha) {
        Some(composite_alpha) => Ok(
            SwapchainPlan {
                extent,
                image_count,
                present_mode: present_mode(modes),
                composite_alpha,
            },
        ),
        None => Err(NoCompositeAlpha),
    }
}

#[derive(Clone, Copy, Debug, PartialEq, Eq, Structural)]
pub struct SurfaceFormat {
    pub format: i32,
    pub color_space: i32,
}

/// Ten bits for each colour, on the perceptual curve of high dynamic range.
pub open spec fn is_hdr10(format: SurfaceFormat) -> bool {
    &&& format.format == FORMAT_A2B10G10R10_UNORM_PACK32 || format.format
        == FORMAT_A2R10G10B10_UNORM_PACK32
    &&& format.color_space == COLOR_SPACE_HDR10_ST2084
}

/// Eight bits for each colour, on the usual curve.
pub open spec fn is_srgb(format: SurfaceFormat) -> bool {
    &&& format.format == FORMAT_B8G8R8A8_UNORM || format.format == FORMAT_B8G8R8A8_SRGB
    &&& format.color_space == COLOR_SPACE_SRGB_NONLINEAR
}

pub open spec fn suits(format: SurfaceFormat, hdr10: bool) -> bool {
    if hdr10 {
        is_hdr10(format)
    } else {
        is_srgb(format)
    }
}

/// The place of the first format that suits, or where there is none the number of
/// formats.
pub open spec fn first_suiting(formats: Seq<SurfaceFormat>, hdr10: bool) -> nat
    decreases formats.len(),
{
    if formats.len() == 0 {
        0
    } else if suits(formats[0], hdr10) {
        0
    } else {
        1 + first_suiting(formats.drop_first(), hdr10)
    }
}

fn find_suiting(formats: &[SurfaceFormat], hdr10: bool) -> (place: usize)
    ensures
        place == first_suiting(formats@, hdr10),
        place <= formats@.len(),
        place < formats@.len() ==> suits(formats@[place as int], hdr10),
{
    let mut index: usize = 0;
    assert(formats@.skip(0) =~= formats@);
    while index < formats.len()
        invariant
            index <= formats@.len(),
            first_suiting(formats@, hdr10) == index + first_suiting(
                formats@.skip(index as int),
                hdr10,
            ),
        decreases formats@.len() - index,
    {
        let format: SurfaceFormat = formats[index];
        assert(formats@.skip(index as int).drop_first() =~= formats@.skip(index + 1));
        let suiting: bool = if hdr10 {
            (format.format == FORMAT_A2B10G10R10_UNORM_PACK32 || format.format
                == FORMAT_A2R10G10B10_UNORM_PACK32) && format.color_space
                == COLOR_SPACE_HDR10_ST2084
        } else {
            (format.format == FORMAT_B8G8R8A8_UNORM || format.format == FORMAT_B8G8R8A8_SRGB)
                && format.color_space == COLOR_SPACE_SRGB_NONLINEAR
        };
        if suiting {
            return index;
        }
        index = index + 1;
    }
    index
}

/// The format of the images: the first for high dynamic range where that is asked
/// for, else the first usual one, else the first of all.
pub open spec fn spec_surface_format(formats: Seq<SurfaceFormat>, hdr10_requested: bool) -> Option<
    SurfaceFormat,
> {
    if formats.len() == 0 {
        None
    } else if hdr10_requested && first_suiting(formats, true) < formats.len() {
        Some(formats[first_suiting(formats, true) as int])
    } else if first_suiting(formats, false) < formats.len() {
        Some(formats[first_suiting(formats, false) as int])
    } else {
        Some(formats[0])
    }
}

pub fn select_surface_format(formats: &[SurfaceFormat], hdr10_requested: bool) -> (format: Option<
    SurfaceFormat,
>)
    ensures
        format == spec_surface_format(formats@, hdr10_requested),
{
    if formats.len() == 0 {
        return None;
    }
    if hdr10_requested {
        let place: usize = find_suiting(formats, true);
        if place < formats.len() {
            return Some(formats[place]);
        }
    }
    let place: usize = find_suiting(formats, false);
    if place < formats.len() {
        Some(formats[place])
    } else {
        Some(formats[0])
    }
}

/// Whether output in this format is of high dynamic range.
pub fn is_hdr10_output(format: SurfaceFormat) -> (result: bool)
    ensures
        result == (format.color_space == COLOR_SPACE_HDR10_ST2084),
{
    format.color_space == COLOR_SPACE_HDR10_ST2084
}

/// A window that does not prefer high dynamic range never gets it from a surface
/// that knows the usual format.
pub proof fn law_the_usual_format_is_kept(formats: Seq<SurfaceFormat>, place: int)
    requires
        0 <= place < formats.len(),
        is_srgb(formats[place]),
    ensures
        spec_surface_format(formats, false) matches Some(format) && is_srgb(format),
{
    lemma_first_suiting(formats, false, place);
}

/// A preference for high dynamic range is met wherever the surface can meet it.
pub proof fn law_hdr10_is_taken(formats: Seq<SurfaceFormat>, place: int)
    requires
        0 <= place < formats.len(),
        is_hdr10(formats[place]),
    ensures
        spec_surface_format(formats, true) matches Some(format) && is_hdr10(format),
{
    lemma_first_suiting(formats, true, place);
}

proof fn lemma_first_suiting(formats: Seq<SurfaceFormat>, hdr10: bool, place: int)
    requires
        0 <= place < formats.len(),
        suits(formats[place], hdr10),
    ensures
        first_suiting(formats, hdr10) <= place,
        suits(formats[first_suiting(formats, hdr10) as int], hdr10),
    decreases formats.len(),
{
    if !suits(formats[0], hdr10) {
        assert(formats.drop_first()[place - 1] == formats[place]);
        lemma_first_suiting(formats.drop_first(), hdr10, place - 1);
    }
}

/// Whether the images must be made anew: there are none, or the window has
/// another size.
pub fn needs_recreation(current: Option<Extent>, width: u32, height: u32) -> (needs: bool)
    ensures
        needs == (current != Some(Extent { width, height })),
{
    match current {
        None => true,
        Some(extent) => extent.width != width || extent.height != height,
    }
}

/// What became of a frame that was handed over for presentation.
#[derive(Clone, Copy, Debug, PartialEq, Eq, Structural)]
pub enum Presented {
    /// It is shown. The images may no longer suit the surface.
    Shown { suboptimal: bool },
    /// The images no longer match the surface.
    OutOfDate,
    Failed,
}

/// Whether the images are made anew after a frame; nothing where presenting it
/// failed.
pub fn after_presenting(presented: Presented, acquired_suboptimal: bool) -> (recreate: Option<bool>)
    ensures
        recreate == match presented {
            Presented::Shown { suboptimal } => Some(suboptimal || acquired_suboptimal),
            Presented::OutOfDate => Some(true),
            Presented::Failed => None,
        },
{
    match presented {
        Presented::Shown { suboptimal } => Some(suboptimal || acquired_suboptimal),
        Presented::OutOfDate => Some(true),
        Presented::Failed => None,
    }
}

/// The frame to prepare after this one.
pub fn next_frame(index: usize, count: usize) -> (next: usize)
    requires
        index < count,
    ensures
        next == (index + 1) % count as int,
        next < count,
{
    if index + 1 == count {
        assert((index + 1) % count as int == 0) by (nonlinear_arith)
            requires
                index + 1 == count,
        ;
        0
    } else {
        assert((index + 1) % count as int == index + 1) by (nonlinear_arith)
            requires
                0 <= index + 1 < count,
        ;
        index + 1
    }
}

/// How large the images are: as large as the surface is, where it says so, and
/// otherwise as large as the window, within the surface's limits on each side.
pub proof fn law_extent_of_images(capabilities: SurfaceCapabilities, width: u32, height: u32)
    requires
        capabilities.min_image_extent.width <= capabilities.max_image_extent.width,
        capabilities.min_image_extent.height <= capabilities.max_image_extent.height,
    ensures
        ({
            let extent = spec_extent(capabilities, width, height);
            let (least, most) = (capabilities.min_image_extent, capabilities.max_image_extent);
            let is_open = capabilities.current_extent.width == u32::MAX;
            &&& !is_open ==> extent == capabilities.current_extent
            &&& is_open ==> least.width <= extent.width <= most.width && least.height
                <= extent.height <= most.height
            &&& is_open && least.width <= width <= most.width ==> extent.width == width
            &&& is_open && width < least.width ==> extent.width == least.width
            &&& is_open && width > most.width ==> extent.width == most.width
            &&& is_open && least.height <= height <= most.height ==> extent.height == height
            &&& is_open && height < least.height ==> extent.height == least.height
            &&& is_open && height > most.height ==> extent.height == most.height
        }),
{
}

/// How many images there are: one more than the least, but no more than the
/// most, where there is a most.
pub proof fn law_number_of_images(capabilities: SurfaceCapabilities)
    requires
        capabilities.min_image_count < u32::MAX,
    ensures
        ({
            let count = spec_image_count(capabilities);
            let (least, most) = (capabilities.min_image_count, capabilities.max_image_count);
            &&& most == 0 || most > least ==> count == least + 1
            &&& most != 0 && most <= least ==> count == most
        }),
{
}

/// Images are shown without waiting where the surface can, and in turn where it
/// cannot. The first of the four ways to be composed that the surface has is
/// taken.
pub proof fn law_how_images_are_shown(modes: Seq<i32>, supported: u32)
    ensures
        spec_present_mode(modes) == 1 <==> exists|i: int|
            0 <= i < modes.len() && #[trigger] modes[i] == 1,
        spec_present_mode(modes) == 1 || spec_present_mode(modes) == 2,
        spec_composite_alpha(supported) == Some(1u32) <==> supported % 2 == 1,
        spec_composite_alpha(supported) == Some(2u32) <==> supported % 4 == 2,
        spec_composite_alpha(supported) == Some(4u32) <==> supported % 8 == 4,
        spec_composite_alpha(supported) == Some(8u32) <==> supported % 16 == 8,
        spec_composite_alpha(supported) is None <==> supported % 16 == 0,
{
}

/// Which format is taken: the first of high range where that is asked for and
/// there is one, then the first of the usual ones, then the first of all.
pub proof fn law_first_format_that_suits(formats: Seq<SurfaceFormat>, hdr10_requested: bool)
    ensures
        formats.len() == 0 <==> spec_surface_format(formats, hdr10_requested) is None,
        spec_surface_format(formats, hdr10_requested) matches Some(format) ==> exists|i: int|
            {
                &&& 0 <= i < formats.len()
                &&& #[trigger] formats[i] == format
                &&& {
                    ||| hdr10_requested && high_range(format) && forall|j: int|
                        0 <= j < i ==> !high_range(#[trigger] formats[j])
                    ||| usual(format) && (forall|j: int|
                        0 <= j < i ==> !usual(#[trigger] formats[j])) && (hdr10_requested
                        ==> forall|j: int|
                        0 <= j < formats.len() ==> !high_range(#[trigger] formats[j]))
                    ||| i == 0 && forall|j: int|
                        0 <= j < formats.len() ==> !usual(#[trigger] formats[j]) && !(
                        hdr10_requested && high_range(formats[j]))
                }
            },
{
    lemma_first_that_suits(formats, true);
    lemma_first_that_suits(formats, false);
    if formats.len() > 0 {
        let high = first_suiting(formats, true) as int;
        let common = first_suiting(formats, false) as int;
        if hdr10_requested && high < formats.len() {
            assert(suits(formats[high], true));
        } else if common < formats.len() {
            assert(suits(formats[common], false));
        } else {
            assert(formats[0] == formats[0]);
        }
    }
}

/// A format of ten bits in the color space of high range.
pub open spec fn high_range(format: SurfaceFormat) -> bool {
    (format.format == 64 || format.format == 58) && format.color_space == 1_000_104_008
}

/// A format of eight bits in the usual color space.
pub open spec fn usual(format: SurfaceFormat) -> bool {
    (format.format == 44 || format.format == 50) && format.color_space == 0
}

proof fn lemma_first_that_suits(formats: Seq<SurfaceFormat>, hdr10: bool)
    ensures
        ({
            let first = first_suiting(formats, hdr10) as int;
            &&& 0 <= first <= formats.len()
            &&& first < formats.len() ==> suits(formats[first], hdr10)
            &&& forall|j: int| 0 <= j < first ==> !suits(#[trigger] formats[j], hdr10)
        }),
    decreases formats.len(),
{
    if formats.len() > 0 && !suits(formats[0], hdr10) {
        let rest = formats.drop_first();
        lemma_first_that_suits(rest, hdr10);
        let first = first_suiting(formats, hdr10) as int;
        assert forall|j: int| 0 <= j < first implies !suits(#[trigger] formats[j], hdr10) by {
            if j > 0 {
                assert(rest[j - 1] == formats[j]);
            }
        }
    }
}

} // verus!
