//! The planes of a decoded frame that lies in shared buffers.

use crate::bytes::same;
use vstd::prelude::*;

verus! {

pub const FORMAT_R8_UNORM: i32 = 9;

pub const FORMAT_R8G8_UNORM: i32 = 16;

pub const FORMAT_R16_UNORM: i32 = 70;

pub const FORMAT_R16G16_UNORM: i32 = 77;

pub const EGL_NONE: i32 = 0x3038;

pub const EGL_HEIGHT: i32 = 0x3056;

pub const EGL_WIDTH: i32 = 0x3057;

pub const EGL_LINUX_DRM_FOURCC_EXT: i32 = 0x3271;

pub const EGL_DMA_BUF_PLANE0_FD_EXT: i32 = 0x3272;

pub const EGL_DMA_BUF_PLANE0_OFFSET_EXT: i32 = 0x3273;

pub const EGL_DMA_BUF_PLANE0_PITCH_EXT: i32 = 0x3274;

pub const EGL_DMA_BUF_PLANE0_MODIFIER_LO_EXT: i32 = 0x3443;

pub const EGL_DMA_BUF_PLANE0_MODIFIER_HI_EXT: i32 = 0x3444;

/// The layout of the samples of a frame: one plane of luma, and one of half the
/// size with both chroma samples.
#[derive(Clone, Copy, Debug, PartialEq, Eq, Structural)]
pub enum DmaBufFrameFormat {
    /// Eight bits for each sample.
    Nv12,
    /// Ten bits for each sample, in sixteen.
    P010,
}

#[derive(Clone, Copy, Debug, PartialEq, Eq, Structural)]
pub struct FramePlane {
    pub object_index: usize,
    pub offset: i64,
    pub pitch: i64,
}

#[derive(Clone, Debug)]
pub struct FrameLayer {
    pub format: u32,
    pub planes: Vec<FramePlane>,
}

/// A buffer that holds planes.
#[derive(Clone, Copy, Debug, PartialEq, Eq, Structural)]
pub struct FrameObject {
    pub fd: i32,
    pub size: usize,
    pub format_modifier: u64,
}

#[derive(Clone, Debug)]
pub struct FrameDescription {
    pub width: u32,
    pub height: u32,
    pub format: Option<DmaBufFrameFormat>,
    pub layers: Vec<FrameLayer>,
    pub objects: Vec<FrameObject>,
}

/// Why a frame cannot be shown.
#[derive(Clone, Copy, Debug, PartialEq, Eq, Structural)]
pub enum FrameFault {
    UnsupportedFormat,
    MissingLayer,
    SeveralPlanes,
    MissingObject,
    NegativeOffset,
    NegativePitch,
    /// A number does not fit the attribute that carries it.
    OutOfRange,
    /// The frame has not two layers.
    LayerCount,
}

/// Half of `size`, rounded up.
pub open spec fn spec_half(size: u32) -> u32 {
    ((size + 1) / 2) as u32
}

fn half(size: u32) -> (half: u32)
    ensures
        half == spec_half(size),
{
    size / 2 + size % 2
}

/// The size of a layer: that of the frame for luma, half of it for chroma.
pub open spec fn spec_layer_size(width: u32, height: u32, layer: int) -> (u32, u32) {
    if layer == 0 {
        (width, height)
    } else {
        (spec_half(width), spec_half(height))
    }
}

pub fn layer_size(width: u32, height: u32, layer: usize) -> (size: (u32, u32))
    ensures
        size == spec_layer_size(width, height, layer as int),
{
    if layer == 0 {
        (width, height)
    } else {
        (half(width), half(height))
    }
}

/// The formats in which the two planes are sampled.
pub open spec fn spec_plane_formats(format: Option<DmaBufFrameFormat>) -> Result<
    (i32, i32),
    FrameFault,
> {
    match format {
        Some(DmaBufFrameFormat::Nv12) => Ok((FORMAT_R8_UNORM, FORMAT_R8G8_UNORM)),
        Some(DmaBufFrameFormat::P010) => Ok((FORMAT_R16_UNORM, FORMAT_R16G16_UNORM)),
        None => Err(FrameFault::UnsupportedFormat),
    }
}

pub fn plane_formats(format: Option<DmaBufFrameFormat>) -> (formats: Result<
    (i32, i32),
    FrameFault,
>)
    ensures
        formats == spec_plane_formats(format),
{
    match format {
        Some(DmaBufFrameFormat::Nv12) => Ok((FORMAT_R8_UNORM, FORMAT_R8G8_UNORM)),
        Some(DmaBufFrameFormat::P010) => Ok((FORMAT_R16_UNORM, FORMAT_R16G16_UNORM)),
        None => Err(FrameFault::UnsupportedFormat),
    }
}

/// The one plane of a layer, and the buffer it lies in.
pub open spec fn spec_layer_plane(frame: FrameDescription, layer: int) -> Result<
    (FramePlane, FrameObject),
    FrameFault,
> {
    if !(0 <= layer < frame.layers@.len()) {
        Err(FrameFault::MissingLayer)
    } else if frame.layers@[layer].planes@.len() != 1 {
        Err(FrameFault::SeveralPlanes)
    } else {
        let plane = frame.layers@[layer].planes@[0];
        if plane.object_index >= frame.objects@.len() {
            Err(FrameFault::MissingObject)
        } else {
            Ok((plane, frame.objects@[plane.object_index as int]))
        }
    }
}

pub fn layer_plane(frame: &FrameDescription, layer: usize) -> (plane: Result<
    (FramePlane, FrameObject),
    FrameFault,
>)
    ensures
        plane == spec_layer_plane(*frame, layer as int),
{
    if layer >= frame.layers.len() {
        return Err(FrameFault::MissingLayer);
    }
    if frame.layers[layer].planes.len() != 1 {
        return Err(FrameFault::SeveralPlanes);
    }
    let plane: FramePlane = frame.layers[layer].planes[0];
    if plane.object_index >= frame.objects.len() {
        return Err(FrameFault::MissingObject);
    }
    Ok((plane, frame.objects[plane.object_index]))
}

/// What the image of a plane is made with.
#[derive(Clone, Copy, Debug, PartialEq, Eq, Structural)]
pub struct PlaneImport {
    pub format: i32,
    pub width: u32,
    pub height: u32,
    pub fd: i32,
    pub offset: u64,
    pub size: u64,
    pub row_pitch: u64,
    pub format_modifier: u64,
}

pub open spec fn spec_plane_import(frame: FrameDescription, layer: int, format: i32) -> Result<
    PlaneImport,
    FrameFault,
> {
    match spec_layer_plane(frame, layer) {
        Err(fault) => Err(fault),
        Ok((plane, object)) => if plane.offset < 0 {
            Err(FrameFault::NegativeOffset)
        } else if plane.pitch < 0 {
            Err(FrameFault::NegativePitch)
        } else {
            Ok(
                PlaneImport {
                    format,
                    width: spec_layer_size(frame.width, frame.height, layer).0,
                    height: spec_layer_size(frame.width, frame.height, layer).1,
                    fd: object.fd,
                    offset: plane.offset as u64,
                    size: object.size as u64,
                    row_pitch: plane.pitch as u64,
                    format_modifier: object.format_modifier,
                },
            )
        },
    }
}

/// What the image of one layer is made with.
pub fn plane_import(frame: &FrameDescription, layer: usize, format: i32) -> (import: Result<
    PlaneImport,
    FrameFault,
>)
    ensures
        import == spec_plane_import(*frame, layer as int, format),
{
    let (plane, object) = match layer_plane(frame, layer) {
        Ok(found) => found,
        Err(fault) => return Err(fault),
    };
    if plane.offset < 0 {
        return Err(FrameFault::NegativeOffset);
    }
    if plane.pitch < 0 {
        return Err(FrameFault::NegativePitch);
    }
    let (width, height) = layer_size(frame.width, frame.height, layer);
    Ok(
        PlaneImport {
            format,
            width,
            height,
            fd: object.fd,
            offset: plane.offset as u64,
            size: object.size as u64,
            row_pitch: plane.pitch as u64,
            format_modifier: object.format_modifier,
        },
    )
}

/// What the images of a frame are made with: luma first, then chroma.
pub fn frame_imports(frame: &FrameDescription) -> (imports: Result<
    (PlaneImport, PlaneImport),
    FrameFault,
>)
    ensures
        imports == match spec_plane_formats(frame.format) {
            Err(fault) => Err::<(PlaneImport, PlaneImport), FrameFault>(fault),
            Ok((luma, chroma)) => match spec_plane_import(*frame, 0, luma) {
                Err(fault) => Err(fault),
                Ok(first) => match spec_plane_import(*frame, 1, chroma) {
                    Err(fault) => Err(fault),
                    Ok(second) => Ok((first, second)),
                },
            },
        },
{
    let (luma, chroma) = match plane_formats(frame.format) {
        Ok(formats) => formats,
        Err(fault) => return Err(fault),
    };
    let first: PlaneImport = match plane_import(frame, 0, luma) {
        Ok(import) => import,
        Err(fault) => return Err(fault),
    };
    match plane_import(frame, 1, chroma) {
        Ok(second) => Ok((first, second)),
        Err(fault) => Err(fault),
    }
}

pub open spec fn fits_attribute(value: int) -> bool {
    i32::MIN <= value <= i32::MAX
}

/// The attributes with which a layer is handed to EGL, and the end mark. The two
/// halves of the modifier are carried bit for bit.
pub open spec fn spec_egl_attributes(frame: FrameDescription, layer: int) -> Result<
    Seq<i32>,
    FrameFault,
> {
    match spec_layer_plane(frame, layer) {
        Err(fault) => Err(fault),
        Ok((plane, object)) => {
            let (width, height) = spec_layer_size(frame.width, frame.height, layer);
            if fits_attribute(width as int) && fits_attribute(height as int) && fits_attribute(
                plane.offset as int,
            ) && fits_attribute(plane.pitch as int) {
                Ok(
                    seq![
                        EGL_WIDTH,
                        width as i32,
                        EGL_HEIGHT,
                        height as i32,
                        EGL_LINUX_DRM_FOURCC_EXT,
                        frame.layers@[layer].format as i32,
                        EGL_DMA_BUF_PLANE0_FD_EXT,
                        object.fd,
                        EGL_DMA_BUF_PLANE0_OFFSET_EXT,
                        plane.offset as i32,
                        EGL_DMA_BUF_PLANE0_PITCH_EXT,
                        plane.pitch as i32,
                        EGL_DMA_BUF_PLANE0_MODIFIER_LO_EXT,
                        (object.format_modifier as u32) as i32,
                        EGL_DMA_BUF_PLANE0_MODIFIER_HI_EXT,
                        ((object.format_modifier >> 32) as u32) as i32,
                        EGL_NONE,
                    ],
                )
            } else {
                Err(FrameFault::OutOfRange)
            }
        },
    }
}

pub fn egl_attributes(frame: &FrameDescription, layer: usize) -> (attributes: Result<
    Vec<i32>,
    FrameFault,
>)
    ensures
        match attributes {
            Ok(attributes) => spec_egl_attributes(*frame, layer as int) == Ok::<
                Seq<i32>,
                FrameFault,
            >(attributes@),
            Err(fault) => spec_egl_attributes(*frame, layer as int) == Err::<
                Seq<i32>,
                FrameFault,
            >(fault),
        },
{
    let (plane, object) = match layer_plane(frame, layer) {
        Ok(found) => found,
        Err(fault) => return Err(fault),
    };
    let (width, height) = layer_size(frame.width, frame.height, layer);
    if width > 0x7fff_ffff || height > 0x7fff_ffff || plane.offset > 0x7fff_ffff || plane.offset
        < -0x8000_0000 || plane.pitch > 0x7fff_ffff || plane.pitch < -0x8000_0000 {
        return Err(FrameFault::OutOfRange);
    }
    let format: u32 = frame.layers[layer].format;
    let attributes: Vec<i32> = vec![
        EGL_WIDTH,
        width as i32,
        EGL_HEIGHT,
        height as i32,
        EGL_LINUX_DRM_FOURCC_EXT,
        #[verifier::truncate]
        (format as i32),
        EGL_DMA_BUF_PLANE0_FD_EXT,
        object.fd,
        EGL_DMA_BUF_PLANE0_OFFSET_EXT,
        plane.offset as i32,
        EGL_DMA_BUF_PLANE0_PITCH_EXT,
        plane.pitch as i32,
        EGL_DMA_BUF_PLANE0_MODIFIER_LO_EXT,
        #[verifier::truncate]
        ((object.format_modifier as u32) as i32),
        EGL_DMA_BUF_PLANE0_MODIFIER_HI_EXT,
        #[verifier::truncate]
        (((object.format_modifier >> 32) as u32) as i32),
        EGL_NONE,
    ];
    assert(spec_egl_attributes(*frame, layer as int)->Ok_0 =~= attributes@);
    Ok(attributes)
}

/// What each layer of a frame of two layers is handed to EGL with.
pub open spec fn spec_frame_attributes(frame: FrameDescription) -> Result<
    (Seq<i32>, Seq<i32>),
    FrameFault,
> {
    if frame.layers@.len() != 2 {
        Err(FrameFault::LayerCount)
    } else {
        match spec_egl_attributes(frame, 0) {
            Err(fault) => Err(fault),
            Ok(luma) => match spec_egl_attributes(frame, 1) {
                Err(fault) => Err(fault),
                Ok(chroma) => Ok((luma, chroma)),
            },
        }
    }
}

pub fn frame_attributes(frame: &FrameDescription) -> (attributes: Result<
    (Vec<i32>, Vec<i32>),
    FrameFault,
>)
    ensures
        match attributes {
            Ok((luma, chroma)) => spec_frame_attributes(*frame) == Ok::<
                (Seq<i32>, Seq<i32>),
                FrameFault,
            >((luma@, chroma@)),
            Err(fault) => spec_frame_attributes(*frame) == Err::<
                (Seq<i32>, Seq<i32>),
                FrameFault,
            >(fault),
        },
{
    if frame.layers.len() != 2 {
        return Err(FrameFault::LayerCount);
    }
    let luma: Vec<i32> = match egl_attributes(frame, 0) {
        Ok(attributes) => attributes,
        Err(fault) => return Err(fault),
    };
    match egl_attributes(frame, 1) {
        Ok(chroma) => Ok((luma, chroma)),
        Err(fault) => Err(fault),
    }
}

/// A name stands among names that are parted by spaces.
pub open spec fn has_word(words: Seq<u8>, name: Seq<u8>) -> bool {
    &&& !name.contains(0x20)
    &&& exists|start: int| #[trigger] is_word_at(words, name, start)
}

/// From `start` on stands `name`, with a space or an end on both sides.
pub open spec fn is_word_at(words: Seq<u8>, name: Seq<u8>, start: int) -> bool {
    &&& 0 <= start <= start + name.len() <= words.len()
    &&& words.subrange(start, start + name.len()) == name
    &&& start == 0 || words[start - 1] == 0x20
    &&& start + name.len() == words.len() || words[start + name.len()] == 0x20
}

/// Whether an extension stands in the list of those that EGL knows.
pub fn has_extension(extensions: &[u8], name: &[u8]) -> (found: bool)
    ensures
        found == has_word(extensions@, name@),
{
    if name.len() > extensions.len() {
        return false;
    }
    for index in 0..name.len()
        invariant
            forall|i: int| 0 <= i < index ==> #[trigger] name@[i] != 0x20,
    {
        if name[index] == 0x20 {
            assert(name@.contains(0x20));
            return false;
        }
    }
    let last: usize = extensions.len() - name.len();
    let mut start: usize = 0;
    loop
        invariant
            start <= last,
            last == extensions@.len() - name@.len(),
            extensions@.len() <= usize::MAX,
            !name@.contains(0x20),
            forall|i: int| 0 <= i < start ==> !#[trigger] is_word_at(extensions@, name@, i),
        decreases last - start,
    {
        let end: usize = start + name.len();
        let part: &[u8] = vstd::slice::slice_subrange(extensions, start, end);
        if same(part, name) && (start == 0 || extensions[start - 1] == 0x20) && (end
            == extensions.len() || extensions[end] == 0x20) {
            assert(is_word_at(extensions@, name@, start as int));
            return true;
        }
        assert(!is_word_at(extensions@, name@, start as int));
        if start == last {
            return false;
        }
        start = start + 1;
    }
}

/// The first layer is as large as the frame, the others half as large, rounded
/// up.
pub proof fn law_layer_sizes(width: u32, height: u32, layer: int)
    ensures
        layer == 0 ==> spec_layer_size(width, height, layer) == (width, height),
        layer != 0 ==> {
            let size = spec_layer_size(width, height, layer);
            &&& 2 * size.0 == width || 2 * size.0 == width + 1
            &&& 2 * size.1 == height || 2 * size.1 == height + 1
        },
{
}

/// The planes of a frame of eight bits have one and two bytes a pixel, those of
/// ten bits two and four.
pub proof fn law_plane_formats(format: Option<DmaBufFrameFormat>)
    ensures
        format matches Some(DmaBufFrameFormat::Nv12) ==> spec_plane_formats(format) == Ok::<
            _,
            FrameFault,
        >((9i32, 16i32)),
        format matches Some(DmaBufFrameFormat::P010) ==> spec_plane_formats(format) == Ok::<
            _,
            FrameFault,
        >((70i32, 77i32)),
        format is None <==> spec_plane_formats(format) is Err,
{
}

/// What is imported of a layer: its one plane, with the offset and the pitch of
/// the plane, and the descriptor, the size and the modifier of its object.
pub proof fn law_what_is_imported(frame: FrameDescription, layer: int, format: i32)
    ensures
        spec_plane_import(frame, layer, format) matches Ok(import) ==> {
            let plane = frame.layers@[layer].planes@[0];
            let object = frame.objects@[plane.object_index as int];
            &&& 0 <= layer < frame.layers@.len()
            &&& frame.layers@[layer].planes@.len() == 1
            &&& plane.object_index < frame.objects@.len()
            &&& import.format == format
            &&& import.offset == plane.offset
            &&& import.row_pitch == plane.pitch
            &&& import.fd == object.fd
            &&& import.size == object.size
            &&& import.format_modifier == object.format_modifier
            &&& layer == 0 ==> import.width == frame.width && import.height == frame.height
            &&& layer == 1 ==> 2 * import.width >= frame.width && 2 * import.height >= frame.height
        },
        !(0 <= layer < frame.layers@.len()) <==> (spec_plane_import(
            frame,
            layer,
            format,
        ) matches Err(fault) && fault is MissingLayer),
{
}

/// What the display is told of a layer: pairs of a name and a value, in this
/// order, and the end.
pub proof fn law_attributes_of_a_layer(frame: FrameDescription, layer: int)
    ensures
        spec_egl_attributes(frame, layer) matches Ok(attributes) ==> {
            let plane = frame.layers@[layer].planes@[0];
            let object = frame.objects@[plane.object_index as int];
            let size = spec_layer_size(frame.width, frame.height, layer);
            &&& attributes.len() == 17
            &&& attributes[0] == 0x3057 && attributes[1] == size.0
            &&& attributes[2] == 0x3056 && attributes[3] == size.1
            &&& attributes[4] == 0x3271 && attributes[5] == frame.layers@[layer].format as i32
            &&& attributes[6] == 0x3272 && attributes[7] == object.fd
            &&& attributes[8] == 0x3273 && attributes[9] == plane.offset
            &&& attributes[10] == 0x3274 && attributes[11] == plane.pitch
            &&& attributes[12] == 0x3443 && attributes[13] == (object.format_modifier as u32) as i32
            &&& attributes[14] == 0x3444 && attributes[15] == ((object.format_modifier
                >> 32) as u32) as i32
            &&& attributes[16] == 0x3038
        },
{
}

/// A name that stands in the list by itself is found, at the start, at the end
/// and between others.
pub proof fn law_a_listed_extension_is_found(before: Seq<u8>, name: Seq<u8>, after: Seq<u8>)
    requires
        !name.contains(0x20),
        before.len() == 0 || before.last() == 0x20,
        after.len() == 0 || after[0] == 0x20,
    ensures
        has_word(before + name + after, name),
{
    let words = before + name + after;
    let start = before.len() as int;
    assert(words.subrange(start, start + name.len()) =~= name);
    assert(start > 0 ==> words[start - 1] == before.last());
    assert(after.len() > 0 ==> words[start + name.len()] == after[0]);
    assert(is_word_at(words, name, start));
}

/// A name that is found has no space in it and stands in the list by itself.
pub proof fn law_a_found_extension_is_listed(words: Seq<u8>, name: Seq<u8>) -> (start: int)
    requires
        has_word(words, name),
    ensures
        !name.contains(0x20),
        0 <= start <= words.len() - name.len(),
        words == words.take(start) + name + words.skip(start + name.len()),
        start > 0 ==> words[start - 1] == 0x20,
        start + name.len() < words.len() ==> words[start + name.len()] == 0x20,
{
    let start = choose|start: int| #[trigger] is_word_at(words, name, start);
    assert(words.take(start) + words.subrange(start, start + name.len()) + words.skip(
        start + name.len(),
    ) =~= words);
    start
}

/// A frame of two layers is handed over with the attributes of the first and
/// those of the second, and one with more or fewer is not.
pub proof fn law_attributes_of_a_frame(frame: FrameDescription)
    ensures
        frame.layers@.len() != 2 ==> spec_frame_attributes(frame) == Err::<
            (Seq<i32>, Seq<i32>),
            _,
        >(FrameFault::LayerCount),
        spec_frame_attributes(frame) matches Ok((luma, chroma)) ==> frame.layers@.len() == 2
            && spec_egl_attributes(frame, 0) == Ok::<_, FrameFault>(luma)
            && spec_egl_attributes(frame, 1) == Ok::<_, FrameFault>(chroma),
        frame.layers@.len() == 2 && spec_egl_attributes(frame, 0) is Ok && spec_egl_attributes(
            frame,
            1,
        ) is Ok ==> spec_frame_attributes(frame) is Ok,
        frame.layers@.len() == 2 ==> (spec_egl_attributes(frame, 0) matches Err(fault)
            ==> spec_frame_attributes(frame) == Err::<(Seq<i32>, Seq<i32>), _>(fault)),
{
}

} // verus!
