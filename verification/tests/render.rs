//! What the renderers decide.

use rustconsole::render::atlas::{build_atlas, GlyphAtlas, GlyphBitmap};
use rustconsole::render::device::{
    import_memory_type, memory_type, select_drawing_family, select_family, supports_extensions,
    QueryFailed, QueueFamily,
};
use rustconsole::render::planes::{
    egl_attributes, frame_attributes, frame_imports, has_extension, layer_size, plane_formats,
    DmaBufFrameFormat, FrameDescription, FrameFault, FrameLayer, FrameObject, FramePlane,
    EGL_DMA_BUF_PLANE0_FD_EXT, EGL_NONE, EGL_WIDTH, FORMAT_R16G16_UNORM, FORMAT_R16_UNORM,
    FORMAT_R8G8_UNORM, FORMAT_R8_UNORM,
};
use rustconsole::render::shader::{shader_words, SPIRV_MAGIC};
use rustconsole::render::swapchain::{
    after_presenting, is_hdr10_output, needs_recreation, next_frame, plan_swapchain,
    requests_hdr10, select_surface_format, Extent, NoCompositeAlpha, Presented,
    SurfaceCapabilities, SurfaceFormat, SwapchainPlan, VulkanOutputPreference,
    COLOR_SPACE_HDR10_ST2084, COLOR_SPACE_SRGB_NONLINEAR, FORMAT_A2B10G10R10_UNORM_PACK32,
    FORMAT_B8G8R8A8_SRGB, FORMAT_B8G8R8A8_UNORM, PRESENT_MODE_FIFO, PRESENT_MODE_MAILBOX,
};

const CAPABILITIES: SurfaceCapabilities = SurfaceCapabilities {
    current_extent: Extent {
        width: 1920,
        height: 1080,
    },
    min_image_extent: Extent {
        width: 1,
        height: 1,
    },
    max_image_extent: Extent {
        width: 4096,
        height: 2048,
    },
    min_image_count: 2,
    max_image_count: 0,
    supported_composite_alpha: 1,
};

#[test]
fn a_swapchain_follows_its_surface() {
    assert_eq!(
        plan_swapchain(CAPABILITIES, &[PRESENT_MODE_FIFO], 800, 600),
        Ok(SwapchainPlan {
            extent: Extent {
                width: 1920,
                height: 1080
            },
            image_count: 3,
            present_mode: PRESENT_MODE_FIFO,
            composite_alpha: 1,
        })
    );
    let open = SurfaceCapabilities {
        current_extent: Extent {
            width: u32::MAX,
            height: u32::MAX,
        },
        max_image_count: 2,
        supported_composite_alpha: 0b1100,
        ..CAPABILITIES
    };
    assert_eq!(
        plan_swapchain(
            open,
            &[PRESENT_MODE_FIFO, PRESENT_MODE_MAILBOX],
            8_000,
            600
        ),
        Ok(SwapchainPlan {
            extent: Extent {
                width: 4096,
                height: 600
            },
            image_count: 2,
            present_mode: PRESENT_MODE_MAILBOX,
            composite_alpha: 4,
        })
    );
    let opaque = SurfaceCapabilities {
        supported_composite_alpha: 0,
        ..CAPABILITIES
    };
    assert_eq!(plan_swapchain(opaque, &[], 1, 1), Err(NoCompositeAlpha));
}

#[test]
fn a_surface_format_is_chosen_by_what_is_wanted() {
    let other = SurfaceFormat {
        format: FORMAT_B8G8R8A8_UNORM,
        color_space: COLOR_SPACE_SRGB_NONLINEAR,
    };
    let srgb = SurfaceFormat {
        format: FORMAT_B8G8R8A8_SRGB,
        color_space: COLOR_SPACE_SRGB_NONLINEAR,
    };
    let hdr10 = SurfaceFormat {
        format: FORMAT_A2B10G10R10_UNORM_PACK32,
        color_space: COLOR_SPACE_HDR10_ST2084,
    };
    assert_eq!(select_surface_format(&[], true), None);
    let formats = [other, hdr10, srgb];
    let sdr = select_surface_format(&formats, false).expect("a format");
    assert!(sdr == srgb || sdr == other);
    assert!(!is_hdr10_output(sdr));
    assert_eq!(select_surface_format(&formats, true), Some(hdr10));
    assert!(is_hdr10_output(hdr10));
    assert_eq!(
        select_surface_format(&[srgb], true),
        select_surface_format(&[srgb], false)
    );
    assert!(requests_hdr10(VulkanOutputPreference::Hdr10IfAvailable, true));
    assert!(!requests_hdr10(VulkanOutputPreference::Hdr10IfAvailable, false));
    assert!(!requests_hdr10(VulkanOutputPreference::Sdr, true));
}

#[test]
fn a_swapchain_is_made_anew_when_it_no_longer_fits() {
    let extent = Extent {
        width: 10,
        height: 20,
    };
    assert!(needs_recreation(None, 10, 20));
    assert!(!needs_recreation(Some(extent), 10, 20));
    assert!(needs_recreation(Some(extent), 10, 21));
    assert_eq!(
        after_presenting(Presented::Shown { suboptimal: false }, false),
        Some(false)
    );
    assert_eq!(
        after_presenting(Presented::Shown { suboptimal: false }, true),
        Some(true)
    );
    assert_eq!(after_presenting(Presented::OutOfDate, false), Some(true));
    assert_eq!(after_presenting(Presented::Failed, true), None);
    assert_eq!((next_frame(0, 2), next_frame(1, 2)), (1, 0));
}

#[test]
fn a_device_needs_its_extensions_and_a_queue_that_shows() {
    let has = vec![b"VK_KHR_swapchain".to_vec(), b"VK_A".to_vec()];
    let needs = vec![b"VK_A".to_vec()];
    assert!(supports_extensions(&has, &needs));
    assert!(!supports_extensions(&needs, &has));
    let family = |queue_flags, presentation| QueueFamily {
        queue_flags,
        presentation,
    };
    assert_eq!(
        select_family(
            &has,
            &needs,
            &[
                family(2, Some(true)),
                family(1, Some(false)),
                family(3, Some(true))
            ]
        ),
        Ok(Some(2))
    );
    assert_eq!(
        select_family(&needs, &has, &[family(1, Some(true))]),
        Ok(None)
    );
    assert_eq!(
        select_family(&has, &needs, &[family(1, None)]),
        Err(QueryFailed)
    );
    assert_eq!(select_drawing_family(&[2, 4, 5]), Some(2));
    assert_eq!(select_drawing_family(&[2, 4]), None);
}

#[test]
fn memory_is_of_an_allowed_type() {
    assert_eq!(memory_type(&[0b001, 0b110, 0b111], 0b110, 0b010), Some(1));
    assert_eq!(memory_type(&[0b001, 0b110, 0b111], 0b100, 0b010), Some(2));
    assert_eq!(memory_type(&[0b001, 0b110], 0b01, 0b010), None);
    assert_eq!(import_memory_type(4, 0b1110, 0b1100), Some(2));
    assert_eq!(import_memory_type(2, 0b1110, 0b1100), None);
}

fn frame() -> FrameDescription {
    let layer = |format, object_index, offset, pitch| FrameLayer {
        format,
        planes: vec![FramePlane {
            object_index,
            offset,
            pitch,
        }],
    };
    FrameDescription {
        width: 1921,
        height: 1080,
        format: Some(DmaBufFrameFormat::Nv12),
        layers: vec![layer(0x2020_3852, 0, 0, 2048), layer(0x3838_5247, 0, 4096, 2048)],
        objects: vec![FrameObject {
            fd: 9,
            size: 65_536,
            format_modifier: 0x0100_0000_8000_0001,
        }],
    }
}

#[test]
fn the_layers_of_a_frame_are_imported() {
    assert_eq!(layer_size(1921, 1080, 0), (1921, 1080));
    assert_eq!(layer_size(1921, 1080, 1), (961, 540));
    assert_eq!(layer_size(u32::MAX, 1, 1), (0x8000_0000, 1));
    assert_eq!(
        plane_formats(Some(DmaBufFrameFormat::Nv12)),
        Ok((FORMAT_R8_UNORM, FORMAT_R8G8_UNORM))
    );
    assert_eq!(
        plane_formats(Some(DmaBufFrameFormat::P010)),
        Ok((FORMAT_R16_UNORM, FORMAT_R16G16_UNORM))
    );
    assert_eq!(plane_formats(None), Err(FrameFault::UnsupportedFormat));
    let (luma, chroma) = frame_imports(&frame()).expect("two planes");
    assert_eq!((luma.format, luma.width, luma.offset), (FORMAT_R8_UNORM, 1921, 0));
    assert_eq!(
        (chroma.format, chroma.height, chroma.offset, chroma.fd, chroma.size),
        (FORMAT_R8G8_UNORM, 540, 4096, 9, 65_536)
    );
    assert_eq!(chroma.format_modifier, 0x0100_0000_8000_0001);
}

#[test]
fn a_frame_that_cannot_be_imported_says_why() {
    let fault = |change: fn(&mut FrameDescription)| {
        let mut frame = frame();
        change(&mut frame);
        frame_imports(&frame).expect_err("a fault")
    };
    assert_eq!(fault(|frame| frame.format = None), FrameFault::UnsupportedFormat);
    assert_eq!(
        fault(|frame| {
            frame.layers.pop();
        }),
        FrameFault::MissingLayer
    );
    assert_eq!(
        fault(|frame| frame.layers[0].planes.clear()),
        FrameFault::SeveralPlanes
    );
    assert_eq!(
        fault(|frame| frame.layers[1].planes[0].object_index = 1),
        FrameFault::MissingObject
    );
    assert_eq!(
        fault(|frame| frame.layers[0].planes[0].offset = -1),
        FrameFault::NegativeOffset
    );
    assert_eq!(
        fault(|frame| frame.layers[0].planes[0].pitch = -1),
        FrameFault::NegativePitch
    );
}

#[test]
fn egl_is_told_a_layer_in_attributes() {
    let attributes = egl_attributes(&frame(), 1).expect("attributes");
    assert_eq!(attributes.len(), 17);
    assert_eq!(attributes[..2], [EGL_WIDTH, 961]);
    assert_eq!(attributes[6..8], [EGL_DMA_BUF_PLANE0_FD_EXT, 9]);
    assert_eq!(attributes[13], 0x8000_0001_u32 as i32);
    assert_eq!(attributes[15], 0x0100_0000);
    assert_eq!(attributes[16], EGL_NONE);
    assert!(frame_attributes(&frame()).is_ok());
    let mut three = frame();
    three.layers.push(FrameLayer {
        format: 0,
        planes: Vec::new(),
    });
    assert_eq!(frame_attributes(&three), Err(FrameFault::LayerCount));
    let mut far = frame();
    far.layers[0].planes[0].offset = 1 << 31;
    assert_eq!(egl_attributes(&far, 0), Err(FrameFault::OutOfRange));
}

#[test]
fn an_extension_is_a_word_of_its_own() {
    let list = b"EGL_KHR_image EGL_EXT_image_dma_buf_import_modifiers EGL_A";
    assert!(has_extension(list, b"EGL_KHR_image"));
    assert!(has_extension(list, b"EGL_A"));
    assert!(!has_extension(list, b"EGL_EXT_image_dma_buf_import"));
    assert!(!has_extension(b"", b"EGL_A"));
    assert!(!has_extension(b"EGL_A EGL_B", b"EGL_A EGL_B"));
}

#[test]
fn shaders_are_read_in_either_byte_order() {
    let words = [SPIRV_MAGIC, 0x0102_0304];
    let little: Vec<u8> = words.iter().flat_map(|word| word.to_le_bytes()).collect();
    let big: Vec<u8> = words.iter().flat_map(|word| word.to_be_bytes()).collect();
    assert_eq!(shader_words(&little).as_deref(), Some(&words[..]));
    assert_eq!(shader_words(&big).as_deref(), Some(&words[..]));
    assert_eq!(shader_words(&little[..7]), None);
    assert_eq!(shader_words(&[0; 8]), None);
    assert_eq!(shader_words(&[]), None);
}

fn glyph(character: char, width: u32, height: u32, value: u8) -> GlyphBitmap {
    GlyphBitmap {
        character,
        width,
        height,
        xmin: 1,
        ymin: -2,
        pixels: vec![value; (width * height) as usize],
    }
}

#[test]
fn glyphs_stand_side_by_side() {
    let atlas = build_atlas(&vec![glyph('a', 3, 2, 7), glyph('b', 2, 4, 9)]).expect("room");
    let places: Vec<_> = atlas
        .glyphs()
        .iter()
        .map(|glyph| (glyph.character, glyph.x, glyph.y, glyph.xmin, glyph.ymin))
        .collect();
    assert_eq!(places, [('a', 1, 1, 1, -2), ('b', 5, 1, 1, -2)]);
    let pixel = |x: usize, y: usize| atlas.pixels()[y * 512 + x];
    assert_eq!((pixel(1, 1), pixel(3, 2), pixel(4, 1), pixel(1, 3)), (7, 7, 0, 0));
    assert_eq!((pixel(5, 1), pixel(6, 4), pixel(7, 4)), (9, 9, 0));
}

#[test]
fn a_full_row_is_followed_by_another_until_the_atlas_is_full() {
    let mut atlas = GlyphAtlas::new();
    assert!(atlas.place(&glyph('a', 300, 40, 1)).is_ok());
    assert!(atlas.place(&glyph('b', 300, 50, 2)).is_ok());
    let second = atlas.glyphs()[1];
    assert_eq!((second.x, second.y), (1, 42));
    assert!(atlas.place(&glyph('c', 300, 50, 3)).is_err());
    assert_eq!(atlas.glyphs().len(), 2);
}

#[test]
fn a_glyph_as_wide_as_the_atlas_allows_is_drawn() {
    let mut atlas = GlyphAtlas::new();
    assert!(atlas.can_draw(&glyph('a', 511, 2, 7)));
    atlas.place(&glyph('a', 511, 2, 7)).expect("room");
    assert_eq!(atlas.glyphs()[0].width, 511);
    let mut torn = glyph('b', 3, 2, 7);
    torn.pixels.pop();
    assert!(!atlas.can_draw(&torn));
    assert!(!atlas.can_draw(&glyph('c', 65_000, 2, 7)));
}
