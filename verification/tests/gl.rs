use stargaze::gl::{
    fourcc, fs_i420, fs_nv12, fs_nv12_ext, image_attributes, import_support, needs_textures,
    nv12_planes, plane_textures, DrmFrame, DrmLayer, DrmObject, DrmPlane, ImportMode, PlaneInfo,
    DRM_FORMAT_GR88, DRM_FORMAT_MOD_INVALID, DRM_FORMAT_NV12, DRM_FORMAT_R8, FS_OVERLAY,
    FS_RGB_EXT, VS_SRC,
};
use stargaze::presentation::TextureLayout;

fn plane(object_index: i32, offset: isize, pitch: isize) -> DrmPlane {
    DrmPlane { object_index, offset, pitch }
}

fn frame(nb_layers: i32, nb_planes: i32) -> DrmFrame {
    let none = plane(0, 0, 0);
    let layer = |format, a, b| DrmLayer { format, nb_planes, planes: [a, b, none, none] };
    let unused = DrmObject { fd: -1, format_modifier: 0 };
    DrmFrame {
        nb_objects: 2,
        objects: [
            DrmObject { fd: 10, format_modifier: 1 },
            DrmObject { fd: 11, format_modifier: 2 },
            unused,
            unused,
        ],
        nb_layers,
        layers: [
            layer(100, plane(0, 0, 1920), plane(1, 64, 960)),
            layer(200, plane(1, 32, 640), none),
            layer(0, none, none),
            layer(0, none, none),
        ],
    }
}

#[test]
fn formats_spell_their_names() {
    assert_eq!(fourcc(*b"R8  "), DRM_FORMAT_R8);
    assert_eq!(fourcc(*b"GR88"), DRM_FORMAT_GR88);
    assert_eq!(fourcc(*b"NV12"), DRM_FORMAT_NV12);
}

#[test]
fn shaders_convert_only_where_needed() {
    for shader in [fs_nv12(), fs_nv12_ext(), fs_i420()] {
        assert!(shader.contains("vec3 bt709(float luma, float cb, float cr) {"));
        assert!(shader.contains("}\n\nvoid main() {\n    float luma"));
        assert!(shader.ends_with("}\n"));
    }
    assert!(fs_nv12().starts_with("precision mediump float;\n"));
    assert!(fs_nv12_ext().starts_with("#extension GL_OES_EGL_image_external : require\n"));
    assert!(fs_i420().contains("u_tex2"));
    assert!(!FS_RGB_EXT.contains("bt709") && !FS_OVERLAY.contains("bt709"));
    assert!(VS_SRC.starts_with("attribute vec2 a_pos;\n"));
}

#[test]
fn planes_of_two_layers() {
    let (y, uv) = nv12_planes(&frame(2, 1)).unwrap();
    assert_eq!(y, PlaneInfo { fd: 10, offset: 0, pitch: 1920, modifier: 1, format: 100 });
    assert_eq!(uv, PlaneInfo { fd: 11, offset: 32, pitch: 640, modifier: 2, format: 200 });
}

#[test]
fn planes_of_one_layer() {
    let (y, uv) = nv12_planes(&frame(1, 2)).unwrap();
    assert_eq!((y.format, uv.format), (DRM_FORMAT_R8, DRM_FORMAT_GR88));
    assert_eq!((uv.fd, uv.offset, uv.pitch), (11, 64, 960));
}

#[test]
fn broken_frames_are_refused() {
    assert_eq!(
        nv12_planes(&frame(3, -1)).unwrap_err(),
        "unsupported DRM frame layout (3 layers, -1 planes)"
    );
    assert!(nv12_planes(&frame(1, 3)).is_err());
    let mut bad = frame(2, 1);
    bad.layers[1].planes[0] = plane(2, 0, 0);
    assert_eq!(nv12_planes(&bad).unwrap_err(), "bad object index 2");
    bad.layers[1].planes[0] = plane(-7, 0, 0);
    assert_eq!(nv12_planes(&bad).unwrap_err(), "bad object index -7");
    bad.layers[1].planes[0] = plane(1, -1, 0);
    assert_eq!(nv12_planes(&bad).unwrap_err(), "negative plane offset");
    bad.layers[1].planes[0] = plane(1, 0, -1);
    assert_eq!(nv12_planes(&bad).unwrap_err(), "negative plane pitch");
    // More objects may be counted than there is room for, but not used.
    let mut many = frame(2, 1);
    many.nb_objects = i32::MIN;
    assert_eq!(nv12_planes(&many).unwrap(), nv12_planes(&frame(2, 1)).unwrap());
    many.layers[1].planes[0] = plane(4, 0, 0);
    assert_eq!(nv12_planes(&many).unwrap_err(), "bad object index 4");
}

#[test]
fn attributes_of_an_import() {
    let y = PlaneInfo { fd: 7, offset: 1, pitch: 2, modifier: 0x5_0000_0006, format: 3 };
    let uv = PlaneInfo { fd: -1, offset: 8, pitch: 9, modifier: DRM_FORMAT_MOD_INVALID, format: 4 };
    let head = [0x3271, 3, 0x3057, 640, 0x3056, 480, 0x3272, 7, 0x3273, 1, 0x3274, 2];
    let modifier = [0x3443, 6, 0x3444, 5];
    let second = [0x3275, 0xffff_ffff, 0x3276, 8, 0x3277, 9];
    let hints = [0x327b, 0x3282, 0x327c, 0x3287];
    let expect = |parts: &[&[usize]]| -> Vec<usize> { parts.concat() };
    assert_eq!(
        image_attributes(640, 480, 3, &y, None, false),
        expect(&[&head, &[0x3038]])
    );
    assert_eq!(
        image_attributes(640, 480, 3, &y, None, true),
        expect(&[&head, &modifier, &[0x3038]])
    );
    assert_eq!(
        image_attributes(640, 480, 3, &y, Some(&uv), true),
        expect(&[&head, &modifier, &second, &hints, &[0x3038]])
    );
    let both = image_attributes(640, 480, 3, &y, Some(&y), true);
    assert_eq!(both.len(), 12 + 4 + 6 + 4 + 4 + 1);
}

#[test]
fn extensions_tell_what_can_be_imported() {
    assert_eq!(import_support("EGL_KHR_image"), None);
    assert_eq!(import_support("EGL_EXT_image_dma_buf_import EGL_X"), Some(false));
    assert_eq!(
        import_support("EGL_X EGL_EXT_image_dma_buf_import_modifiers"),
        Some(true)
    );
}

#[test]
fn textures_of_a_frame() {
    let sizes = |layout| -> Vec<(u32, u32, bool)> {
        plane_textures(layout, 641, 480)
            .iter()
            .map(|t| (t.width, t.height, t.pair))
            .collect()
    };
    assert_eq!(sizes(TextureLayout::Nv12), vec![(641, 480, false), (320, 240, true)]);
    assert_eq!(
        sizes(TextureLayout::I420),
        vec![(641, 480, false), (320, 240, false), (320, 240, false)]
    );
    let current = Some((TextureLayout::Nv12, 641, 480));
    assert!(!needs_textures(current, TextureLayout::Nv12, 641, 480));
    assert!(needs_textures(current, TextureLayout::Nv12, 640, 480));
    assert!(needs_textures(current, TextureLayout::I420, 641, 480));
    assert!(needs_textures(None, TextureLayout::I420, 641, 480));
}

#[test]
fn first_working_import_is_kept() {
    let mode = ImportMode::Undecided;
    let ways = mode.attempts();
    assert_eq!(
        ways.iter().map(|w| w.name()).collect::<Vec<_>>(),
        vec![
            "two-plane GL_TEXTURE_2D",
            "two-plane GL_TEXTURE_EXTERNAL_OES",
            "whole-frame external",
        ]
    );
    let mode = mode.after(ways[0], false);
    assert_eq!(mode, ImportMode::Undecided);
    assert_eq!(mode.name(), "undecided");
    let mode = mode.after(ways[1], true);
    assert_eq!(mode, ways[1]);
    assert_eq!(mode.attempts(), vec![ways[1]]);
    assert_eq!(mode.after(ways[2], true), ways[1]);
}
