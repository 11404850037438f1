use presentation::capability::capabilities_and_formats;
use presentation::format::{ChannelType, Format, SurfaceType, surface_format_list};
use presentation::surface::{
    AaMode, Extent2d, Kind, SurfaceDescriptor, SurfaceError, create_surface,
    create_surface_from_hwnd,
};

#[test]
fn create_surface_records_handle_and_extent() {
    let surface = create_surface(5, 800, 600).unwrap();
    assert_eq!(surface.native_handle, 5);
    assert_eq!(surface.width, 800);
    assert_eq!(surface.height, 600);
}

#[test]
fn create_surface_rejects_null_handle() {
    assert_eq!(create_surface(0, 800, 600), Err(SurfaceError::InvalidHandle));
}

#[test]
fn create_surface_from_hwnd_uses_client_rect_extent() {
    let surface = create_surface_from_hwnd(42, 0, 0, 800, 600).unwrap();
    assert_eq!(surface.native_handle, 42);
    assert_eq!(surface.width, 800);
    assert_eq!(surface.height, 600);
}

#[test]
fn create_surface_from_hwnd_handles_offset_rect() {
    let surface = create_surface_from_hwnd(42, -10, 20, 790, 620).unwrap();
    assert_eq!(surface.width, 800);
    assert_eq!(surface.height, 600);
}

#[test]
fn create_surface_from_hwnd_rejects_null_handle() {
    assert_eq!(
        create_surface_from_hwnd(0, 0, 0, 800, 600),
        Err(SurfaceError::InvalidHandle)
    );
}

#[test]
fn surface_kind_is_single_sampled_2d() {
    let surface = create_surface(5, 1024, 768).unwrap();
    assert_eq!(surface.get_kind(), Kind::D2(1024, 768, AaMode::Single));
    assert!(surface.supports_queue_family());
}

#[test]
fn capabilities_scenario_800_by_600() {
    let surface = create_surface(5, 800, 600).unwrap();
    let (caps, _formats) = capabilities_and_formats(&surface);
    let extent = Extent2d {
        width: 800,
        height: 600,
    };
    assert_eq!(caps.min_image_count, 2);
    assert_eq!(caps.max_image_count, 16);
    assert_eq!(caps.max_image_layers, 1);
    assert_eq!(caps.current_extent, Some(extent));
    assert_eq!(caps.min_extent, extent);
    assert_eq!(caps.max_extent, extent);
}

#[test]
fn capabilities_follow_the_surface_extent() {
    let surface = SurfaceDescriptor {
        native_handle: 9,
        width: 1920,
        height: 1080,
    };
    let (caps, _formats) = capabilities_and_formats(&surface);
    assert_eq!(
        caps.current_extent,
        Some(Extent2d {
            width: 1920,
            height: 1080,
        })
    );
}

#[test]
fn format_list_is_nonempty_and_starts_with_bgra_srgb() {
    let formats = surface_format_list();
    assert_eq!(formats.len(), 6);
    assert_eq!(
        formats[0],
        Format {
            surface: SurfaceType::B8G8R8A8,
            channel: ChannelType::Srgb,
        }
    );
    assert_eq!(
        formats[5],
        Format {
            surface: SurfaceType::R16G16B16A16,
            channel: ChannelType::Float,
        }
    );
}

#[test]
fn format_list_has_no_duplicates() {
    let formats = surface_format_list();
    for i in 0..formats.len() {
        for j in 0..formats.len() {
            if i != j {
                assert_ne!(formats[i], formats[j]);
            }
        }
    }
}

#[test]
fn format_list_is_stable_across_calls() {
    let surface = create_surface(5, 800, 600).unwrap();
    let (_caps1, first) = capabilities_and_formats(&surface);
    let (_caps2, second) = capabilities_and_formats(&surface);
    assert_eq!(first, second);
    assert_eq!(first, surface_format_list());
}
