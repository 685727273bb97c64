use egl_image::capability::CapabilitySet;
use egl_image::dispatch::{
    dispatch, Encoding, EntryPoint, Extension, Needs, Operation, Path, Route,
};
use egl_image::error::{Error, Reason};
use egl_image::version::Version;

fn caps(major: u8, minor: u8, extensions: &str) -> CapabilitySet {
    CapabilitySet::new(Version::new(major, minor), extensions.as_bytes())
}

fn all_operations() -> Vec<Operation> {
    vec![
        Operation::CreateImage,
        Operation::PreserveImage,
        Operation::ImportNativePixmap,
        Operation::ImportDmaBuf,
    ]
}

fn all_capabilities() -> Vec<CapabilitySet> {
    let names = [
        "EGL_KHR_image",
        "EGL_KHR_image_base",
        "EGL_KHR_native_pixmap",
        "EGL_EXT_image_dma_buf_import",
    ];
    let versions = [(1u8, 0u8), (1, 1), (1, 2), (1, 4), (1, 5), (2, 0)];
    let mut out = Vec::new();
    for (major, minor) in versions {
        for mask in 0u32..16 {
            let mut text = String::new();
            for (bit, name) in names.iter().enumerate() {
                if mask & (1 << bit) != 0 {
                    text.push_str(name);
                    text.push(' ');
                }
            }
            out.push(caps(major, minor, &text));
        }
    }
    out
}

#[test]
fn extension_names() {
    assert_eq!(Extension::KhrImage.name(), "EGL_KHR_image");
    assert_eq!(Extension::KhrImageBase.name(), "EGL_KHR_image_base");
    assert_eq!(Extension::KhrNativePixmap.name(), "EGL_KHR_native_pixmap");
    assert_eq!(Extension::ExtImageDmaBufImport.name(), "EGL_EXT_image_dma_buf_import");
}

#[test]
fn entry_point_symbols() {
    assert_eq!(EntryPoint::CreateImage.symbol(), "eglCreateImage");
    assert_eq!(EntryPoint::CreateImageKhr.symbol(), "eglCreateImageKHR");
    assert_eq!(EntryPoint::DestroyImage.symbol(), "eglDestroyImage");
    assert_eq!(EntryPoint::DestroyImageKhr.symbol(), "eglDestroyImageKHR");
}

#[test]
fn routes_by_version() {
    assert_eq!(Route::of(Version::new(1, 5)), Route::Core);
    assert_eq!(Route::of(Version::new(2, 0)), Route::Core);
    assert_eq!(Route::of(Version::new(1, 4)), Route::Khr);
    assert_eq!(Route::of(Version::new(1, 0)), Route::Khr);
}

#[test]
fn routes_name_their_entries_and_encoding() {
    assert_eq!(Route::Core.create_entry(), EntryPoint::CreateImage);
    assert_eq!(Route::Khr.create_entry(), EntryPoint::CreateImageKhr);
    assert_eq!(Route::Core.destroy_entry(), EntryPoint::DestroyImage);
    assert_eq!(Route::Khr.destroy_entry(), EntryPoint::DestroyImageKhr);
    assert_eq!(Route::Core.encoding(), Encoding::Attrib);
    assert_eq!(Route::Khr.encoding(), Encoding::Int);
}

#[test]
fn needs_are_met_jointly() {
    let both = caps(1, 2, "EGL_KHR_image_base EGL_KHR_native_pixmap");
    let one = caps(1, 2, "EGL_KHR_image_base");
    let pair = Needs::Both(Extension::KhrImageBase, Extension::KhrNativePixmap);
    assert!(Needs::Nothing.is_met_by(&one));
    assert!(Needs::One(Extension::KhrImageBase).is_met_by(&one));
    assert!(!Needs::One(Extension::KhrNativePixmap).is_met_by(&one));
    assert!(pair.is_met_by(&both));
    assert!(!pair.is_met_by(&one));
}

#[test]
fn paths_of_each_operation() {
    let v15 = Version::new(1, 5);
    let v12 = Version::new(1, 2);
    assert_eq!(
        Operation::CreateImage.paths(),
        vec![
            Path { route: Route::Core, floor: v15, needs: Needs::Nothing },
            Path { route: Route::Khr, floor: v12, needs: Needs::Nothing },
        ]
    );
    assert_eq!(
        Operation::PreserveImage.paths(),
        vec![
            Path { route: Route::Core, floor: v15, needs: Needs::Nothing },
            Path { route: Route::Khr, floor: v12, needs: Needs::One(Extension::KhrImageBase) },
        ]
    );
    assert_eq!(
        Operation::ImportNativePixmap.paths(),
        vec![
            Path { route: Route::Core, floor: v15, needs: Needs::Nothing },
            Path { route: Route::Khr, floor: v12, needs: Needs::One(Extension::KhrImage) },
            Path {
                route: Route::Khr,
                floor: v12,
                needs: Needs::Both(Extension::KhrImageBase, Extension::KhrNativePixmap),
            },
        ]
    );
    assert_eq!(
        Operation::ImportDmaBuf.paths(),
        vec![
            Path {
                route: Route::Core,
                floor: v15,
                needs: Needs::One(Extension::ExtImageDmaBufImport),
            },
            Path {
                route: Route::Khr,
                floor: v12,
                needs: Needs::Both(Extension::ExtImageDmaBufImport, Extension::KhrImageBase),
            },
        ]
    );
}

#[test]
fn dispatch_returns_only_open_paths_and_refuses_only_without_one() {
    for capabilities in all_capabilities() {
        for operation in all_operations() {
            let paths = operation.paths();
            match dispatch(operation, &capabilities) {
                Ok(path) => {
                    assert!(paths.contains(&path));
                    assert!(capabilities.version().at_least(path.floor));
                    assert!(path.needs.is_met_by(&capabilities));
                    assert!(path.is_open_to(&capabilities));
                    let first = paths.iter().find(|p| p.is_open_to(&capabilities));
                    assert_eq!(first, Some(&path));
                    assert_eq!(path.route, Route::of(capabilities.version()));
                }
                Err(error) => {
                    assert!(matches!(error, Error::NotSupported(_)));
                    assert!(paths.iter().all(|p| !p.is_open_to(&capabilities)));
                }
            }
        }
    }
}

#[test]
fn native_pixmap_goes_the_khr_way_on_joint_extensions() {
    let capabilities = caps(1, 4, "EGL_KHR_image_base EGL_KHR_native_pixmap");
    assert_eq!(
        dispatch(Operation::ImportNativePixmap, &capabilities),
        Ok(Path {
            route: Route::Khr,
            floor: Version::new(1, 2),
            needs: Needs::Both(Extension::KhrImageBase, Extension::KhrNativePixmap),
        })
    );
}

#[test]
fn native_pixmap_goes_the_khr_way_on_khr_image() {
    let capabilities = caps(1, 2, "EGL_KHR_image");
    assert_eq!(
        dispatch(Operation::ImportNativePixmap, &capabilities),
        Ok(Path {
            route: Route::Khr,
            floor: Version::new(1, 2),
            needs: Needs::One(Extension::KhrImage),
        })
    );
}

#[test]
fn native_pixmap_goes_the_core_way_from_1_5() {
    let capabilities = caps(1, 5, "EGL_KHR_image");
    assert_eq!(
        dispatch(Operation::ImportNativePixmap, &capabilities),
        Ok(Path { route: Route::Core, floor: Version::new(1, 5), needs: Needs::Nothing })
    );
}

#[test]
fn native_pixmap_is_refused_without_version_or_extensions() {
    assert_eq!(
        dispatch(Operation::ImportNativePixmap, &caps(1, 2, "")),
        Err(Error::NotSupported(Reason::NativePixmap))
    );
    assert_eq!(
        dispatch(Operation::ImportNativePixmap, &caps(1, 4, "EGL_KHR_image_base")),
        Err(Error::NotSupported(Reason::NativePixmap))
    );
    assert_eq!(
        dispatch(Operation::ImportNativePixmap, &caps(1, 4, "EGL_KHR_native_pixmap")),
        Err(Error::NotSupported(Reason::NativePixmap))
    );
    assert_eq!(
        dispatch(Operation::ImportNativePixmap, &caps(1, 1, "EGL_KHR_image")),
        Err(Error::NotSupported(Reason::NativePixmap))
    );
}

#[test]
fn dma_buf_needs_the_import_extension_at_every_version() {
    assert_eq!(
        dispatch(Operation::ImportDmaBuf, &caps(1, 5, "EGL_KHR_image_base")),
        Err(Error::NotSupported(Reason::DmaBufImport))
    );
    assert_eq!(
        dispatch(Operation::ImportDmaBuf, &caps(1, 4, "EGL_EXT_image_dma_buf_import")),
        Err(Error::NotSupported(Reason::DmaBufImageBase))
    );
    assert_eq!(
        dispatch(Operation::ImportDmaBuf, &caps(1, 5, "EGL_EXT_image_dma_buf_import")).map(|p| p.route),
        Ok(Route::Core)
    );
    assert_eq!(
        dispatch(
            Operation::ImportDmaBuf,
            &caps(1, 2, "EGL_KHR_image_base EGL_EXT_image_dma_buf_import")
        )
        .map(|p| p.route),
        Ok(Route::Khr)
    );
}

#[test]
fn image_creation_has_a_version_floor() {
    assert_eq!(
        dispatch(Operation::CreateImage, &caps(1, 1, "EGL_KHR_image EGL_KHR_image_base")),
        Err(Error::NotSupported(Reason::ImageVersion))
    );
    assert_eq!(dispatch(Operation::CreateImage, &caps(1, 2, "")).map(|p| p.route), Ok(Route::Khr));
    assert_eq!(dispatch(Operation::CreateImage, &caps(1, 5, "")).map(|p| p.route), Ok(Route::Core));
}

#[test]
fn preserved_flag_needs_version_or_image_base() {
    assert_eq!(
        dispatch(Operation::PreserveImage, &caps(1, 2, "")),
        Err(Error::NotSupported(Reason::ImagePreserved))
    );
    assert_eq!(
        dispatch(Operation::PreserveImage, &caps(1, 4, "EGL_KHR_image")),
        Err(Error::NotSupported(Reason::ImagePreserved))
    );
    assert!(dispatch(Operation::PreserveImage, &caps(1, 2, "EGL_KHR_image_base")).is_ok());
    assert!(dispatch(Operation::PreserveImage, &caps(1, 5, "")).is_ok());
}
