use egl_image::dispatch::{EntryPoint, Operation};
use egl_image::error::{Error, Reason, SUCCESS, TRUE};

#[test]
fn reason_messages_name_the_requirement() {
    assert_eq!(Reason::ImageVersion.message(), "eglCreateImage() requires at least EGL 1.2");
    assert_eq!(
        Reason::ImagePreserved.message(),
        "The IMAGE_PRESERVED attribute is not supported before EGL 1.5 without EGL_KHR_image_base extension"
    );
    assert_eq!(
        Reason::NativePixmap.message(),
        "NativePixmap requires EGL 1.5, or EGL 1.2 with EGL_KHR_image or EGL_KHR_image_base and EGL_KHR_native_pixmap"
    );
    assert_eq!(Reason::DmaBufImport.message(), "EGL_EXT_image_dma_buf_import is not supported");
    assert_eq!(
        Reason::DmaBufImageBase.message(),
        "EGL_EXT_image_dma_buf_import requires EGL 1.5, or EGL 1.2 with EGL_KHR_image_base"
    );
}

#[test]
fn native_success_code() {
    assert_eq!(SUCCESS, 0x3000);
    assert_eq!(TRUE, 1);
    assert_eq!(
        Error::check_native(0x3000, Operation::ImportDmaBuf, EntryPoint::CreateImage),
        Ok(())
    );
}

#[test]
fn native_failure_carries_code_operation_and_entry() {
    assert_eq!(
        Error::check_native(0x3003, Operation::ImportDmaBuf, EntryPoint::CreateImageKhr),
        Err(Error::NativeCallFailed {
            code: 0x3003,
            operation: Operation::ImportDmaBuf,
            entry: EntryPoint::CreateImageKhr,
        })
    );
    assert_eq!(
        Error::check_native(0, Operation::ImportNativePixmap, EntryPoint::CreateImage),
        Err(Error::NativeCallFailed {
            code: 0,
            operation: Operation::ImportNativePixmap,
            entry: EntryPoint::CreateImage,
        })
    );
}

#[test]
fn failed_teardown_is_an_invariant_violation() {
    assert_eq!(Error::check_teardown(1), Ok(()));
    assert_eq!(Error::check_teardown(0), Err(Error::InvariantViolation));
    assert_eq!(Error::check_teardown(2), Err(Error::InvariantViolation));
}

#[test]
fn only_invariant_violations_are_fatal() {
    assert!(Error::NotSupported(Reason::NativePixmap).is_recoverable());
    assert!(Error::NativeCallFailed {
        code: 0x3003,
        operation: Operation::ImportDmaBuf,
        entry: EntryPoint::CreateImage,
    }
    .is_recoverable());
    assert!(!Error::InvariantViolation.is_recoverable());
}
