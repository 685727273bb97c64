//! The error taxonomy, and the mapping of native results into it.

use vstd::prelude::*;

use crate::dispatch::{EntryPoint, Operation};

verus! {

/// The code with which the native API reports that a call succeeded.
pub const SUCCESS: i32 = 0x3000;

/// The native boolean for success.
pub const TRUE: u32 = 1;

/// Why a request was refused before any native call: the requirement that the
/// negotiated capabilities do not meet.
#[derive(Clone, Copy, Debug, PartialEq, Eq, Structural)]
pub enum Reason {
    /// Images need version 1.2.
    ImageVersion,
    /// The preserved flag needs version 1.5, or `EGL_KHR_image_base`.
    ImagePreserved,
    /// A native pixmap needs version 1.5, or `EGL_KHR_image`, or
    /// `EGL_KHR_image_base` together with `EGL_KHR_native_pixmap`.
    NativePixmap,
    /// A multi-plane buffer needs `EGL_EXT_image_dma_buf_import`.
    DmaBufImport,
    /// A multi-plane buffer needs version 1.5, or `EGL_KHR_image_base`,
    /// besides the import extension.
    DmaBufImageBase,
}

/// What can go wrong.
#[derive(Clone, Copy, Debug, PartialEq, Eq, Structural)]
pub enum Error {
    /// The request needs a version or extensions that the connection does not
    /// have. No native call was made; the caller may ask for less.
    NotSupported(Reason),
    /// The native call was made and reported `code`. `operation` and `entry`
    /// say what was asked and through which entry point.
    NativeCallFailed { code: i32, operation: Operation, entry: EntryPoint },
    /// A teardown call failed. The resource cannot be taken as released.
    InvariantViolation,
}

impl Reason {
    /// The requirement in words.
    pub open spec fn spec_message(self) -> Seq<char> {
        match self {
            Reason::ImageVersion => "eglCreateImage() requires at least EGL 1.2"@,
            Reason::ImagePreserved =>
                "The IMAGE_PRESERVED attribute is not supported before EGL 1.5 without EGL_KHR_image_base extension"@,
            Reason::NativePixmap =>
                "NativePixmap requires EGL 1.5, or EGL 1.2 with EGL_KHR_image or EGL_KHR_image_base and EGL_KHR_native_pixmap"@,
            Reason::DmaBufImport => "EGL_EXT_image_dma_buf_import is not supported"@,
            Reason::DmaBufImageBase =>
                "EGL_EXT_image_dma_buf_import requires EGL 1.5, or EGL 1.2 with EGL_KHR_image_base"@,
        }
    }

    /// The requirement in words, naming the version and the extensions that
    /// are missing.
    pub fn message(self) -> (text: &'static str)
        ensures
            text@ == self.spec_message(),
    {
        match self {
            Reason::ImageVersion => "eglCreateImage() requires at least EGL 1.2",
            Reason::ImagePreserved =>
                "The IMAGE_PRESERVED attribute is not supported before EGL 1.5 without EGL_KHR_image_base extension",
            Reason::NativePixmap =>
                "NativePixmap requires EGL 1.5, or EGL 1.2 with EGL_KHR_image or EGL_KHR_image_base and EGL_KHR_native_pixmap",
            Reason::DmaBufImport => "EGL_EXT_image_dma_buf_import is not supported",
            Reason::DmaBufImageBase =>
                "EGL_EXT_image_dma_buf_import requires EGL 1.5, or EGL 1.2 with EGL_KHR_image_base",
        }
    }
}

impl Error {
    /// Whether the caller can go on after this error. Only a failed teardown
    /// is fatal.
    pub open spec fn spec_is_recoverable(self) -> bool {
        !(self is InvariantViolation)
    }

    /// What a native call amounts to that reported `code`.
    pub open spec fn spec_check_native(code: i32, operation: Operation, entry: EntryPoint) -> Result<
        (),
        Error,
    > {
        if code == SUCCESS {
            Ok(())
        } else {
            Err(Error::NativeCallFailed { code, operation, entry })
        }
    }

    /// What a teardown call amounts to that returned `status`.
    pub open spec fn spec_check_teardown(status: u32) -> Result<(), Error> {
        if status == TRUE {
            Ok(())
        } else {
            Err(Error::InvariantViolation)
        }
    }

    /// Whether the caller can go on after this error.
    #[verifier::when_used_as_spec(spec_is_recoverable)]
    pub fn is_recoverable(self) -> (recoverable: bool)
        ensures
            recoverable == self.spec_is_recoverable(),
    {
        match self {
            Error::InvariantViolation => false,
            _ => true,
        }
    }

    /// Maps the code that the native API reports after a call: success, or a
    /// failure that carries the code with the operation and the entry point.
    #[verifier::when_used_as_spec(spec_check_native)]
    pub fn check_native(code: i32, operation: Operation, entry: EntryPoint) -> (outcome: Result<
        (),
        Error,
    >)
        ensures
            outcome == Self::spec_check_native(code, operation, entry),
    {
        if code == SUCCESS {
            Ok(())
        } else {
            Err(Error::NativeCallFailed { code, operation, entry })
        }
    }

    /// Maps the status that a teardown call returned. Anything but the native
    /// `TRUE` is an invariant violation.
    #[verifier::when_used_as_spec(spec_check_teardown)]
    pub fn check_teardown(status: u32) -> (outcome: Result<(), Error>)
        ensures
            outcome == Self::spec_check_teardown(status),
    {
        if status == TRUE {
            Ok(())
        } else {
            Err(Error::InvariantViolation)
        }
    }
}

} // verus!
