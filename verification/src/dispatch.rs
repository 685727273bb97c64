//! The dispatch resolver: which entry point serves an operation under the
//! capabilities of a connection, if any does.

use vstd::prelude::*;
use vstd::string::*;

use crate::capability::{Capabilities, CapabilitySet};
use crate::error::{Error, Reason};
use crate::version::Version;

verus! {

/// The extensions that the resolver knows.
#[derive(Clone, Copy, Debug, PartialEq, Eq, Structural)]
pub enum Extension {
    /// `EGL_KHR_image`
    KhrImage,
    /// `EGL_KHR_image_base`
    KhrImageBase,
    /// `EGL_KHR_native_pixmap`
    KhrNativePixmap,
    /// `EGL_EXT_image_dma_buf_import`
    ExtImageDmaBufImport,
}

/// The extensions that a path needs: none, one, or two jointly.
#[derive(Clone, Copy, Debug, PartialEq, Eq, Structural)]
pub enum Needs {
    /// No extension.
    Nothing,
    /// This extension.
    One(Extension),
    /// Both of these.
    Both(Extension, Extension),
}

/// The two families of entry points.
#[derive(Clone, Copy, Debug, PartialEq, Eq, Structural)]
pub enum Route {
    /// The entry points of the core API, from version 1.5 on.
    Core,
    /// The entry points with the `KHR` suffix.
    Khr,
}

/// A native entry point.
#[derive(Clone, Copy, Debug, PartialEq, Eq, Structural)]
pub enum EntryPoint {
    /// `eglCreateImage`
    CreateImage,
    /// `eglCreateImageKHR`
    CreateImageKhr,
    /// `eglDestroyImage`
    DestroyImage,
    /// `eglDestroyImageKHR`
    DestroyImageKhr,
}

/// How an entry point takes its attribute list.
#[derive(Clone, Copy, Debug, PartialEq, Eq, Structural)]
pub enum Encoding {
    /// Pointer-sized attributes (`EGLAttrib`).
    Attrib,
    /// 32-bit attributes (`EGLint`).
    Int,
}

/// One way to serve an operation: a family of entry points, with the version
/// floor and the extensions that it takes.
#[derive(Clone, Copy, Debug, PartialEq, Eq, Structural)]
pub struct Path {
    /// The family of entry points.
    pub route: Route,
    /// The version that the connection must have reached.
    pub floor: Version,
    /// The extensions that the connection must advertise.
    pub needs: Needs,
}

/// What a caller can ask of a connection.
#[derive(Clone, Copy, Debug, PartialEq, Eq, Structural)]
pub enum Operation {
    /// To create an image at all.
    CreateImage,
    /// To mark an image as preserved.
    PreserveImage,
    /// To import a native pixmap.
    ImportNativePixmap,
    /// To import a multi-plane buffer.
    ImportDmaBuf,
}

impl Extension {
    /// The token by which an extension string advertises the extension.
    pub open spec fn token(self) -> Seq<u8> {
        match self {
            Extension::KhrImage => "EGL_KHR_image".spec_bytes(),
            Extension::KhrImageBase => "EGL_KHR_image_base".spec_bytes(),
            Extension::KhrNativePixmap => "EGL_KHR_native_pixmap".spec_bytes(),
            Extension::ExtImageDmaBufImport => "EGL_EXT_image_dma_buf_import".spec_bytes(),
        }
    }

    /// The name of the extension.
    pub fn name(self) -> (name: &'static str)
        ensures
            name.spec_bytes() == self.token(),
    {
        match self {
            Extension::KhrImage => "EGL_KHR_image",
            Extension::KhrImageBase => "EGL_KHR_image_base",
            Extension::KhrNativePixmap => "EGL_KHR_native_pixmap",
            Extension::ExtImageDmaBufImport => "EGL_EXT_image_dma_buf_import",
        }
    }
}

/// The tokens of two extensions differ unless the extensions are the same.
pub proof fn lemma_extension_tokens_distinct(a: Extension, b: Extension)
    ensures
        a.token() == b.token() ==> a == b,
{
    reveal_strlit("EGL_KHR_image");
    reveal_strlit("EGL_KHR_image_base");
    reveal_strlit("EGL_KHR_native_pixmap");
    reveal_strlit("EGL_EXT_image_dma_buf_import");
    is_ascii_spec_bytes("EGL_KHR_image");
    is_ascii_spec_bytes("EGL_KHR_image_base");
    is_ascii_spec_bytes("EGL_KHR_native_pixmap");
    is_ascii_spec_bytes("EGL_EXT_image_dma_buf_import");
    assert(Extension::KhrImage.token().len() == 13);
    assert(Extension::KhrImageBase.token().len() == 18);
    assert(Extension::KhrNativePixmap.token().len() == 21);
    assert(Extension::ExtImageDmaBufImport.token().len() == 28);
}

impl Needs {
    /// Whether the capabilities hold every extension needed.
    pub open spec fn met_by(self, capabilities: Capabilities) -> bool {
        match self {
            Needs::Nothing => true,
            Needs::One(only) => capabilities.has(only.token()),
            Needs::Both(first, second) => capabilities.has(first.token()) && capabilities.has(
                second.token(),
            ),
        }
    }

    /// Tests the capabilities for every extension needed.
    pub fn is_met_by(self, capabilities: &CapabilitySet) -> (met: bool)
        ensures
            met == self.met_by(capabilities@),
    {
        match self {
            Needs::Nothing => true,
            Needs::One(only) => capabilities.has_extension(only.name()),
            Needs::Both(first, second) => capabilities.has_extension(first.name())
                && capabilities.has_extension(second.name()),
        }
    }
}

impl Route {
    /// The family that a version calls for: the core one from 1.5 on.
    pub open spec fn spec_of(version: Version) -> Route {
        if version.at_least(Version { major: 1, minor: 5 }) {
            Route::Core
        } else {
            Route::Khr
        }
    }

    /// The entry point of the family that creates an image.
    pub open spec fn spec_create_entry(self) -> EntryPoint {
        match self {
            Route::Core => EntryPoint::CreateImage,
            Route::Khr => EntryPoint::CreateImageKhr,
        }
    }

    /// The entry point of the family that destroys an image.
    pub open spec fn spec_destroy_entry(self) -> EntryPoint {
        match self {
            Route::Core => EntryPoint::DestroyImage,
            Route::Khr => EntryPoint::DestroyImageKhr,
        }
    }

    /// How the family's entry points take an attribute list.
    pub open spec fn spec_encoding(self) -> Encoding {
        match self {
            Route::Core => Encoding::Attrib,
            Route::Khr => Encoding::Int,
        }
    }

    /// The family that a version calls for.
    #[verifier::when_used_as_spec(spec_of)]
    pub fn of(version: Version) -> (route: Route)
        ensures
            route == Self::spec_of(version),
    {
        if version.at_least(Version::new(1, 5)) {
            Route::Core
        } else {
            Route::Khr
        }
    }

    /// The entry point of the family that creates an image.
    #[verifier::when_used_as_spec(spec_create_entry)]
    pub fn create_entry(self) -> (entry: EntryPoint)
        ensures
            entry == self.spec_create_entry(),
    {
        match self {
            Route::Core => EntryPoint::CreateImage,
            Route::Khr => EntryPoint::CreateImageKhr,
        }
    }

    /// The entry point of the family that destroys an image.
    #[verifier::when_used_as_spec(spec_destroy_entry)]
    pub fn destroy_entry(self) -> (entry: EntryPoint)
        ensures
            entry == self.spec_destroy_entry(),
    {
        match self {
            Route::Core => EntryPoint::DestroyImage,
            Route::Khr => EntryPoint::DestroyImageKhr,
        }
    }

    /// How the family's entry points take an attribute list.
    #[verifier::when_used_as_spec(spec_encoding)]
    pub fn encoding(self) -> (encoding: Encoding)
        ensures
            encoding == self.spec_encoding(),
    {
        match self {
            Route::Core => Encoding::Attrib,
            Route::Khr => Encoding::Int,
        }
    }
}

impl EntryPoint {
    /// The symbol of the entry point in the native library.
    pub open spec fn spec_symbol(self) -> Seq<char> {
        match self {
            EntryPoint::CreateImage => "eglCreateImage"@,
            EntryPoint::CreateImageKhr => "eglCreateImageKHR"@,
            EntryPoint::DestroyImage => "eglDestroyImage"@,
            EntryPoint::DestroyImageKhr => "eglDestroyImageKHR"@,
        }
    }

    /// The symbol of the entry point in the native library.
    pub fn symbol(self) -> (symbol: &'static str)
        ensures
            symbol@ == self.spec_symbol(),
    {
        match self {
            EntryPoint::CreateImage => "eglCreateImage",
            EntryPoint::CreateImageKhr => "eglCreateImageKHR",
            EntryPoint::DestroyImage => "eglDestroyImage",
            EntryPoint::DestroyImageKhr => "eglDestroyImageKHR",
        }
    }
}

impl Path {
    /// Whether the capabilities meet every precondition of the path: the
    /// version floor and the extensions.
    pub open spec fn open_to(self, capabilities: Capabilities) -> bool {
        capabilities.version.at_least(self.floor) && self.needs.met_by(capabilities)
    }

    /// Tests the capabilities against every precondition of the path.
    pub fn is_open_to(self, capabilities: &CapabilitySet) -> (open: bool)
        ensures
            open == self.open_to(capabilities@),
    {
        capabilities.version().at_least(self.floor) && self.needs.is_met_by(capabilities)
    }
}

/// A path of the core family: version 1.5 and `needs`.
pub open spec fn core_path(needs: Needs) -> Path {
    Path { route: Route::Core, floor: Version { major: 1, minor: 5 }, needs }
}

/// A path of the `KHR` family: version 1.2 and `needs`.
pub open spec fn khr_path(needs: Needs) -> Path {
    Path { route: Route::Khr, floor: Version { major: 1, minor: 2 }, needs }
}

impl Operation {
    /// The paths that can serve the operation, in the order in which they are
    /// tried.
    pub open spec fn spec_paths(self) -> Seq<Path> {
        match self {
            Operation::CreateImage => seq![core_path(Needs::Nothing), khr_path(Needs::Nothing)],
            Operation::PreserveImage => seq![
                core_path(Needs::Nothing),
                khr_path(Needs::One(Extension::KhrImageBase)),
            ],
            Operation::ImportNativePixmap => seq![
                core_path(Needs::Nothing),
                khr_path(Needs::One(Extension::KhrImage)),
                khr_path(Needs::Both(Extension::KhrImageBase, Extension::KhrNativePixmap)),
            ],
            Operation::ImportDmaBuf => seq![
                core_path(Needs::One(Extension::ExtImageDmaBufImport)),
                khr_path(Needs::Both(Extension::ExtImageDmaBufImport, Extension::KhrImageBase)),
            ],
        }
    }

    /// The reason given where no path is open.
    pub open spec fn refusal(self, capabilities: Capabilities) -> Reason {
        match self {
            Operation::CreateImage => Reason::ImageVersion,
            Operation::PreserveImage => Reason::ImagePreserved,
            Operation::ImportNativePixmap => Reason::NativePixmap,
            Operation::ImportDmaBuf => if capabilities.has(Extension::ExtImageDmaBufImport.token()) {
                Reason::DmaBufImageBase
            } else {
                Reason::DmaBufImport
            },
        }
    }

    /// The reason to give where no path is open.
    pub fn refuse(self, capabilities: &CapabilitySet) -> (reason: Reason)
        ensures
            reason == self.refusal(capabilities@),
    {
        match self {
            Operation::CreateImage => Reason::ImageVersion,
            Operation::PreserveImage => Reason::ImagePreserved,
            Operation::ImportNativePixmap => Reason::NativePixmap,
            Operation::ImportDmaBuf => if capabilities.has_extension(
                Extension::ExtImageDmaBufImport.name(),
            ) {
                Reason::DmaBufImageBase
            } else {
                Reason::DmaBufImport
            },
        }
    }

    /// The paths that can serve the operation, in the order in which they are
    /// tried.
    pub fn paths(self) -> (paths: Vec<Path>)
        ensures
            paths@ == self.spec_paths(),
    {
        let core = Version::new(1, 5);
        let khr = Version::new(1, 2);
        let mut paths: Vec<Path> = Vec::new();
        match self {
            Operation::CreateImage => {
                paths.push(Path { route: Route::Core, floor: core, needs: Needs::Nothing });
                paths.push(Path { route: Route::Khr, floor: khr, needs: Needs::Nothing });
            },
            Operation::PreserveImage => {
                paths.push(Path { route: Route::Core, floor: core, needs: Needs::Nothing });
                paths.push(
                    Path { route: Route::Khr, floor: khr, needs: Needs::One(Extension::KhrImageBase) },
                );
            },
            Operation::ImportNativePixmap => {
                paths.push(Path { route: Route::Core, floor: core, needs: Needs::Nothing });
                paths.push(
                    Path { route: Route::Khr, floor: khr, needs: Needs::One(Extension::KhrImage) },
                );
                paths.push(
                    Path {
                        route: Route::Khr,
                        floor: khr,
                        needs: Needs::Both(Extension::KhrImageBase, Extension::KhrNativePixmap),
                    },
                );
            },
            Operation::ImportDmaBuf => {
                paths.push(
                    Path {
                        route: Route::Core,
                        floor: core,
                        needs: Needs::One(Extension::ExtImageDmaBufImport),
                    },
                );
                paths.push(
                    Path {
                        route: Route::Khr,
                        floor: khr,
                        needs: Needs::Both(Extension::ExtImageDmaBufImport, Extension::KhrImageBase),
                    },
                );
            },
        }
        assert(paths@ =~= self.spec_paths());
        paths
    }
}

/// The first of `paths` that is open to the capabilities.
pub open spec fn first_open(paths: Seq<Path>, capabilities: Capabilities) -> Option<Path>
    decreases paths.len(),
{
    if paths.len() == 0 {
        None
    } else if paths[0].open_to(capabilities) {
        Some(paths[0])
    } else {
        first_open(paths.drop_first(), capabilities)
    }
}

/// What the resolver answers: the first path of the operation that is open to
/// the capabilities, or the refusal where none is.
pub open spec fn resolve(operation: Operation, capabilities: Capabilities) -> Result<Path, Error> {
    match first_open(operation.spec_paths(), capabilities) {
        Some(path) => Ok(path),
        None => Err(Error::NotSupported(operation.refusal(capabilities))),
    }
}

/// What `first_open` finds is one of the paths and open; it finds nothing only
/// where no path is open; and no path before the one found is open.
pub proof fn lemma_first_open(paths: Seq<Path>, capabilities: Capabilities)
    ensures
        match first_open(paths, capabilities) {
            Some(path) => exists|k: int|
                0 <= k < paths.len() && #[trigger] paths[k] == path && path.open_to(capabilities)
                    && forall|j: int| 0 <= j < k ==> !(#[trigger] paths[j]).open_to(capabilities),
            None => forall|k: int| 0 <= k < paths.len() ==> !(#[trigger] paths[k]).open_to(
                capabilities,
            ),
        },
    decreases paths.len(),
{
    if paths.len() > 0 && !paths[0].open_to(capabilities) {
        let rest = paths.drop_first();
        lemma_first_open(rest, capabilities);
        match first_open(rest, capabilities) {
            Some(path) => {
                let k = choose|k: int|
                    0 <= k < rest.len() && #[trigger] rest[k] == path && path.open_to(capabilities)
                        && forall|j: int| 0 <= j < k ==> !(#[trigger] rest[j]).open_to(capabilities);
                assert(paths[k + 1] == path);
                assert forall|j: int| 0 <= j < k + 1 implies !(#[trigger] paths[j]).open_to(
                    capabilities,
                ) by {
                    if j > 0 {
                        assert(rest[j - 1] == paths[j]);
                    }
                }
            },
            None => {
                assert forall|k: int| 0 <= k < paths.len() implies !(#[trigger] paths[k]).open_to(
                    capabilities,
                ) by {
                    if k > 0 {
                        assert(rest[k - 1] == paths[k]);
                    }
                }
            },
        }
    } else if paths.len() > 0 {
        assert(paths[0] == paths[0]);
    }
}

/// Dispatch is sound and complete. Where the resolver returns a path, the
/// path is one of the operation's and the capabilities meet its version floor
/// and hold its extensions. Where no path of the operation has its
/// preconditions met, and only there, the resolver answers `NotSupported`.
pub proof fn lemma_dispatch_sound_and_complete(operation: Operation, capabilities: Capabilities)
    ensures
        match resolve(operation, capabilities) {
            Ok(path) => {
                &&& operation.spec_paths().contains(path)
                &&& capabilities.version.at_least(path.floor)
                &&& path.needs.met_by(capabilities)
            },
            Err(error) => {
                &&& error == Error::NotSupported(operation.refusal(capabilities))
                &&& forall|path: Path| #[trigger]
                    operation.spec_paths().contains(path) ==> !path.open_to(capabilities)
            },
        },
        (forall|path: Path| #[trigger]
            operation.spec_paths().contains(path) ==> !path.open_to(capabilities)) ==> resolve(
            operation,
            capabilities,
        ) is Err,
{
    let paths = operation.spec_paths();
    lemma_first_open(paths, capabilities);
    match first_open(paths, capabilities) {
        Some(path) => {
            let k = choose|k: int| 0 <= k < paths.len() && #[trigger] paths[k] == path;
            assert(paths.contains(path));
        },
        None => {
            assert forall|path: Path| #[trigger] paths.contains(path) implies !path.open_to(
                capabilities,
            ) by {
                let k = choose|k: int| 0 <= k < paths.len() && paths[k] == path;
                assert(!paths[k].open_to(capabilities));
            }
        },
    }
}

/// The family of the path that the resolver returns is the one that the
/// version calls for.
pub proof fn lemma_route_follows_version(operation: Operation, capabilities: Capabilities)
    requires
        resolve(operation, capabilities) is Ok,
    ensures
        resolve(operation, capabilities)->Ok_0.route == Route::of(capabilities.version),
{
    reveal_with_fuel(first_open, 4);
}

/// Resolves an operation against the capabilities of a connection: returns
/// the first path that the capabilities open, and `NotSupported` with the
/// reason where they open none. Makes no native call.
pub fn dispatch(operation: Operation, capabilities: &CapabilitySet) -> (outcome: Result<Path, Error>)
    ensures
        outcome == resolve(operation, capabilities@),
{
    let paths = operation.paths();
    let mut k: usize = 0;
    assert(paths@.subrange(0, paths.len() as int) =~= paths@);
    while k < paths.len()
        invariant
            k <= paths.len(),
            paths@ == operation.spec_paths(),
            first_open(paths@, capabilities@) == first_open(
                paths@.subrange(k as int, paths.len() as int),
                capabilities@,
            ),
        decreases paths.len() - k,
    {
        let path = paths[k];
        let ghost rest = paths@.subrange(k as int, paths.len() as int);
        assert(rest[0] == path);
        if path.is_open_to(capabilities) {
            return Ok(path);
        }
        assert(rest.drop_first() =~= paths@.subrange(k + 1, paths.len() as int));
        k += 1;
    }
    let reason = operation.refuse(capabilities);
    Err(Error::NotSupported(reason))
}

} // verus!
