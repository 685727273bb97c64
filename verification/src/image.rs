//! Images: the sources they are imported from, the validation and encoding of
//! a creation request, and the handle that a successful creation leaves.
//!
//! A creation runs through these states. A request is validated against the
//! capabilities of the connection, encoded into an attribute list and
//! resolved to an entry point: all of this is [`Display::create_image`], which
//! makes no native call and returns the call to make, or the first refusal.
//! The caller makes that one call and hands what came back to
//! [`ImageCall::complete`], which returns the image or the failure. The image
//! is given up with [`Image::release`], which names the teardown call to make.

use vstd::prelude::*;

use crate::attributes::{AttributeKey, AttributeList, AttributeRequest, PlaneIndex, flatten};
use crate::attributes::{IMAGE_PRESERVED, lemma_key_codes_distinct};
use crate::dispatch::{Encoding, EntryPoint, Operation, Route, dispatch, resolve};
use crate::dispatch::lemma_route_follows_version;
use crate::display::{Connection, Display};
use crate::error::{Error, SUCCESS};

verus! {

/// The target of an import of a native pixmap.
pub const NATIVE_PIXMAP: u32 = 0x30B0;

/// The target of an import of a multi-plane buffer.
pub const LINUX_DMA_BUF: u32 = 0x3270;

/// The context handle that stands for no context.
pub const NO_CONTEXT: usize = 0;

/// The client buffer that stands for none.
pub const NO_BUFFER: usize = 0;

/// One plane of a multi-plane buffer.
#[derive(Clone, Copy, Debug)]
pub struct DmaBufPlane {
    /// The file descriptor of the plane. It is borrowed: the caller keeps it
    /// open for the creation call and closes it.
    pub fd: i32,
    /// The offset of the first sample of the plane, in bytes.
    pub offset: i32,
    /// The number of bytes between the starts of consecutive rows.
    pub pitch: i32,
}

/// A buffer to import as an image.
#[derive(Clone, Copy, Debug)]
pub enum ImageBuffer {
    /// A native pixmap.
    NativePixmap {
        /// The handle of the native buffer.
        buffer: usize,
    },
    /// A multi-plane buffer.
    DmaBuf {
        /// The main plane.
        plane0: DmaBufPlane,
        /// The width of the image.
        width: i32,
        /// The height of the image.
        height: i32,
        /// The pixel format, as a fourcc code.
        drm_fourcc: i32,
        /// The first additional plane of a multi-planar format.
        plane1: Option<DmaBufPlane>,
        /// The second additional plane of a multi-planar format.
        plane2: Option<DmaBufPlane>,
    },
}

/// The three pairs that describe a plane: descriptor, offset and pitch.
pub open spec fn plane_pairs(index: PlaneIndex, plane: DmaBufPlane) -> Seq<(AttributeKey, i32)> {
    seq![
        (AttributeKey::PlaneFd(index), plane.fd),
        (AttributeKey::PlaneOffset(index), plane.offset),
        (AttributeKey::PlanePitch(index), plane.pitch),
    ]
}

/// The pairs of a plane that may be absent: none where it is.
pub open spec fn optional_plane_pairs(index: PlaneIndex, plane: Option<DmaBufPlane>) -> Seq<
    (AttributeKey, i32),
> {
    match plane {
        Some(plane) => plane_pairs(index, plane),
        None => Seq::empty(),
    }
}

impl ImageBuffer {
    /// The plane of the buffer with the given index, if the buffer has it.
    pub open spec fn plane(self, index: PlaneIndex) -> Option<DmaBufPlane> {
        match self {
            ImageBuffer::NativePixmap { .. } => None,
            ImageBuffer::DmaBuf { plane0, plane1, plane2, .. } => match index {
                PlaneIndex::Plane0 => Some(plane0),
                PlaneIndex::Plane1 => plane1,
                PlaneIndex::Plane2 => plane2,
            },
        }
    }

    /// The operation that imports the buffer.
    pub open spec fn spec_operation(self) -> Operation {
        match self {
            ImageBuffer::NativePixmap { .. } => Operation::ImportNativePixmap,
            ImageBuffer::DmaBuf { .. } => Operation::ImportDmaBuf,
        }
    }

    /// The target that the creation call names.
    pub open spec fn spec_target(self) -> u32 {
        match self {
            ImageBuffer::NativePixmap { .. } => NATIVE_PIXMAP,
            ImageBuffer::DmaBuf { .. } => LINUX_DMA_BUF,
        }
    }

    /// The client buffer that the creation call names: the pixmap's handle,
    /// and none for a multi-plane buffer, which its attributes describe.
    pub open spec fn spec_client_buffer(self) -> usize {
        match self {
            ImageBuffer::NativePixmap { buffer } => buffer,
            ImageBuffer::DmaBuf { .. } => NO_BUFFER,
        }
    }

    /// The attributes that describe the buffer: for a multi-plane buffer its
    /// width, height and format, then the pairs of each plane that it has, by
    /// plane index; none for a native pixmap.
    pub open spec fn pairs(self) -> Seq<(AttributeKey, i32)> {
        match self {
            ImageBuffer::NativePixmap { .. } => Seq::empty(),
            ImageBuffer::DmaBuf { plane0, width, height, drm_fourcc, plane1, plane2 } => seq![
                (AttributeKey::Width, width),
                (AttributeKey::Height, height),
                (AttributeKey::LinuxDrmFourcc, drm_fourcc),
            ] + plane_pairs(PlaneIndex::Plane0, plane0) + optional_plane_pairs(
                PlaneIndex::Plane1,
                plane1,
            ) + optional_plane_pairs(PlaneIndex::Plane2, plane2),
        }
    }

    /// The attribute request of a creation from this buffer.
    pub open spec fn request(self, preserved: bool) -> AttributeList {
        AttributeList { preserved, pairs: self.pairs() }
    }

    /// The operation that imports the buffer.
    #[verifier::when_used_as_spec(spec_operation)]
    pub fn operation(self) -> (operation: Operation)
        ensures
            operation == self.spec_operation(),
    {
        match self {
            ImageBuffer::NativePixmap { .. } => Operation::ImportNativePixmap,
            ImageBuffer::DmaBuf { .. } => Operation::ImportDmaBuf,
        }
    }

    /// The target that the creation call names.
    #[verifier::when_used_as_spec(spec_target)]
    pub fn target(self) -> (target: u32)
        ensures
            target == self.spec_target(),
    {
        match self {
            ImageBuffer::NativePixmap { .. } => NATIVE_PIXMAP,
            ImageBuffer::DmaBuf { .. } => LINUX_DMA_BUF,
        }
    }

    /// The client buffer that the creation call names.
    #[verifier::when_used_as_spec(spec_client_buffer)]
    pub fn client_buffer(self) -> (buffer: usize)
        ensures
            buffer == self.spec_client_buffer(),
    {
        match self {
            ImageBuffer::NativePixmap { buffer } => buffer,
            ImageBuffer::DmaBuf { .. } => NO_BUFFER,
        }
    }
}

/// The creation call to make, as a mathematical value.
pub struct ImagePlan {
    /// The connection to create the image on.
    pub display: Connection,
    /// The import that was asked for.
    pub operation: Operation,
    /// The family of the entry point to call.
    pub route: Route,
    /// The target to name.
    pub target: u32,
    /// The client buffer to name.
    pub buffer: usize,
    /// The attribute list to pass, terminator included.
    pub attributes: Seq<i32>,
}

/// An image as a mathematical value.
pub struct ImageState {
    /// The connection that the image was created on.
    pub display: Connection,
    /// The native handle of the image.
    pub raw: usize,
}

/// A teardown call to make.
#[derive(Clone, Copy, Debug, PartialEq, Eq, Structural)]
pub struct Teardown {
    /// The entry point to call.
    pub entry: EntryPoint,
    /// The native handle of the connection.
    pub display: usize,
    /// The native handle of the image to destroy.
    pub image: usize,
}

/// What a creation request comes to, before any native call. The checks run
/// in this order, and the first that fails decides: images need version 1.2;
/// the preserved flag, if asked for, must be legal; the import of the buffer's
/// kind must have an open path. The family of that path decides the entry
/// point.
pub open spec fn plan_image(display: Connection, buffer: ImageBuffer, preserved: bool) -> Result<
    ImagePlan,
    Error,
> {
    let capabilities = display.capabilities;
    match resolve(Operation::CreateImage, capabilities) {
        Err(error) => Err(error),
        Ok(_) => match resolve(Operation::PreserveImage, capabilities) {
            Err(error) if preserved => Err(error),
            _ => match resolve(buffer.operation(), capabilities) {
                Err(error) => Err(error),
                Ok(path) => Ok(
                    ImagePlan {
                        display,
                        operation: buffer.operation(),
                        route: path.route,
                        target: buffer.target(),
                        buffer: buffer.client_buffer(),
                        attributes: buffer.request(preserved).encode(),
                    },
                ),
            },
        },
    }
}

/// What a creation call that was made comes to: the image if the native API
/// reports success, the failure with its code otherwise.
pub open spec fn completed(plan: ImagePlan, image: usize, code: i32) -> Result<ImageState, Error> {
    match Error::check_native(code, plan.operation, plan.route.create_entry()) {
        Ok(_) => Ok(ImageState { display: plan.display, raw: image }),
        Err(error) => Err(error),
    }
}

/// The teardown call that gives up an image: the entry point of the family
/// that the connection's version calls for, on the image's connection and
/// handle.
pub open spec fn teardown_of(image: ImageState) -> Teardown {
    Teardown {
        entry: Route::of(image.display.capabilities.version).destroy_entry(),
        display: image.display.raw,
        image: image.raw,
    }
}

/// A creation call to make: the outcome of a request that passed validation.
#[derive(Debug)]
pub struct ImageCall {
    display: Display,
    operation: Operation,
    route: Route,
    target: u32,
    buffer: usize,
    attributes: Vec<i32>,
}

/// An image. It holds its connection, and is given up once, by `release`.
#[derive(Debug)]
pub struct Image {
    display: Display,
    raw: usize,
}

impl View for ImageCall {
    type V = ImagePlan;

    closed spec fn view(&self) -> ImagePlan {
        ImagePlan {
            display: self.display@,
            operation: self.operation,
            route: self.route,
            target: self.target,
            buffer: self.buffer,
            attributes: self.attributes@,
        }
    }
}

impl View for Image {
    type V = ImageState;

    closed spec fn view(&self) -> ImageState {
        ImageState { display: self.display@, raw: self.raw }
    }
}

/// Asks for the three attributes of a plane.
fn push_plane(request: &mut AttributeRequest, index: PlaneIndex, plane: DmaBufPlane)
    ensures
        final(request)@ == (AttributeList {
            preserved: old(request)@.preserved,
            pairs: old(request)@.pairs + plane_pairs(index, plane),
        }),
{
    request.push(AttributeKey::PlaneFd(index), plane.fd);
    request.push(AttributeKey::PlaneOffset(index), plane.offset);
    request.push(AttributeKey::PlanePitch(index), plane.pitch);
    assert(request@.pairs =~= old(request)@.pairs + plane_pairs(index, plane));
}

/// Builds the attribute request of a creation from `buffer`.
fn encode_request(buffer: &ImageBuffer, preserved: bool) -> (request: AttributeRequest)
    ensures
        request@ == buffer.request(preserved),
{
    let mut request = AttributeRequest::new();
    if preserved {
        request.preserve();
    }
    match buffer {
        ImageBuffer::NativePixmap { .. } => {},
        ImageBuffer::DmaBuf { plane0, width, height, drm_fourcc, plane1, plane2 } => {
            request.push(AttributeKey::Width, *width);
            request.push(AttributeKey::Height, *height);
            request.push(AttributeKey::LinuxDrmFourcc, *drm_fourcc);
            push_plane(&mut request, PlaneIndex::Plane0, *plane0);
            if let Some(plane) = plane1 {
                push_plane(&mut request, PlaneIndex::Plane1, *plane);
            }
            if let Some(plane) = plane2 {
                push_plane(&mut request, PlaneIndex::Plane2, *plane);
            }
        },
    }
    assert(request@.pairs =~= buffer.pairs());
    request
}

impl Display {
    /// Prepares the import of `buffer` as an image: validates the request
    /// against the capabilities of the connection, encodes its attributes and
    /// picks the entry point. Makes no native call. Fails with `NotSupported`
    /// and the first requirement that is not met; succeeds otherwise, with
    /// the one creation call to make.
    pub fn create_image(&self, buffer: ImageBuffer, image_preserved: bool) -> (outcome: Result<
        ImageCall,
        Error,
    >)
        ensures
            match outcome {
                Ok(call) => plan_image(self@, buffer, image_preserved) == Ok::<ImagePlan, Error>(
                    call@,
                ),
                Err(error) => plan_image(self@, buffer, image_preserved) == Err::<ImagePlan, Error>(
                    error,
                ),
            },
    {
        let capabilities = self.capabilities();
        if let Err(error) = dispatch(Operation::CreateImage, capabilities) {
            return Err(error);
        }
        if image_preserved {
            if let Err(error) = dispatch(Operation::PreserveImage, capabilities) {
                return Err(error);
            }
        }
        let operation = buffer.operation();
        let path = match dispatch(operation, capabilities) {
            Ok(path) => path,
            Err(error) => {
                return Err(error);
            },
        };
        let request = encode_request(&buffer, image_preserved);
        Ok(
            ImageCall {
                display: self.clone(),
                operation,
                route: path.route,
                target: buffer.target(),
                buffer: buffer.client_buffer(),
                attributes: request.finalize(),
            },
        )
    }
}

/// Widens an attribute list to pointer-sized attributes, value by value.
fn widen(attributes: &Vec<i32>) -> (wide: Vec<isize>)
    ensures
        wide@.len() == attributes@.len(),
        forall|i: int| 0 <= i < wide@.len() ==> #[trigger] wide@[i] as int == attributes@[i] as int,
{
    let mut wide: Vec<isize> = Vec::new();
    let mut k: usize = 0;
    while k < attributes.len()
        invariant
            k <= attributes.len(),
            wide@.len() == k,
            forall|i: int| 0 <= i < k ==> #[trigger] wide@[i] as int == attributes@[i] as int,
        decreases attributes.len() - k,
    {
        wide.push(attributes[k] as isize);
        k += 1;
    }
    wide
}

impl ImageCall {
    /// The entry point to call.
    pub fn entry(&self) -> (entry: EntryPoint)
        ensures
            entry == self@.route.create_entry(),
    {
        self.route.create_entry()
    }

    /// How the entry point takes the attribute list.
    pub fn encoding(&self) -> (encoding: Encoding)
        ensures
            encoding == self@.route.encoding(),
    {
        self.route.encoding()
    }

    /// The native handle of the connection to create the image on.
    pub fn display(&self) -> (display: usize)
        ensures
            display == self@.display.raw,
    {
        self.display.raw()
    }

    /// The context to name: always none.
    pub fn context(&self) -> (context: usize)
        ensures
            context == NO_CONTEXT,
    {
        NO_CONTEXT
    }

    /// The target to name.
    pub fn target(&self) -> (target: u32)
        ensures
            target == self@.target,
    {
        self.target
    }

    /// The client buffer to name.
    pub fn client_buffer(&self) -> (buffer: usize)
        ensures
            buffer == self@.buffer,
    {
        self.buffer
    }

    /// The attribute list as 32-bit attributes, terminator included.
    pub fn attributes(&self) -> (attributes: &Vec<i32>)
        ensures
            attributes@ == self@.attributes,
    {
        &self.attributes
    }

    /// The attribute list as pointer-sized attributes, terminator included.
    pub fn wide_attributes(&self) -> (attributes: Vec<isize>)
        ensures
            attributes@.len() == self@.attributes.len(),
            forall|i: int|
                0 <= i < attributes@.len() ==> #[trigger] attributes@[i] as int
                    == self@.attributes[i] as int,
    {
        widen(&self.attributes)
    }

    /// Takes what the creation call returned: the handle, and the code that
    /// the native API reported for the call. Returns the image, which holds
    /// the connection, if the code is that of success; the failure with the
    /// code otherwise, and no image.
    pub fn complete(self, image: usize, code: i32) -> (outcome: Result<Image, Error>)
        ensures
            match outcome {
                Ok(created) => completed(self@, image, code) == Ok::<ImageState, Error>(created@),
                Err(error) => completed(self@, image, code) == Err::<ImageState, Error>(error),
            },
    {
        match Error::check_native(code, self.operation, self.route.create_entry()) {
            Ok(_) => Ok(Image { display: self.display, raw: image }),
            Err(error) => Err(error),
        }
    }
}

impl Image {
    /// The native handle of the image.
    pub fn as_raw(&self) -> (raw: usize)
        ensures
            raw == self@.raw,
    {
        self.raw
    }

    /// Gives the image up and names the teardown call to make for it. The
    /// image is consumed: no second teardown can come of it.
    pub fn release(self) -> (teardown: Teardown)
        ensures
            teardown == teardown_of(self@),
    {
        Teardown {
            entry: Route::of(self.display.version()).destroy_entry(),
            display: self.display.raw(),
            image: self.raw,
        }
    }
}

/// Teardown goes the way creation went: the image of a creation call is
/// destroyed through the entry point of the family that created it.
pub proof fn lemma_teardown_follows_creation(
    display: Connection,
    buffer: ImageBuffer,
    preserved: bool,
    image: usize,
)
    requires
        plan_image(display, buffer, preserved) is Ok,
    ensures
        ({
            let plan = plan_image(display, buffer, preserved)->Ok_0;
            let created = completed(plan, image, SUCCESS)->Ok_0;
            &&& completed(plan, image, SUCCESS) is Ok
            &&& teardown_of(created).entry == plan.route.destroy_entry()
            &&& teardown_of(created).display == display.raw
            &&& teardown_of(created).image == image
        }),
{
    lemma_route_follows_version(buffer.operation(), display.capabilities);
}

/// An absent plane leaves no trace. Where a buffer lacks a plane, no key of
/// that plane stands among the attributes that describe the buffer, and none
/// of the plane's three numbers stands at a key's place in the encoded list.
pub proof fn lemma_absent_plane_is_omitted(buffer: ImageBuffer, index: PlaneIndex, preserved: bool)
    requires
        buffer.plane(index) is None,
    ensures
        forall|k: int|
            0 <= k < buffer.pairs().len() ==> {
                let key = (#[trigger] buffer.pairs()[k]).0;
                &&& key != AttributeKey::PlaneFd(index)
                &&& key != AttributeKey::PlaneOffset(index)
                &&& key != AttributeKey::PlanePitch(index)
            },
        forall|i: int|
            0 <= i < buffer.request(preserved).encode().len() - 1 && i % 2 == 0 ==> {
                let number = #[trigger] buffer.request(preserved).encode()[i];
                &&& number != AttributeKey::PlaneFd(index).code()
                &&& number != AttributeKey::PlaneOffset(index).code()
                &&& number != AttributeKey::PlanePitch(index).code()
            },
{
    let pairs = buffer.pairs();
    let encoded = buffer.request(preserved).encode();
    let shift: int = if preserved { 2 } else { 0 };
    assert forall|i: int| 0 <= i < encoded.len() - 1 && i % 2 == 0 implies {
        let number = #[trigger] encoded[i];
        &&& number != AttributeKey::PlaneFd(index).code()
        &&& number != AttributeKey::PlaneOffset(index).code()
        &&& number != AttributeKey::PlanePitch(index).code()
    } by {
        if i >= shift {
            let k = (i - shift) / 2;
            let key = pairs[k].0;
            assert(encoded[i] == flatten(pairs)[i - shift]);
            assert(encoded[i] == key.code());
            lemma_key_codes_distinct(key, AttributeKey::PlaneFd(index));
            lemma_key_codes_distinct(key, AttributeKey::PlaneOffset(index));
            lemma_key_codes_distinct(key, AttributeKey::PlanePitch(index));
        } else {
            assert(encoded[i] == IMAGE_PRESERVED);
        }
    }
}

/// One creation call that was made, with what it returned.
pub struct Attempt {
    /// The call.
    pub plan: ImagePlan,
    /// The handle that the call returned.
    pub image: usize,
    /// The code that the native API reported for the call.
    pub code: i32,
}

impl Attempt {
    /// Whether the attempt left an image.
    pub open spec fn succeeded(self) -> bool {
        completed(self.plan, self.image, self.code) is Ok
    }

    /// The teardown call of the image that the attempt left.
    pub open spec fn teardown(self) -> Teardown {
        teardown_of(completed(self.plan, self.image, self.code)->Ok_0)
    }
}

/// The teardown calls that come of completing each attempt and releasing
/// every image that came out, in the order of the attempts.
pub open spec fn released(attempts: Seq<Attempt>) -> Seq<Teardown>
    decreases attempts.len(),
{
    if attempts.len() == 0 {
        Seq::empty()
    } else {
        let before = released(attempts.drop_last());
        match completed(attempts.last().plan, attempts.last().image, attempts.last().code) {
            Ok(image) => before.push(teardown_of(image)),
            Err(_) => before,
        }
    }
}

/// Each image is torn down exactly once. Of any number of creation attempts,
/// those that succeeded leave one teardown call each, for the handle that the
/// attempt returned and on its connection, and those that failed leave none:
/// there are exactly as many teardown calls as images were created.
pub proof fn lemma_one_teardown_per_image(attempts: Seq<Attempt>)
    ensures
        released(attempts) == attempts.filter(|attempt: Attempt| attempt.succeeded()).map_values(
            |attempt: Attempt| attempt.teardown(),
        ),
        released(attempts).len() == attempts.filter(|attempt: Attempt| attempt.succeeded()).len(),
        released(attempts).len() <= attempts.len(),
        forall|attempt: Attempt|
            attempts.contains(attempt) && attempt.code != SUCCESS ==> !attempt.succeeded(),
    decreases attempts.len(),
{
    let succeeded = |attempt: Attempt| attempt.succeeded();
    let teardown = |attempt: Attempt| attempt.teardown();
    if attempts.len() == 0 {
        assert(attempts.filter(succeeded) =~= Seq::<Attempt>::empty()) by {
            reveal(Seq::filter);
        }
        assert(released(attempts) =~= attempts.filter(succeeded).map_values(teardown));
    } else {
        let before = attempts.drop_last();
        let last = attempts.last();
        lemma_one_teardown_per_image(before);
        assert(attempts.filter(succeeded) == if succeeded(last) {
            before.filter(succeeded).push(last)
        } else {
            before.filter(succeeded)
        }) by {
            reveal(Seq::filter);
        }
        assert(released(attempts) =~= attempts.filter(succeeded).map_values(teardown));
    }
}

} // verus!
