//! The attribute list builder: key-value pairs, kept in the order that the
//! native API reads them in, and their encoding as a terminated array.

use vstd::prelude::*;

verus! {

/// The key that terminates an attribute list.
pub const NONE: i32 = 0x3038;

/// The value of a flag that is set.
pub const TRUE: i32 = 1;

/// The key of the flag that asks to keep the pixels of the imported buffer.
pub const IMAGE_PRESERVED: i32 = 0x30D2;

/// The key of the height of an image.
pub const HEIGHT: i32 = 0x3056;

/// The key of the width of an image.
pub const WIDTH: i32 = 0x3057;

/// The key of the pixel format of a multi-plane buffer, as a fourcc code.
pub const LINUX_DRM_FOURCC: i32 = 0x3271;

/// The key of the file descriptor of the first plane. The keys of a plane's
/// offset and pitch follow it, and then the three keys of the next plane.
pub const DMA_BUF_PLANE0_FD: i32 = 0x3272;

/// The planes of a multi-plane buffer.
#[derive(Clone, Copy, Debug, PartialEq, Eq, Structural)]
pub enum PlaneIndex {
    /// The main plane.
    Plane0,
    /// The first additional plane of a multi-planar format.
    Plane1,
    /// The second additional plane of a multi-planar format.
    Plane2,
}

/// The keys that an attribute list can hold besides the preserved flag.
#[derive(Clone, Copy, Debug, PartialEq, Eq, Structural)]
pub enum AttributeKey {
    /// The width of the image.
    Width,
    /// The height of the image.
    Height,
    /// The pixel format.
    LinuxDrmFourcc,
    /// The file descriptor of a plane.
    PlaneFd(PlaneIndex),
    /// The offset of a plane's first sample, in bytes.
    PlaneOffset(PlaneIndex),
    /// The number of bytes between the rows of a plane.
    PlanePitch(PlaneIndex),
}

impl PlaneIndex {
    /// The plane's number: 0, 1 or 2.
    pub open spec fn spec_number(self) -> i32 {
        match self {
            PlaneIndex::Plane0 => 0,
            PlaneIndex::Plane1 => 1,
            PlaneIndex::Plane2 => 2,
        }
    }

    /// The plane's number: 0, 1 or 2.
    #[verifier::when_used_as_spec(spec_number)]
    pub fn number(self) -> (number: i32)
        ensures
            number == self.spec_number(),
    {
        match self {
            PlaneIndex::Plane0 => 0,
            PlaneIndex::Plane1 => 1,
            PlaneIndex::Plane2 => 2,
        }
    }
}

impl AttributeKey {
    /// The number that stands for the key in an encoded list.
    pub open spec fn spec_code(self) -> i32 {
        match self {
            AttributeKey::Width => WIDTH,
            AttributeKey::Height => HEIGHT,
            AttributeKey::LinuxDrmFourcc => LINUX_DRM_FOURCC,
            AttributeKey::PlaneFd(plane) => (DMA_BUF_PLANE0_FD + 3 * plane.number()) as i32,
            AttributeKey::PlaneOffset(plane) => (DMA_BUF_PLANE0_FD + 3 * plane.number() + 1) as i32,
            AttributeKey::PlanePitch(plane) => (DMA_BUF_PLANE0_FD + 3 * plane.number() + 2) as i32,
        }
    }

    /// The number that stands for the key in an encoded list.
    #[verifier::when_used_as_spec(spec_code)]
    pub fn code(self) -> (code: i32)
        ensures
            code == self.spec_code(),
    {
        match self {
            AttributeKey::Width => WIDTH,
            AttributeKey::Height => HEIGHT,
            AttributeKey::LinuxDrmFourcc => LINUX_DRM_FOURCC,
            AttributeKey::PlaneFd(plane) => DMA_BUF_PLANE0_FD + 3 * plane.number(),
            AttributeKey::PlaneOffset(plane) => DMA_BUF_PLANE0_FD + 3 * plane.number() + 1,
            AttributeKey::PlanePitch(plane) => DMA_BUF_PLANE0_FD + 3 * plane.number() + 2,
        }
    }
}

/// The numbers of two keys differ unless the keys are the same, and none is
/// the terminator or the key of the preserved flag.
pub proof fn lemma_key_codes_distinct(a: AttributeKey, b: AttributeKey)
    ensures
        a.code() == b.code() ==> a == b,
        a.code() != NONE,
        a.code() != IMAGE_PRESERVED,
{
}

/// The numbers of a list of pairs: each key's number, then its value.
pub open spec fn flatten(pairs: Seq<(AttributeKey, i32)>) -> Seq<i32> {
    Seq::new(
        2 * pairs.len(),
        |i: int|
            if i % 2 == 0 {
                pairs[i / 2].0.code()
            } else {
                pairs[i / 2].1
            },
    )
}

/// An attribute request as a mathematical value.
pub struct AttributeList {
    /// Whether the preserved flag was asked for.
    pub preserved: bool,
    /// The other pairs, in the order in which they were asked for.
    pub pairs: Seq<(AttributeKey, i32)>,
}

impl AttributeList {
    /// The request that asks for nothing.
    pub open spec fn empty() -> AttributeList {
        AttributeList { preserved: false, pairs: Seq::empty() }
    }

    /// The request with one more pair at its end.
    pub open spec fn push(self, key: AttributeKey, value: i32) -> AttributeList {
        AttributeList { preserved: self.preserved, pairs: self.pairs.push((key, value)) }
    }

    /// The request with the preserved flag.
    pub open spec fn preserve(self) -> AttributeList {
        AttributeList { preserved: true, pairs: self.pairs }
    }

    /// The pair of the preserved flag where it was asked for. It stands at the
    /// head of the encoded list: some native implementations read the first
    /// slot specially.
    pub open spec fn head(self) -> Seq<i32> {
        if self.preserved {
            seq![IMAGE_PRESERVED, TRUE]
        } else {
            Seq::empty()
        }
    }

    /// The encoded list: the preserved flag if it was asked for, the other
    /// pairs in their order, and the terminator.
    pub open spec fn encode(self) -> Seq<i32> {
        self.head() + flatten(self.pairs) + seq![NONE]
    }
}

/// Flattening one more pair adds its two numbers at the end.
proof fn lemma_flatten_push(pairs: Seq<(AttributeKey, i32)>, key: AttributeKey, value: i32)
    ensures
        flatten(pairs.push((key, value))) == flatten(pairs) + seq![key.code(), value],
{
    let longer = pairs.push((key, value));
    let left = flatten(longer);
    let right = flatten(pairs) + seq![key.code(), value];
    assert(left.len() == right.len());
    assert forall|i: int| 0 <= i < left.len() implies left[i] == right[i] by {
        if i < 2 * pairs.len() {
            assert(longer[i / 2] == pairs[i / 2]);
        } else {
            assert(longer[i / 2] == (key, value));
        }
    }
    assert(left =~= right);
}

/// An attribute list under construction.
#[derive(Debug)]
pub struct AttributeRequest {
    preserved: bool,
    pairs: Vec<(AttributeKey, i32)>,
}

impl View for AttributeRequest {
    type V = AttributeList;

    closed spec fn view(&self) -> AttributeList {
        AttributeList { preserved: self.preserved, pairs: self.pairs@ }
    }
}

impl AttributeRequest {
    /// A request that asks for nothing yet.
    pub fn new() -> (request: AttributeRequest)
        ensures
            request@ == AttributeList::empty(),
    {
        AttributeRequest { preserved: false, pairs: Vec::new() }
    }

    /// Asks for one more attribute. It is encoded behind those asked for
    /// before it.
    pub fn push(&mut self, key: AttributeKey, value: i32)
        ensures
            final(self)@ == old(self)@.push(key, value),
    {
        self.pairs.push((key, value));
    }

    /// Asks for the preserved flag. It is encoded at the head of the list,
    /// whatever was asked for before or is asked for later.
    pub fn preserve(&mut self)
        ensures
            final(self)@ == old(self)@.preserve(),
    {
        self.preserved = true;
    }

    /// Encodes the request as the array that a native call takes, with the
    /// terminator at its end.
    pub fn finalize(&self) -> (encoded: Vec<i32>)
        ensures
            encoded@ == self@.encode(),
    {
        let mut encoded: Vec<i32> = Vec::new();
        if self.preserved {
            encoded.push(IMAGE_PRESERVED);
            encoded.push(TRUE);
        }
        assert(encoded@ =~= self@.head() + flatten(self.pairs@.take(0)));
        let mut k: usize = 0;
        while k < self.pairs.len()
            invariant
                k <= self.pairs.len(),
                encoded@ == self@.head() + flatten(self.pairs@.take(k as int)),
            decreases self.pairs.len() - k,
        {
            let (key, value) = self.pairs[k];
            proof {
                lemma_flatten_push(self.pairs@.take(k as int), key, value);
                assert(self.pairs@.take(k + 1) =~= self.pairs@.take(k as int).push((key, value)));
            }
            encoded.push(key.code());
            encoded.push(value);
            assert(encoded@ =~= self@.head() + flatten(self.pairs@.take(k + 1)));
            k += 1;
        }
        assert(self.pairs@.take(k as int) =~= self.pairs@);
        encoded.push(NONE);
        encoded
    }
}

/// One step in the making of a request.
pub enum Edit {
    /// Asking for the preserved flag.
    Preserve,
    /// Asking for another attribute.
    Push(AttributeKey, i32),
}

/// The request that a sequence of steps makes, starting from the empty one.
pub open spec fn replay(edits: Seq<Edit>) -> AttributeList
    decreases edits.len(),
{
    if edits.len() == 0 {
        AttributeList::empty()
    } else {
        match edits.last() {
            Edit::Preserve => replay(edits.drop_last()).preserve(),
            Edit::Push(key, value) => replay(edits.drop_last()).push(key, value),
        }
    }
}

/// The attributes that a sequence of steps asks for besides the preserved
/// flag, in their order.
pub open spec fn pushed(edits: Seq<Edit>) -> Seq<(AttributeKey, i32)>
    decreases edits.len(),
{
    if edits.len() == 0 {
        Seq::empty()
    } else {
        match edits.last() {
            Edit::Preserve => pushed(edits.drop_last()),
            Edit::Push(key, value) => pushed(edits.drop_last()).push((key, value)),
        }
    }
}

/// Encoding is a function of the request: two requests that ask for the same
/// encode to the same array.
pub proof fn lemma_encoding_deterministic(a: AttributeRequest, b: AttributeRequest)
    requires
        a@ == b@,
    ensures
        a@.encode() == b@.encode(),
{
}

/// The preserved flag leads. Whenever a request was made by steps of which one
/// asked for the preserved flag, at whatever place among them, the encoded
/// list starts with the flag's key and value; the other attributes follow in
/// the order in which they were asked for, and the terminator ends the list.
pub proof fn lemma_preserved_flag_leads(edits: Seq<Edit>)
    requires
        edits.contains(Edit::Preserve),
    ensures
        replay(edits).encode()[0] == IMAGE_PRESERVED,
        replay(edits).encode()[1] == TRUE,
        replay(edits).encode() == seq![IMAGE_PRESERVED, TRUE] + flatten(pushed(edits)) + seq![NONE],
{
    lemma_replay(edits);
}

/// What a sequence of steps makes: the flag if one of them asked for it, and
/// the other attributes in their order.
pub proof fn lemma_replay(edits: Seq<Edit>)
    ensures
        replay(edits).preserved == edits.contains(Edit::Preserve),
        replay(edits).pairs == pushed(edits),
    decreases edits.len(),
{
    if edits.len() > 0 {
        let before = edits.drop_last();
        lemma_replay(before);
        if before.contains(Edit::Preserve) {
            let k = choose|k: int| 0 <= k < before.len() && before[k] == Edit::Preserve;
            assert(edits[k] == Edit::Preserve);
        }
        if edits.contains(Edit::Preserve) && !(edits.last() is Preserve) {
            let k = choose|k: int| 0 <= k < edits.len() && edits[k] == Edit::Preserve;
            assert(before[k] == Edit::Preserve);
        }
        if edits.last() is Preserve {
            assert(edits[edits.len() - 1] == Edit::Preserve);
        }
    }
}

} // verus!
