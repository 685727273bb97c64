//! The capability registry: the version a connection negotiated and the
//! extension tokens it advertises.

use vstd::prelude::*;
use vstd::string::*;

use crate::version::Version;

verus! {

/// Whether a byte separates the tokens of an extension string: a space, a tab,
/// a line feed, a vertical tab, a form feed or a carriage return.
pub open spec fn spec_is_separator(byte: u8) -> bool {
    byte == 0x20 || 0x09 <= byte <= 0x0d
}

/// Whether every byte of `text` is ASCII. An extension string that is not is
/// malformed.
pub open spec fn is_ascii_text(text: Seq<u8>) -> bool {
    forall|i: int| 0 <= i < text.len() ==> #[trigger] text[i] < 0x80
}

/// Whether `text[start..end]` is a token: a non-empty run of bytes that are no
/// separators, which no such byte precedes or follows.
pub open spec fn is_token_at(text: Seq<u8>, start: int, end: int) -> bool {
    &&& 0 <= start < end <= text.len()
    &&& forall|i: int| start <= i < end ==> !spec_is_separator(#[trigger] text[i])
    &&& (start == 0 || spec_is_separator(text[start - 1]))
    &&& (end == text.len() || spec_is_separator(text[end]))
}

/// Whether `token` is one of the tokens of `text`.
pub open spec fn is_token(text: Seq<u8>, token: Seq<u8>) -> bool {
    exists|start: int, end: int|
        is_token_at(text, start, end) && #[trigger] text.subrange(start, end) == token
}

/// The tokens that an extension string advertises. A malformed string
/// advertises none.
pub open spec fn extension_tokens(text: Seq<u8>) -> Set<Seq<u8>> {
    if is_ascii_text(text) {
        Set::new(|token: Seq<u8>| is_token(text, token))
    } else {
        Set::empty()
    }
}

/// What a connection negotiated, as a mathematical value.
pub struct Capabilities {
    /// The version of the native API.
    pub version: Version,
    /// The extension tokens, each by the bytes of its name.
    pub extensions: Set<Seq<u8>>,
}

impl Capabilities {
    /// Membership of a token: exact and case-sensitive.
    pub open spec fn has(self, token: Seq<u8>) -> bool {
        self.extensions.contains(token)
    }

    /// What the queries made at connection time amount to. A missing or
    /// malformed version counts as the earliest one, a missing or malformed
    /// extension string as no extension.
    pub open spec fn negotiated(
        reported: Option<(i32, i32)>,
        extensions: Option<Seq<u8>>,
    ) -> Capabilities {
        Capabilities {
            version: match reported {
                Some((major, minor)) => Version::from_reported(major, minor),
                None => Version::earliest(),
            },
            extensions: match extensions {
                Some(text) => extension_tokens(text),
                None => Set::empty(),
            },
        }
    }
}

/// The negotiated version and extension tokens of one connection. Built once,
/// when the connection is made, and only read afterwards.
#[derive(Debug)]
pub struct CapabilitySet {
    version: Version,
    tokens: Vec<Vec<u8>>,
}

/// Whether one of `tokens` holds exactly the bytes `token`.
spec fn holds_token(tokens: Seq<Vec<u8>>, token: Seq<u8>) -> bool {
    exists|k: int| 0 <= k < tokens.len() && #[trigger] tokens[k]@ == token
}

/// Whether `token` is a token of `text` that ends at `limit` or before.
spec fn is_token_before(text: Seq<u8>, token: Seq<u8>, limit: int) -> bool {
    exists|start: int, end: int|
        is_token_at(text, start, end) && end <= limit && #[trigger] text.subrange(start, end)
            == token
}

/// A token cannot end right behind a separator.
proof fn lemma_separator_ends_no_token(text: Seq<u8>, token: Seq<u8>, at: int)
    requires
        0 <= at < text.len(),
        spec_is_separator(text[at]),
        is_token_before(text, token, at + 1),
    ensures
        is_token_before(text, token, at),
{
    let (start, end) = choose|start: int, end: int|
        is_token_at(text, start, end) && end <= at + 1 && #[trigger] text.subrange(start, end)
            == token;
    if end == at + 1 {
        assert(!spec_is_separator(text[end - 1]));
    }
    assert(is_token_at(text, start, end) && end <= at && text.subrange(start, end) == token);
}

/// A run of bytes between two separators is the only token that ends inside it.
proof fn lemma_run_is_single_token(text: Seq<u8>, first: int, last: int, start: int, end: int)
    requires
        is_token_at(text, first, last),
        is_token_at(text, start, end),
        first < end <= last,
    ensures
        start == first,
        end == last,
{
    if end < last {
        assert(!spec_is_separator(text[end]));
    }
    if start < first {
        assert(!spec_is_separator(text[first - 1]));
    }
    if start > first {
        assert(!spec_is_separator(text[start - 1]));
    }
}

/// Behind a run that is a token, the tokens found are those found before it
/// and the run.
proof fn lemma_run_adds_one_token(
    text: Seq<u8>,
    earlier: Seq<Vec<u8>>,
    word: Vec<u8>,
    first: int,
    last: int,
)
    requires
        is_token_at(text, first, last),
        word@ == text.subrange(first, last),
        forall|token: Seq<u8>|
            holds_token(earlier, token) <==> is_token_before(text, token, first),
    ensures
        forall|token: Seq<u8>|
            holds_token(earlier.push(word), token) <==> is_token_before(text, token, last),
{
    let tokens = earlier.push(word);
    assert(tokens[earlier.len() as int]@ == text.subrange(first, last));
    assert forall|token: Seq<u8>| holds_token(tokens, token) implies is_token_before(
        text,
        token,
        last,
    ) by {
        let k = choose|k: int| 0 <= k < tokens.len() && #[trigger] tokens[k]@ == token;
        if k < earlier.len() {
            assert(earlier[k]@ == token);
            assert(holds_token(earlier, token));
            let (start, end) = choose|start: int, end: int|
                is_token_at(text, start, end) && end <= first && #[trigger] text.subrange(
                    start,
                    end,
                ) == token;
            assert(is_token_at(text, start, end) && end <= last && text.subrange(start, end)
                == token);
        }
    }
    assert forall|token: Seq<u8>| is_token_before(text, token, last) implies holds_token(
        tokens,
        token,
    ) by {
        let (start, end) = choose|start: int, end: int|
            is_token_at(text, start, end) && end <= last && #[trigger] text.subrange(start, end)
                == token;
        if end <= first {
            assert(is_token_before(text, token, first));
            assert(holds_token(earlier, token));
            let k = choose|k: int| 0 <= k < earlier.len() && #[trigger] earlier[k]@ == token;
            assert(tokens[k]@ == token);
        } else {
            lemma_run_is_single_token(text, first, last, start, end);
            assert(tokens[earlier.len() as int]@ == token);
        }
    }
}

/// Tests a byte for being a separator.
#[verifier::when_used_as_spec(spec_is_separator)]
pub fn is_separator(byte: u8) -> (separates: bool)
    ensures
        separates == spec_is_separator(byte),
{
    byte == 0x20 || (0x09 <= byte && byte <= 0x0d)
}

/// Tests two byte strings for equality.
fn same_bytes(left: &Vec<u8>, right: &[u8]) -> (same: bool)
    ensures
        same == (left@ == right@),
{
    if left.len() != right.len() {
        return false;
    }
    let mut i: usize = 0;
    while i < left.len()
        invariant
            i <= left.len(),
            left.len() == right.len(),
            forall|j: int| 0 <= j < i ==> left@[j] == right@[j],
        decreases left.len() - i,
    {
        if left[i] != right[i] {
            return false;
        }
        i += 1;
    }
    assert(left@ =~= right@);
    true
}

/// Tests a byte string for holding ASCII only.
fn all_ascii(text: &[u8]) -> (ascii: bool)
    ensures
        ascii == is_ascii_text(text@),
{
    let mut i: usize = 0;
    while i < text.len()
        invariant
            i <= text.len(),
            forall|j: int| 0 <= j < i ==> #[trigger] text@[j] < 0x80,
        decreases text.len() - i,
    {
        if text[i] >= 0x80 {
            return false;
        }
        i += 1;
    }
    true
}

/// Cuts a byte string into its tokens, in the order in which they stand.
fn tokenize(text: &[u8]) -> (tokens: Vec<Vec<u8>>)
    ensures
        forall|token: Seq<u8>| holds_token(tokens@, token) <==> is_token(text@, token),
{
    let mut tokens: Vec<Vec<u8>> = Vec::new();
    let mut i: usize = 0;
    while i < text.len()
        invariant
            i <= text.len(),
            i == 0 || i == text.len() || spec_is_separator(text@[i - 1]) || spec_is_separator(
                text@[i as int],
            ),
            forall|token: Seq<u8>|
                holds_token(tokens@, token) <==> is_token_before(text@, token, i as int),
        decreases text.len() - i,
    {
        if is_separator(text[i]) {
            proof {
                assert forall|token: Seq<u8>|
                    is_token_before(text@, token, i + 1) implies is_token_before(
                    text@,
                    token,
                    i as int,
                ) by {
                    lemma_separator_ends_no_token(text@, token, i as int);
                }
            }
            i += 1;
        } else {
            let first = i;
            let ghost earlier = tokens@;
            let mut run: Vec<u8> = Vec::new();
            while i < text.len() && !is_separator(text[i])
                invariant
                    first <= i <= text.len(),
                    forall|j: int| first <= j < i ==> !spec_is_separator(#[trigger] text@[j]),
                    run@ == text@.subrange(first as int, i as int),
                decreases text.len() - i,
            {
                run.push(text[i]);
                i += 1;
            }
            let ghost word = run;
            tokens.push(run);
            proof {
                lemma_run_adds_one_token(text@, earlier, word, first as int, i as int);
            }
        }
    }
    proof {
        assert forall|token: Seq<u8>| is_token(text@, token) implies is_token_before(
            text@,
            token,
            i as int,
        ) by {
            let (start, end) = choose|start: int, end: int|
                is_token_at(text@, start, end) && #[trigger] text@.subrange(start, end) == token;
            assert(is_token_at(text@, start, end) && end <= i && text@.subrange(start, end)
                == token);
        }
    }
    tokens
}

impl View for CapabilitySet {
    type V = Capabilities;

    closed spec fn view(&self) -> Capabilities {
        Capabilities {
            version: self.version,
            extensions: Set::new(|token: Seq<u8>| holds_token(self.tokens@, token)),
        }
    }
}

impl CapabilitySet {
    /// Builds the registry of a connection from the version it negotiated and
    /// the extension string it returned.
    pub fn new(version: Version, extensions: &[u8]) -> (capabilities: CapabilitySet)
        ensures
            capabilities@ == (Capabilities {
                version,
                extensions: extension_tokens(extensions@),
            }),
    {
        let tokens = if all_ascii(extensions) {
            tokenize(extensions)
        } else {
            Vec::new()
        };
        let capabilities = CapabilitySet { version, tokens };
        assert(capabilities@.extensions =~= extension_tokens(extensions@));
        capabilities
    }

    /// Builds the registry from what the queries at connection time returned,
    /// where `None` stands for an answer that did not come. Never fails: what
    /// is missing or malformed degrades to the earliest version and to no
    /// extension.
    pub fn negotiate(reported: Option<(i32, i32)>, extensions: Option<&[u8]>) -> (capabilities:
        CapabilitySet)
        ensures
            capabilities@ == Capabilities::negotiated(
                reported,
                match extensions {
                    Some(text) => Some(text@),
                    None => None,
                },
            ),
    {
        let version = match reported {
            Some((major, minor)) => Version::from_reported(major, minor),
            None => Version::earliest(),
        };
        match extensions {
            Some(text) => CapabilitySet::new(version, text),
            None => {
                let capabilities = CapabilitySet { version, tokens: Vec::new() };
                assert(capabilities@.extensions =~= Set::<Seq<u8>>::empty());
                capabilities
            },
        }
    }

    /// The negotiated version.
    pub fn version(&self) -> (version: Version)
        ensures
            version == self@.version,
    {
        self.version
    }

    /// Whether the negotiated version is `major.minor` or later.
    pub fn version_at_least(&self, major: u8, minor: u8) -> (reached: bool)
        ensures
            reached == self@.version.at_least(Version { major, minor }),
    {
        self.version.at_least(Version::new(major, minor))
    }

    /// Whether the connection advertises the extension named `token`. The
    /// name is compared byte for byte with each token.
    pub fn has_extension(&self, token: &str) -> (present: bool)
        ensures
            present == self@.has(token.spec_bytes()),
    {
        let wanted = token.as_bytes();
        let mut k: usize = 0;
        while k < self.tokens.len()
            invariant
                k <= self.tokens.len(),
                wanted@ == token.spec_bytes(),
                forall|j: int| 0 <= j < k ==> self.tokens@[j]@ != wanted@,
            decreases self.tokens.len() - k,
        {
            if same_bytes(&self.tokens[k], wanted) {
                assert(holds_token(self.tokens@, wanted@));
                return true;
            }
            k += 1;
        }
        false
    }
}

} // verus!
