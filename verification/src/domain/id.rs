//! Identifiers. Each kind is a type of its own, so that one cannot stand for
//! another.

use vstd::prelude::*;

use crate::domain::error::GrodexError;
use crate::hash::hex_digits;
use crate::text::owned;

verus! {

/// The hyphenated form of a UUID: 32 lower-case hexadecimal digits in groups
/// of 8, 4, 4, 4 and 12.
pub open spec fn uuid_text_of(n: u128) -> Seq<char> {
    let h = hex_digits(n as nat, 32);
    h.subrange(0, 8) + seq!['-'] + h.subrange(8, 12) + seq!['-'] + h.subrange(12, 16) + seq!['-']
        + h.subrange(16, 20) + seq!['-'] + h.subrange(20, 32)
}

/// The UUID that a text is a notation of.
pub uninterp spec fn uuid_parse_of(text: Seq<char>) -> Option<u128>;

/// `uuid::Uuid::new_v4`: a random UUID of version 4 and of the RFC variant.
#[verifier::external_body]
pub(crate) fn random_uuid() -> (r: u128)
    ensures
        (r >> 76) & 0xf == 4,
        (r >> 62) & 0x3 == 2,
{
    uuid::Uuid::new_v4().as_u128()
}

/// The `Display` of `uuid::Uuid`: the hyphenated form in lower case.
#[verifier::external_body]
pub(crate) fn uuid_text(n: u128) -> (r: String)
    ensures
        r@ == uuid_text_of(n),
{
    uuid::Uuid::from_u128(n).to_string()
}

/// `uuid::Uuid::parse_str`: the UUID that a text is a notation of. It reads
/// back what `Display` writes.
#[verifier::external_body]
pub(crate) fn parse_uuid(text: &str) -> (r: Option<u128>)
    ensures
        r == uuid_parse_of(text@),
        forall|n: u128| text@ == #[trigger] uuid_text_of(n) ==> r == Some(n),
{
    uuid::Uuid::parse_str(text).ok().map(|u| u.as_u128())
}

/// A long-lived conversation.
#[derive(Debug, Clone, Copy, PartialEq, Eq, Hash, Structural)]
pub struct SessionId(u128);

impl SessionId {
    /// The number that the identifier stands for.
    pub closed spec fn value(self) -> u128 {
        self.0
    }

    /// A new random identifier.
    pub fn new() -> (r: Self)
        ensures
            (r.value() >> 76) & 0xf == 4,
            (r.value() >> 62) & 0x3 == 2,
    {
        SessionId(random_uuid())
    }

    /// The identifier that a text is a notation of.
    pub fn from_string(s: &str) -> (r: Result<Self, GrodexError>)
        ensures
            match r {
                Ok(id) => uuid_parse_of(s@) == Some(id.value()),
                Err(GrodexError::InvalidId(t)) => uuid_parse_of(s@) is None && t@ == s@,
                Err(_) => false,
            },
            forall|n: u128| s@ == #[trigger] uuid_text_of(n) ==> (r matches Ok(id) && id.value() == n),
    {
        match parse_uuid(s) {
            Some(n) => Ok(SessionId(n)),
            None => Err(GrodexError::InvalidId(owned(s))),
        }
    }

    /// The hyphenated form of the identifier.
    pub fn to_string(&self) -> (r: String)
        ensures
            r@ == uuid_text_of(self.value()),
    {
        uuid_text(self.0)
    }
}

impl Default for SessionId {
    fn default() -> (r: Self)
        ensures
            (r.value() >> 76) & 0xf == 4,
            (r.value() >> 62) & 0x3 == 2,
    {
        SessionId::new()
    }
}

/// One goal of the user, with the model samples it takes.
#[derive(Debug, Clone, Copy, PartialEq, Eq, Hash, Structural)]
pub struct TurnId(u128);

impl TurnId {
    /// The number that the identifier stands for.
    pub closed spec fn value(self) -> u128 {
        self.0
    }

    /// A new random identifier.
    pub fn new() -> (r: Self)
        ensures
            (r.value() >> 76) & 0xf == 4,
            (r.value() >> 62) & 0x3 == 2,
    {
        TurnId(random_uuid())
    }

    /// The identifier that a text is a notation of.
    pub fn from_string(s: &str) -> (r: Result<Self, GrodexError>)
        ensures
            match r {
                Ok(id) => uuid_parse_of(s@) == Some(id.value()),
                Err(GrodexError::InvalidId(t)) => uuid_parse_of(s@) is None && t@ == s@,
                Err(_) => false,
            },
            forall|n: u128| s@ == #[trigger] uuid_text_of(n) ==> (r matches Ok(id) && id.value() == n),
    {
        match parse_uuid(s) {
            Some(n) => Ok(TurnId(n)),
            None => Err(GrodexError::InvalidId(owned(s))),
        }
    }

    /// The hyphenated form of the identifier.
    pub fn to_string(&self) -> (r: String)
        ensures
            r@ == uuid_text_of(self.value()),
    {
        uuid_text(self.0)
    }
}

impl Default for TurnId {
    fn default() -> (r: Self)
        ensures
            (r.value() >> 76) & 0xf == 4,
            (r.value() >> 62) & 0x3 == 2,
    {
        TurnId::new()
    }
}

/// One model sample and the tool calls that come of it.
#[derive(Debug, Clone, Copy, PartialEq, Eq, Hash, Structural)]
pub struct StepId(u128);

impl StepId {
    /// The number that the identifier stands for.
    pub closed spec fn value(self) -> u128 {
        self.0
    }

    /// A new random identifier.
    pub fn new() -> (r: Self)
        ensures
            (r.value() >> 76) & 0xf == 4,
            (r.value() >> 62) & 0x3 == 2,
    {
        StepId(random_uuid())
    }

    /// The identifier that a text is a notation of.
    pub fn from_string(s: &str) -> (r: Result<Self, GrodexError>)
        ensures
            match r {
                Ok(id) => uuid_parse_of(s@) == Some(id.value()),
                Err(GrodexError::InvalidId(t)) => uuid_parse_of(s@) is None && t@ == s@,
                Err(_) => false,
            },
            forall|n: u128| s@ == #[trigger] uuid_text_of(n) ==> (r matches Ok(id) && id.value() == n),
    {
        match parse_uuid(s) {
            Some(n) => Ok(StepId(n)),
            None => Err(GrodexError::InvalidId(owned(s))),
        }
    }

    /// The hyphenated form of the identifier.
    pub fn to_string(&self) -> (r: String)
        ensures
            r@ == uuid_text_of(self.value()),
    {
        uuid_text(self.0)
    }
}

impl Default for StepId {
    fn default() -> (r: Self)
        ensures
            (r.value() >> 76) & 0xf == 4,
            (r.value() >> 62) & 0x3 == 2,
    {
        StepId::new()
    }
}

/// The capability snapshot that a step runs against.
#[derive(Debug, Clone, Copy, PartialEq, Eq, Hash, Structural)]
pub struct StepSnapshotId(u128);

impl StepSnapshotId {
    /// The number that the identifier stands for.
    pub closed spec fn value(self) -> u128 {
        self.0
    }

    /// A new random identifier.
    pub fn new() -> (r: Self)
        ensures
            (r.value() >> 76) & 0xf == 4,
            (r.value() >> 62) & 0x3 == 2,
    {
        StepSnapshotId(random_uuid())
    }

    /// The identifier that a text is a notation of.
    pub fn from_string(s: &str) -> (r: Result<Self, GrodexError>)
        ensures
            match r {
                Ok(id) => uuid_parse_of(s@) == Some(id.value()),
                Err(GrodexError::InvalidId(t)) => uuid_parse_of(s@) is None && t@ == s@,
                Err(_) => false,
            },
            forall|n: u128| s@ == #[trigger] uuid_text_of(n) ==> (r matches Ok(id) && id.value() == n),
    {
        match parse_uuid(s) {
            Some(n) => Ok(StepSnapshotId(n)),
            None => Err(GrodexError::InvalidId(owned(s))),
        }
    }

    /// The hyphenated form of the identifier.
    pub fn to_string(&self) -> (r: String)
        ensures
            r@ == uuid_text_of(self.value()),
    {
        uuid_text(self.0)
    }
}

impl Default for StepSnapshotId {
    fn default() -> (r: Self)
        ensures
            (r.value() >> 76) & 0xf == 4,
            (r.value() >> 62) & 0x3 == 2,
    {
        StepSnapshotId::new()
    }
}

/// The memory retrieval that a turn uses.
#[derive(Debug, Clone, Copy, PartialEq, Eq, Hash, Structural)]
pub struct MemorySnapshotId(u128);

impl MemorySnapshotId {
    /// The number that the identifier stands for.
    pub closed spec fn value(self) -> u128 {
        self.0
    }

    /// A new random identifier.
    pub fn new() -> (r: Self)
        ensures
            (r.value() >> 76) & 0xf == 4,
            (r.value() >> 62) & 0x3 == 2,
    {
        MemorySnapshotId(random_uuid())
    }

    /// The identifier that a text is a notation of.
    pub fn from_string(s: &str) -> (r: Result<Self, GrodexError>)
        ensures
            match r {
                Ok(id) => uuid_parse_of(s@) == Some(id.value()),
                Err(GrodexError::InvalidId(t)) => uuid_parse_of(s@) is None && t@ == s@,
                Err(_) => false,
            },
            forall|n: u128| s@ == #[trigger] uuid_text_of(n) ==> (r matches Ok(id) && id.value() == n),
    {
        match parse_uuid(s) {
            Some(n) => Ok(MemorySnapshotId(n)),
            None => Err(GrodexError::InvalidId(owned(s))),
        }
    }

    /// The hyphenated form of the identifier.
    pub fn to_string(&self) -> (r: String)
        ensures
            r@ == uuid_text_of(self.value()),
    {
        uuid_text(self.0)
    }
}

impl Default for MemorySnapshotId {
    fn default() -> (r: Self)
        ensures
            (r.value() >> 76) & 0xf == 4,
            (r.value() >> 62) & 0x3 == 2,
    {
        MemorySnapshotId::new()
    }
}

/// A tool call that the model made.
#[derive(Debug, Clone, Copy, PartialEq, Eq, Hash, Structural)]
pub struct ToolCallId(u128);

impl ToolCallId {
    /// The number that the identifier stands for.
    pub closed spec fn value(self) -> u128 {
        self.0
    }

    /// A new random identifier.
    pub fn new() -> (r: Self)
        ensures
            (r.value() >> 76) & 0xf == 4,
            (r.value() >> 62) & 0x3 == 2,
    {
        ToolCallId(random_uuid())
    }

    /// The identifier that a text is a notation of.
    pub fn from_string(s: &str) -> (r: Result<Self, GrodexError>)
        ensures
            match r {
                Ok(id) => uuid_parse_of(s@) == Some(id.value()),
                Err(GrodexError::InvalidId(t)) => uuid_parse_of(s@) is None && t@ == s@,
                Err(_) => false,
            },
            forall|n: u128| s@ == #[trigger] uuid_text_of(n) ==> (r matches Ok(id) && id.value() == n),
    {
        match parse_uuid(s) {
            Some(n) => Ok(ToolCallId(n)),
            None => Err(GrodexError::InvalidId(owned(s))),
        }
    }

    /// The hyphenated form of the identifier.
    pub fn to_string(&self) -> (r: String)
        ensures
            r@ == uuid_text_of(self.value()),
    {
        uuid_text(self.0)
    }
}

impl Default for ToolCallId {
    fn default() -> (r: Self)
        ensures
            (r.value() >> 76) & 0xf == 4,
            (r.value() >> 62) & 0x3 == 2,
    {
        ToolCallId::new()
    }
}

/// The key by which a side effect is recognised when it is retried.
#[derive(Debug, Clone, Copy, PartialEq, Eq, Hash, Structural)]
pub struct OperationId(u128);

impl OperationId {
    /// The number that the identifier stands for.
    pub closed spec fn value(self) -> u128 {
        self.0
    }

    /// A new random identifier.
    pub fn new() -> (r: Self)
        ensures
            (r.value() >> 76) & 0xf == 4,
            (r.value() >> 62) & 0x3 == 2,
    {
        OperationId(random_uuid())
    }

    /// The identifier that a text is a notation of.
    pub fn from_string(s: &str) -> (r: Result<Self, GrodexError>)
        ensures
            match r {
                Ok(id) => uuid_parse_of(s@) == Some(id.value()),
                Err(GrodexError::InvalidId(t)) => uuid_parse_of(s@) is None && t@ == s@,
                Err(_) => false,
            },
            forall|n: u128| s@ == #[trigger] uuid_text_of(n) ==> (r matches Ok(id) && id.value() == n),
    {
        match parse_uuid(s) {
            Some(n) => Ok(OperationId(n)),
            None => Err(GrodexError::InvalidId(owned(s))),
        }
    }

    /// The hyphenated form of the identifier.
    pub fn to_string(&self) -> (r: String)
        ensures
            r@ == uuid_text_of(self.value()),
    {
        uuid_text(self.0)
    }
}

impl Default for OperationId {
    fn default() -> (r: Self)
        ensures
            (r.value() >> 76) & 0xf == 4,
            (r.value() >> 62) & 0x3 == 2,
    {
        OperationId::new()
    }
}

/// A counter that compaction and recovery raise, so that events of an older
/// generation can be told apart.
#[derive(Debug, Clone, Copy, PartialEq, Eq, PartialOrd, Ord, Hash, Structural)]
pub struct StepGeneration(u64);

impl StepGeneration {
    /// The counter as a number.
    pub closed spec fn value(self) -> u64 {
        self.0
    }

    /// The generation `value`.
    pub fn new(value: u64) -> (r: Self)
        ensures
            r.value() == value,
    {
        StepGeneration(value)
    }

    /// The generation as a number.
    pub fn as_u64(self) -> (r: u64)
        ensures
            r == self.value(),
    {
        self.0
    }

    /// The first generation.
    pub fn initial() -> (r: Self)
        ensures
            r.value() == 0,
    {
        StepGeneration(0)
    }

    /// The generation after this one.
    pub fn next(self) -> (r: Self)
        requires
            self.value() < u64::MAX,
        ensures
            r.value() == self.value() + 1,
    {
        StepGeneration(self.0 + 1)
    }
}

impl Default for StepGeneration {
    fn default() -> (r: Self)
        ensures
            r.value() == 0,
    {
        StepGeneration::initial()
    }
}

/// The place of a tool call in the model's response. Lower places come first,
/// whenever the calls finish.
#[derive(Debug, Clone, Copy, PartialEq, Eq, PartialOrd, Ord, Hash, Structural)]
pub struct CommitSequence(u64);

impl CommitSequence {
    /// The place as a number.
    pub closed spec fn value(self) -> u64 {
        self.0
    }

    /// The place `value`.
    pub fn new(value: u64) -> (r: Self)
        ensures
            r.value() == value,
    {
        CommitSequence(value)
    }

    /// The place as a number.
    pub fn as_u64(self) -> (r: u64)
        ensures
            r == self.value(),
    {
        self.0
    }
}

/// A UUID is 32 hexadecimal digits, with hyphens behind the eighth, the twelfth,
/// the sixteenth and the twentieth.
pub proof fn uuids_have_five_groups(n: u128, i: int)
    requires
        0 <= i < 36,
    ensures
        ({
            let t = uuid_text_of(n);
            let h = hex_digits(n as nat, 32);
            let hyphens = (if i > 8 {
                1int
            } else {
                0
            }) + (if i > 13 {
                1int
            } else {
                0
            }) + (if i > 18 {
                1int
            } else {
                0
            }) + (if i > 23 {
                1int
            } else {
                0
            });
            &&& t.len() == 36
            &&& i == 8 || i == 13 || i == 18 || i == 23 ==> t[i] == '-'
            &&& i != 8 && i != 13 && i != 18 && i != 23 ==> t[i] == h[i - hyphens]
        }),
{
    crate::hash::numbers_fill_their_width(n as nat, 32);
}

} // verus!
