//! The allow-list of program identifiers that decides which accounts are
//! forwarded.

use crate::base58::{base58_bytes, decode_base58};
use crate::error::FatalError;
use vstd::prelude::*;

verus! {

/// The identifier that a decoded byte string stands for: the string
/// itself where it is exactly 32 bytes long. A shorter or a longer string
/// stands for none.
pub open spec fn identifier_of(decoded: Seq<u8>) -> Option<Seq<u8>> {
    if decoded.len() == 32 {
        Some(decoded)
    } else {
        None
    }
}

/// The identifier that a configured base58 text stands for, if any.
pub open spec fn configured_identifier(text: Seq<char>) -> Option<Seq<u8>> {
    match base58_bytes(text) {
        Some(decoded) => identifier_of(decoded),
        None => None,
    }
}

/// Whether `members` are the identifiers that `texts` stand for, one for
/// one and in their order.
pub open spec fn identifiers_of(texts: Seq<String>, members: Seq<Seq<u8>>) -> bool {
    &&& members.len() == texts.len()
    &&& forall|i: int|
        0 <= i < texts.len() ==> configured_identifier(#[trigger] texts[i]@) == Some(members[i])
}

/// Whether the text at `index` is the first that stands for no identifier.
pub open spec fn first_malformed(texts: Seq<String>, index: int) -> bool {
    &&& 0 <= index < texts.len()
    &&& configured_identifier(texts[index]@) is None
    &&& forall|j: int| 0 <= j < index ==> configured_identifier(#[trigger] texts[j]@) is Some
}

/// `id` with one bit of one of its bytes inverted.
pub open spec fn flip_bit(id: Seq<u8>, byte: int, bit: u8) -> Seq<u8> {
    id.update(byte, id[byte] ^ (1u8 << bit))
}

/// The identifier that a decoded byte string is: its bytes where there are
/// exactly 32 of them, `None` for every other length.
pub fn identifier_from_bytes(decoded: &[u8]) -> (id: Option<[u8; 32]>)
    ensures
        match id {
            Some(bytes) => identifier_of(decoded@) == Some(bytes@),
            None => identifier_of(decoded@) is None,
        },
{
    if decoded.len() != 32 {
        return None;
    }
    let mut bytes: [u8; 32] = [0u8; 32];
    let mut i: usize = 0;
    while i < 32
        invariant
            i <= 32,
            decoded@.len() == 32,
            forall|k: int| 0 <= k < i ==> bytes@[k] == decoded@[k],
        decreases 32 - i,
    {
        bytes[i] = decoded[i];
        i += 1;
    }
    assert(bytes@ =~= decoded@);
    Some(bytes)
}

/// Whether a stored identifier and a byte string are the same bytes.
fn same_bytes(id: &[u8; 32], other: &[u8]) -> (same: bool)
    ensures
        same == (id@ == other@),
{
    if other.len() != 32 {
        return false;
    }
    let mut i: usize = 0;
    while i < 32
        invariant
            i <= 32,
            other@.len() == 32,
            forall|k: int| 0 <= k < i ==> id@[k] == other@[k],
        decreases 32 - i,
    {
        if id[i] != other[i] {
            return false;
        }
        i += 1;
    }
    assert(id@ =~= other@);
    true
}

/// The identifiers of the tracked programs, in the order they were
/// configured. Every member is exactly 32 bytes long.
#[derive(Clone, Debug)]
pub struct TrackedProgramSet {
    programs: Vec<[u8; 32]>,
}

impl View for TrackedProgramSet {
    type V = Seq<Seq<u8>>;

    closed spec fn view(&self) -> Seq<Seq<u8>> {
        self.programs@.map_values(|id: [u8; 32]| id@)
    }
}

impl TrackedProgramSet {
    /// Whether `owner` is, byte for byte, one of the members.
    pub open spec fn tracks(&self, owner: Seq<u8>) -> bool {
        self@.contains(owner)
    }

    /// The set without members.
    pub fn new() -> (set: TrackedProgramSet)
        ensures
            set@ == Seq::<Seq<u8>>::empty(),
    {
        let set = TrackedProgramSet { programs: Vec::new() };
        assert(set@ =~= Seq::<Seq<u8>>::empty());
        set
    }

    /// The number of members, repeated entries counted.
    pub fn len(&self) -> (n: usize)
        ensures
            n == self@.len(),
    {
        self.programs.len()
    }

    /// Builds the set from the configured base58 texts, one member for each
    /// text and in their order. The first text that does not decode to
    /// exactly 32 bytes fails the whole construction.
    pub fn from_texts(texts: &Vec<String>) -> (built: Result<TrackedProgramSet, FatalError>)
        ensures
            match built {
                Ok(set) => identifiers_of(texts@, set@),
                Err(error) => error matches FatalError::MalformedProgram { index }
                    && first_malformed(texts@, index as int),
            },
    {
        let mut programs: Vec<[u8; 32]> = Vec::new();
        let mut i: usize = 0;
        while i < texts.len()
            invariant
                i <= texts@.len(),
                programs@.len() == i,
                forall|k: int|
                    0 <= k < i ==> configured_identifier(#[trigger] texts@[k]@) == Some(
                        programs@[k]@,
                    ),
            decreases texts@.len() - i,
        {
            let id = match decode_base58(texts[i].as_str()) {
                Ok(decoded) => identifier_from_bytes(decoded.as_slice()),
                Err(_) => None,
            };
            match id {
                Some(bytes) => programs.push(bytes),
                None => {
                    return Err(FatalError::MalformedProgram { index: i });
                },
            }
            i += 1;
        }
        let set = TrackedProgramSet { programs };
        Ok(set)
    }

    /// Whether `owner` belongs to a tracked program: exact equality with a
    /// member, so an owner of another length is never tracked.
    pub fn is_tracked(&self, owner: &[u8]) -> (found: bool)
        ensures
            found == self.tracks(owner@),
    {
        let mut i: usize = 0;
        while i < self.programs.len()
            invariant
                i <= self.programs@.len(),
                forall|k: int| 0 <= k < i ==> self@[k] != owner@,
            decreases self.programs@.len() - i,
        {
            if same_bytes(&self.programs[i], owner) {
                assert(self@[i as int] == owner@);
                return true;
            }
            i += 1;
        }
        false
    }
}

/// Every member of a set is exactly 32 bytes long.
pub proof fn lemma_members_are_32_bytes(set: TrackedProgramSet)
    ensures
        forall|i: int| 0 <= i < set@.len() ==> (#[trigger] set@[i]).len() == 32,
{
}

/// Every configured identifier is tracked under its exact 32 bytes. The
/// same bytes with a single bit inverted differ from it, and are not
/// tracked unless another configured identifier is that very value.
pub proof fn lemma_configured_identifier_is_tracked(
    texts: Seq<String>,
    members: Seq<Seq<u8>>,
    i: int,
    byte: int,
    bit: u8,
)
    requires
        identifiers_of(texts, members),
        0 <= i < texts.len(),
        0 <= byte < 32,
        bit < 8,
        forall|j: int|
            0 <= j < members.len() && j != i ==> members[j] != flip_bit(members[i], byte, bit),
    ensures
        configured_identifier(texts[i]@) == Some(members[i]),
        members[i].len() == 32,
        members.contains(members[i]),
        flip_bit(members[i], byte, bit) != members[i],
        !members.contains(flip_bit(members[i], byte, bit)),
{
    let id = members[i];
    let flipped = flip_bit(id, byte, bit);
    let before = id[byte];
    assert(configured_identifier(texts[i]@) == Some(id));
    assert(before ^ (1u8 << bit) != before) by (bit_vector)
        requires
            bit < 8,
    ;
    assert(flipped[byte] != id[byte]);
}

} // verus!
