//! The typed record that an account payload carries, and its binary layout.
//!
//! A payload starts with an 8-byte tag that is skipped unread. The record
//! follows in a fixed layout: `age` as four little-endian bytes, then
//! `name` and `country`, each as a little-endian 32-bit byte count followed
//! by that many bytes of UTF-8. Bytes after the record are ignored.

use vstd::prelude::*;
use vstd::slice::slice_subrange;
use vstd::string::StringSliceAdditionalSpecFns;
use vstd::utf8::{decode_utf8, encode_utf8, valid_utf8};

verus! {

/// The number of leading payload bytes that are skipped before the record.
pub const TAG_LEN: usize = 8;

/// The value of a record, as contracts speak of it.
pub struct RecordView {
    pub age: u32,
    pub name: Seq<char>,
    pub country: Seq<char>,
}

/// The number that the first four bytes of `bytes` hold, least significant
/// byte first.
pub open spec fn le_u32(bytes: Seq<u8>) -> int
    recommends
        bytes.len() >= 4,
{
    bytes[0] + bytes[1] * 0x100 + bytes[2] * 0x1_0000 + bytes[3] * 0x100_0000
}

/// The four bytes that hold `value`, least significant byte first.
pub open spec fn u32_le_bytes(value: u32) -> Seq<u8> {
    seq![
        (value % 0x100) as u8,
        ((value / 0x100) % 0x100) as u8,
        ((value / 0x1_0000) % 0x100) as u8,
        (value / 0x100_0000) as u8,
    ]
}

/// The length-prefixed text at the head of `bytes`, with the number of
/// bytes it occupies, or `None` where the bytes are cut short or the text
/// is not UTF-8.
pub open spec fn text_at_head(bytes: Seq<u8>) -> Option<(Seq<char>, int)> {
    if bytes.len() < 4 {
        None
    } else {
        let end = 4 + le_u32(bytes);
        if bytes.len() < end {
            None
        } else if !valid_utf8(bytes.subrange(4, end)) {
            None
        } else {
            Some((decode_utf8(bytes.subrange(4, end)), end))
        }
    }
}

/// The record laid out at the head of `payload`, if there is one.
pub open spec fn record_of_payload(payload: Seq<u8>) -> Option<RecordView> {
    if payload.len() < 4 {
        None
    } else {
        match text_at_head(payload.skip(4)) {
            None => None,
            Some((name, name_len)) => match text_at_head(payload.skip(4 + name_len)) {
                None => None,
                Some((country, _)) => Some(
                    RecordView { age: le_u32(payload) as u32, name, country },
                ),
            },
        }
    }
}

/// The record that account data decodes to. Data of nine bytes or fewer is
/// not looked at; longer data is read from behind its tag.
pub open spec fn decoded_record(data: Seq<u8>) -> Option<RecordView> {
    if data.len() <= 9 {
        None
    } else {
        record_of_payload(data.skip(8))
    }
}

/// What became of the attempt to decode account data.
#[derive(Clone, Copy, Debug, PartialEq, Eq, Structural)]
pub enum DecodeStatus {
    /// The data is nine bytes or fewer and was not looked at.
    Skipped,
    /// The data holds a record.
    Decoded,
    /// The data is long enough to be looked at and holds no record: it is
    /// cut short, or a text in it is not UTF-8.
    Failed,
}

/// What becomes of the attempt to decode `data`.
pub open spec fn decode_status_of(data: Seq<u8>) -> DecodeStatus {
    if data.len() <= 9 {
        DecodeStatus::Skipped
    } else if decoded_record(data) is None {
        DecodeStatus::Failed
    } else {
        DecodeStatus::Decoded
    }
}

/// The bytes of a length-prefixed text.
pub open spec fn text_bytes(text: Seq<char>) -> Seq<u8> {
    u32_le_bytes(encode_utf8(text).len() as u32) + encode_utf8(text)
}

/// The bytes of a record in the fixed layout, without a tag in front.
pub open spec fn payload_of_record(record: RecordView) -> Seq<u8> {
    u32_le_bytes(record.age) + text_bytes(record.name) + text_bytes(record.country)
}

impl RecordView {
    /// The record that stands in for a payload that did not decode.
    pub open spec fn empty() -> RecordView {
        RecordView { age: 0, name: Seq::empty(), country: Seq::empty() }
    }

    /// Whether both texts are short enough for their 32-bit byte counts.
    pub open spec fn encodable(self) -> bool {
        &&& encode_utf8(self.name).len() <= u32::MAX
        &&& encode_utf8(self.country).len() <= u32::MAX
    }
}

/// The record of one account: the typed content of its payload.
#[derive(Clone, Debug, PartialEq, Eq)]
pub struct NewAccount {
    age: u32,
    name: String,
    country: String,
}

impl View for NewAccount {
    type V = RecordView;

    closed spec fn view(&self) -> RecordView {
        RecordView { age: self.age, name: self.name@, country: self.country@ }
    }
}

impl Default for NewAccount {
    /// The record that is forwarded when a payload does not decode: age 0
    /// and two empty texts.
    fn default() -> (record: NewAccount)
        ensures
            record@ == RecordView::empty(),
    {
        NewAccount { age: 0, name: String::new(), country: String::new() }
    }
}

/// Reads the little-endian number in the four bytes of `data` from `at`.
fn read_u32(data: &[u8], at: usize) -> (value: u32)
    requires
        at + 4 <= data@.len(),
    ensures
        value == le_u32(data@.skip(at as int)),
{
    let b0: u32 = data[at] as u32;
    let b1: u32 = data[at + 1] as u32;
    let b2: u32 = data[at + 2] as u32;
    let b3: u32 = data[at + 3] as u32;
    b0 + b1 * 0x100 + b2 * 0x1_0000 + b3 * 0x100_0000
}

/// Appends the four little-endian bytes of `value` to `out`.
fn write_u32(out: &mut Vec<u8>, value: u32)
    ensures
        final(out)@ == old(out)@ + u32_le_bytes(value),
{
    out.push((value % 0x100) as u8);
    out.push(((value / 0x100) % 0x100) as u8);
    out.push(((value / 0x1_0000) % 0x100) as u8);
    out.push((value / 0x100_0000) as u8);
    assert(out@ =~= old(out)@ + u32_le_bytes(value));
}

/// Appends `bytes` to `out`.
fn write_bytes(out: &mut Vec<u8>, bytes: &[u8])
    ensures
        final(out)@ == old(out)@ + bytes@,
{
    let mut i: usize = 0;
    while i < bytes.len()
        invariant
            i <= bytes@.len(),
            out@ == old(out)@ + bytes@.take(i as int),
        decreases bytes@.len() - i,
    {
        out.push(bytes[i]);
        assert(bytes@.take(i + 1) =~= bytes@.take(i as int).push(bytes@[i as int]));
        i += 1;
    }
    assert(bytes@.take(i as int) =~= bytes@);
}

/// Reads the length-prefixed text that starts at `at`, and says where the
/// bytes behind it start.
fn read_text(data: &[u8], at: usize) -> (read: Option<(String, usize)>)
    requires
        at <= data@.len(),
    ensures
        match read {
            Some((text, next)) => {
                &&& at <= next <= data@.len()
                &&& text_at_head(data@.skip(at as int)) == Some((text@, next - at))
            },
            None => text_at_head(data@.skip(at as int)) is None,
        },
{
    let room: usize = data.len() - at;
    if room < 4 {
        return None;
    }
    let count: usize = read_u32(data, at) as usize;
    if room - 4 < count {
        return None;
    }
    let start: usize = at + 4;
    let end: usize = start + count;
    let body = slice_subrange(data, start, end);
    assert(body@ =~= data@.skip(at as int).subrange(4, 4 + count as int));
    match core::str::from_utf8(body) {
        Ok(text) => Some((text.to_owned(), end)),
        Err(_) => None,
    }
}

impl NewAccount {
    /// A record with the given content.
    pub fn new(age: u32, name: String, country: String) -> (record: NewAccount)
        ensures
            record@ == (RecordView { age, name: name@, country: country@ }),
    {
        NewAccount { age, name, country }
    }

    /// The age.
    pub fn age(&self) -> (age: u32)
        ensures
            age == self@.age,
    {
        self.age
    }

    /// The name.
    pub fn name(&self) -> (name: &str)
        ensures
            name@ == self@.name,
    {
        self.name.as_str()
    }

    /// The country.
    pub fn country(&self) -> (country: &str)
        ensures
            country@ == self@.country,
    {
        self.country.as_str()
    }

    /// Decodes the record out of account data. Data of nine bytes or fewer
    /// is skipped; from longer data the first eight bytes are dropped and
    /// the record is read from what follows. `None` stands for skipped
    /// data as well as for data that is cut short or holds text that is
    /// not UTF-8.
    pub fn decode(data: &[u8]) -> (decoded: Option<NewAccount>)
        ensures
            match decoded {
                Some(record) => decoded_record(data@) == Some(record@),
                None => decoded_record(data@) is None,
            },
    {
        if data.len() <= 9 {
            return None;
        }
        let payload = slice_subrange(data, TAG_LEN, data.len());
        assert(payload@ =~= data@.skip(8));
        if payload.len() < 4 {
            return None;
        }
        let age: u32 = read_u32(payload, 0);
        assert(payload@.skip(0) =~= payload@);
        match read_text(payload, 4) {
            None => None,
            Some((name, after_name)) => match read_text(payload, after_name) {
                None => None,
                Some((country, _)) => Some(NewAccount { age, name, country }),
            },
        }
    }

    /// Says what becomes of decoding `data`, for the log: skipped exactly
    /// where the data is nine bytes or fewer, failed exactly where longer
    /// data holds no record, decoded in every other case.
    pub fn decode_status(data: &[u8]) -> (status: DecodeStatus)
        ensures
            status == decode_status_of(data@),
            status == DecodeStatus::Skipped <==> data@.len() <= 9,
            status == DecodeStatus::Failed <==> data@.len() > 9 && decoded_record(data@) is None,
            status == DecodeStatus::Decoded <==> decoded_record(data@) is Some,
    {
        if data.len() <= 9 {
            DecodeStatus::Skipped
        } else {
            match NewAccount::decode(data) {
                Some(_) => DecodeStatus::Decoded,
                None => DecodeStatus::Failed,
            }
        }
    }

    /// Lays the record out as bytes, without a tag in front. `None` where
    /// a text is longer than a 32-bit byte count can say.
    pub fn encode(&self) -> (encoded: Option<Vec<u8>>)
        ensures
            match encoded {
                Some(bytes) => self@.encodable() && bytes@ == payload_of_record(self@),
                None => !self@.encodable(),
            },
    {
        let name = self.name.as_str().as_bytes();
        let country = self.country.as_str().as_bytes();
        if name.len() > 0xFFFF_FFFF || country.len() > 0xFFFF_FFFF {
            return None;
        }
        let mut out: Vec<u8> = Vec::new();
        write_u32(&mut out, self.age);
        write_u32(&mut out, name.len() as u32);
        write_bytes(&mut out, name);
        write_u32(&mut out, country.len() as u32);
        write_bytes(&mut out, country);
        assert(out@ =~= payload_of_record(self@));
        Some(out)
    }
}

/// Reading the four bytes of a number gives the number back.
pub proof fn lemma_le_u32_of_bytes(value: u32, rest: Seq<u8>)
    ensures
        le_u32(u32_le_bytes(value) + rest) == value,
        (u32_le_bytes(value) + rest).len() == 4 + rest.len(),
{
    let bytes = u32_le_bytes(value) + rest;
    assert(bytes[0] == (value % 0x100) as u8);
    assert(bytes[1] == ((value / 0x100) % 0x100) as u8);
    assert(bytes[2] == ((value / 0x1_0000) % 0x100) as u8);
    assert(bytes[3] == (value / 0x100_0000) as u8);
}

/// A length-prefixed text is read back from the head of any bytes that
/// start with it.
pub proof fn lemma_text_at_head_of_bytes(text: Seq<char>, rest: Seq<u8>)
    requires
        encode_utf8(text).len() <= u32::MAX,
    ensures
        text_at_head(text_bytes(text) + rest) == Some((text, 4 + encode_utf8(text).len() as int)),
        (text_bytes(text) + rest).skip(4 + encode_utf8(text).len() as int) == rest,
{
    let body = encode_utf8(text);
    let count = body.len() as u32;
    let bytes = text_bytes(text) + rest;
    assert(bytes =~= u32_le_bytes(count) + (body + rest));
    lemma_le_u32_of_bytes(count, body + rest);
    assert(bytes.subrange(4, 4 + body.len() as int) =~= body);
    vstd::utf8::encode_utf8_valid_utf8(text);
    vstd::utf8::encode_utf8_decode_utf8(text);
    assert(bytes.skip(4 + body.len() as int) =~= rest);
}

/// A record is read back from the bytes it was laid out as.
proof fn lemma_record_of_payload(record: RecordView)
    requires
        record.encodable(),
    ensures
        record_of_payload(payload_of_record(record)) == Some(record),
        payload_of_record(record).len() >= 12,
{
    let name_bytes = text_bytes(record.name);
    let country_bytes = text_bytes(record.country);
    let texts = name_bytes + country_bytes;
    let payload = payload_of_record(record);
    let name_len: int = 4 + encode_utf8(record.name).len() as int;

    assert(payload == u32_le_bytes(record.age) + texts) by {
        assert(payload =~= u32_le_bytes(record.age) + texts);
    }
    lemma_le_u32_of_bytes(record.age, texts);
    assert(payload.skip(4) == texts) by {
        assert(payload.skip(4) =~= texts);
    }
    lemma_text_at_head_of_bytes(record.name, country_bytes);
    assert(text_at_head(payload.skip(4)) == Some((record.name, name_len)));
    assert(payload.skip(4 + name_len) == country_bytes) by {
        assert(payload.skip(4 + name_len) =~= texts.skip(name_len));
    }
    assert(country_bytes + Seq::<u8>::empty() == country_bytes) by {
        assert(country_bytes + Seq::<u8>::empty() =~= country_bytes);
    }
    lemma_text_at_head_of_bytes(record.country, Seq::empty());
    assert(text_at_head(country_bytes) == Some(
        (record.country, 4 + encode_utf8(record.country).len() as int),
    ));
}

/// Encoding a record and decoding the result, behind any 8-byte tag, gives
/// the record back, for every record whose texts fit their length prefix.
pub proof fn lemma_encode_then_decode(record: RecordView, tag: Seq<u8>)
    requires
        tag.len() == 8,
        record.encodable(),
    ensures
        decoded_record(tag + payload_of_record(record)) == Some(record),
{
    let payload = payload_of_record(record);
    lemma_record_of_payload(record);
    assert((tag + payload).skip(8) == payload) by {
        assert((tag + payload).skip(8) =~= payload);
    }
}

} // verus!
