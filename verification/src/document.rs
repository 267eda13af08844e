//! The flat document that is sent for one account: the account's envelope
//! with the fields of its record laid over it.

use crate::json::{
    json_object_text, json_value, object_entry, object_fields, object_get, object_insert,
    object_len, object_new, object_text, value_of_bytes, value_of_flag, value_of_number,
    value_of_text,
};
use crate::record::{NewAccount, RecordView};
use vstd::prelude::*;
use vstd::string::StringExecFns;

verus! {

/// The value of one field of a document.
#[derive(Clone, Debug, PartialEq, Eq)]
pub enum FieldValue {
    Text(String),
    Number(u32),
    Flag(bool),
    Bytes(Vec<u8>),
}

/// A field's value, as contracts speak of it.
pub enum ValueView {
    Text(Seq<char>),
    Number(u32),
    Flag(bool),
    Bytes(Seq<u8>),
}

impl View for FieldValue {
    type V = ValueView;

    open spec fn view(&self) -> ValueView {
        match self {
            FieldValue::Text(text) => ValueView::Text(text@),
            FieldValue::Number(number) => ValueView::Number(*number),
            FieldValue::Flag(flag) => ValueView::Flag(*flag),
            FieldValue::Bytes(bytes) => ValueView::Bytes(bytes@),
        }
    }
}

/// A field, as contracts speak of it.
pub struct FieldView {
    pub key: Seq<char>,
    pub value: ValueView,
}

/// Whether some field is named `key`.
pub open spec fn has_key(fields: Seq<FieldView>, key: Seq<char>) -> bool {
    exists|i: int| 0 <= i < fields.len() && #[trigger] fields[i].key == key
}

/// The place of the field named `key`, where there is one.
pub open spec fn index_of_key(fields: Seq<FieldView>, key: Seq<char>) -> int {
    choose|i: int| 0 <= i < fields.len() && #[trigger] fields[i].key == key
}

/// Whether no two fields share a name.
pub open spec fn distinct_keys(fields: Seq<FieldView>) -> bool {
    forall|i: int, j: int|
        0 <= i < j < fields.len() ==> #[trigger] fields[i].key != #[trigger] fields[j].key
}

/// `fields` after `field` is put in: it takes the place and the value of
/// the field of its name, or goes to the end where the name is new.
pub open spec fn put(fields: Seq<FieldView>, field: FieldView) -> Seq<FieldView> {
    if has_key(fields, field.key) {
        fields.update(index_of_key(fields, field.key), field)
    } else {
        fields.push(field)
    }
}

/// `base` after every field of `extra` is put in, first to last.
pub open spec fn overlay(base: Seq<FieldView>, extra: Seq<FieldView>) -> Seq<FieldView>
    decreases extra.len(),
{
    if extra.len() == 0 {
        base
    } else {
        put(overlay(base, extra.drop_last()), extra.last())
    }
}

/// The text of the array that holds an object with these fields as its
/// single row.
pub open spec fn rows_text(fields: Seq<FieldView>) -> Seq<char> {
    "["@ + json_object_text(fields) + "]"@
}

/// A flat JSON object: named fields in the order they were first put in,
/// no name twice.
#[derive(Debug, PartialEq, Eq)]
pub struct MergedDocument {
    object: serde_json::Map<String, serde_json::Value>,
}

impl View for MergedDocument {
    type V = Seq<FieldView>;

    closed spec fn view(&self) -> Seq<FieldView> {
        object_fields(self.object)
    }
}

impl MergedDocument {
    #[verifier::type_invariant]
    spec fn no_key_twice(self) -> bool {
        distinct_keys(self@)
    }

    /// The document without fields.
    pub fn new() -> (document: MergedDocument)
        ensures
            document@ == Seq::<FieldView>::empty(),
    {
        MergedDocument { object: object_new() }
    }

    /// The number of fields.
    pub fn len(&self) -> (n: usize)
        ensures
            n == self@.len(),
    {
        object_len(&self.object)
    }

    /// The value of the field named `key`, if there is one.
    pub fn get(&self, key: &str) -> (value: Option<&serde_json::Value>)
        ensures
            match value {
                Some(found) => has_key(self@, key@) && json_value(*found) == self@[index_of_key(
                    self@,
                    key@,
                )].value,
                None => !has_key(self@, key@),
            },
    {
        object_get(&self.object, key)
    }

    /// Puts a field in whose value is a JSON value already.
    fn put_value(&mut self, key: String, value: serde_json::Value)
        ensures
            final(self)@ == put(old(self)@, FieldView { key: key@, value: json_value(value) }),
            distinct_keys(final(self)@),
    {
        proof {
            use_type_invariant(&*self);
            lemma_put_keeps(self@, FieldView { key: key@, value: json_value(value) });
        }
        let mut object = object_new();
        core::mem::swap(&mut self.object, &mut object);
        object_insert(&mut object, key, value);
        core::mem::swap(&mut self.object, &mut object);
    }

    /// Puts a field in: it replaces the value of the field of the same
    /// name, or is added at the end where the name is new.
    pub fn insert(&mut self, key: String, value: FieldValue)
        ensures
            final(self)@ == put(old(self)@, FieldView { key: key@, value: value@ }),
            distinct_keys(final(self)@),
    {
        let converted = match value {
            FieldValue::Text(text) => value_of_text(text),
            FieldValue::Number(number) => value_of_number(number),
            FieldValue::Flag(flag) => value_of_flag(flag),
            FieldValue::Bytes(bytes) => value_of_bytes(bytes),
        };
        self.put_value(key, converted);
    }

    /// Puts every field of `extra` in, first to last: on a shared name the
    /// value of `extra` wins.
    pub fn overlay(&mut self, extra: &MergedDocument)
        ensures
            final(self)@ == overlay(old(self)@, extra@),
            distinct_keys(final(self)@),
    {
        proof {
            use_type_invariant(&*self);
        }
        let count = object_len(&extra.object);
        let mut i: usize = 0;
        while i < count
            invariant
                i <= count,
                count == extra@.len(),
                self@ == overlay(old(self)@, extra@.take(i as int)),
                distinct_keys(self@),
            decreases count - i,
        {
            let (key, value) = object_entry(&extra.object, i);
            proof {
                assert(extra@.take(i + 1).drop_last() =~= extra@.take(i as int));
                assert(extra@.take(i + 1).last() == (FieldView {
                    key: key@,
                    value: json_value(value),
                }));
            }
            self.put_value(key, value);
            i += 1;
        }
        assert(extra@.take(i as int) =~= extra@);
    }

    /// Writes the document as the text of one JSON object, its fields in
    /// their order.
    pub fn render_object(&self) -> (text: String)
        ensures
            text@ == json_object_text(self@),
    {
        match object_text(&self.object) {
            Ok(text) => text,
            // Writing an object into memory does not fail.
            Err(_) => String::new(),
        }
    }

    /// Writes the body of an upsert: a JSON array with the document as its
    /// single row.
    pub fn render_rows(&self) -> (text: String)
        ensures
            text@ == rows_text(self@),
    {
        rows_of(self.render_object().as_str())
    }
}

/// Wraps the text of one object as the single row of an array.
pub fn rows_of(object: &str) -> (text: String)
    ensures
        text@ == "["@ + object@ + "]"@,
{
    let mut text = String::from_str("[");
    text.append(object);
    text.append("]");
    text
}

/// The structural part of a document: what is known of every account
/// before its payload is looked at.
#[derive(Clone, Debug, PartialEq, Eq)]
pub struct Envelope {
    /// The account's address, in base58.
    pub account: String,
    /// The owning program's identifier, in base58.
    pub owner: String,
    /// The raw payload.
    pub data: Vec<u8>,
    /// Whether the account holds a program.
    pub executable: bool,
}

/// An envelope, as contracts speak of it.
pub struct EnvelopeView {
    pub account: Seq<char>,
    pub owner: Seq<char>,
    pub data: Seq<u8>,
    pub executable: bool,
}

impl View for Envelope {
    type V = EnvelopeView;

    open spec fn view(&self) -> EnvelopeView {
        EnvelopeView {
            account: self.account@,
            owner: self.owner@,
            data: self.data@,
            executable: self.executable,
        }
    }
}

/// The fields of an envelope, in the order they are sent.
pub open spec fn envelope_fields(envelope: EnvelopeView) -> Seq<FieldView> {
    seq![
        FieldView { key: "account"@, value: ValueView::Text(envelope.account) },
        FieldView { key: "owner"@, value: ValueView::Text(envelope.owner) },
        FieldView { key: "data"@, value: ValueView::Bytes(envelope.data) },
        FieldView { key: "executable"@, value: ValueView::Flag(envelope.executable) },
    ]
}

/// The fields of a record, in the order they are sent.
pub open spec fn record_fields(record: RecordView) -> Seq<FieldView> {
    seq![
        FieldView { key: "age"@, value: ValueView::Number(record.age) },
        FieldView { key: "name"@, value: ValueView::Text(record.name) },
        FieldView { key: "country"@, value: ValueView::Text(record.country) },
    ]
}

/// The fields of the document for an envelope and, where there is one, a
/// record: the record's fields are laid over the envelope's.
pub open spec fn merged_fields(envelope: EnvelopeView, record: Option<RecordView>) -> Seq<
    FieldView,
> {
    match record {
        None => envelope_fields(envelope),
        Some(record) => overlay(envelope_fields(envelope), record_fields(record)),
    }
}

/// The seven field names differ from one another.
proof fn lemma_field_names_differ()
    ensures
        "account"@ != "owner"@,
        "account"@ != "data"@,
        "account"@ != "executable"@,
        "account"@ != "age"@,
        "account"@ != "name"@,
        "account"@ != "country"@,
        "owner"@ != "data"@,
        "owner"@ != "executable"@,
        "owner"@ != "age"@,
        "owner"@ != "name"@,
        "owner"@ != "country"@,
        "data"@ != "executable"@,
        "data"@ != "age"@,
        "data"@ != "name"@,
        "data"@ != "country"@,
        "executable"@ != "age"@,
        "executable"@ != "name"@,
        "executable"@ != "country"@,
        "age"@ != "name"@,
        "age"@ != "country"@,
        "name"@ != "country"@,
{
    reveal_strlit("account");
    reveal_strlit("owner");
    reveal_strlit("data");
    reveal_strlit("executable");
    reveal_strlit("age");
    reveal_strlit("name");
    reveal_strlit("country");
    assert("account"@.len() == 7 && "owner"@.len() == 5 && "data"@.len() == 4);
    assert("executable"@.len() == 10 && "age"@.len() == 3 && "name"@.len() == 4);
    assert("country"@.len() == 7);
    assert("data"@[0] != "name"@[0]);
    assert("account"@[0] != "country"@[0]);
}

/// Overlaying a record's fields on an envelope's replaces none: the names
/// do not collide, so the record's fields follow the envelope's.
pub proof fn lemma_merged_fields_in_order(envelope: EnvelopeView, record: RecordView)
    ensures
        merged_fields(envelope, Some(record)) == envelope_fields(envelope) + record_fields(record),
        distinct_keys(envelope_fields(envelope)),
        distinct_keys(record_fields(record)),
        distinct_keys(merged_fields(envelope, Some(record))),
{
    lemma_field_names_differ();
    let base = envelope_fields(envelope);
    let extra = record_fields(record);
    let one = extra.drop_last().drop_last();
    let two = extra.drop_last();
    assert(one.drop_last() =~= Seq::<FieldView>::empty());
    assert(overlay(base, one.drop_last()) == base);
    assert(!has_key(base, extra[0].key));
    assert(overlay(base, one) == base.push(extra[0]));
    assert(!has_key(base.push(extra[0]), extra[1].key));
    assert(overlay(base, two) == base.push(extra[0]).push(extra[1]));
    assert(!has_key(base.push(extra[0]).push(extra[1]), extra[2].key));
    assert(overlay(base, extra) == base.push(extra[0]).push(extra[1]).push(extra[2]));
    assert(base.push(extra[0]).push(extra[1]).push(extra[2]) =~= base + extra);
}

/// Putting a field in keeps the names of the fields that were there, in
/// their places, and keeps names distinct.
proof fn lemma_put_keeps(fields: Seq<FieldView>, field: FieldView)
    requires
        distinct_keys(fields),
    ensures
        distinct_keys(put(fields, field)),
        put(fields, field).len() >= fields.len(),
        has_key(put(fields, field), field.key),
        put(fields, field)[index_of_key(put(fields, field), field.key)] == field,
        forall|k: int|
            0 <= k < fields.len() && (#[trigger] fields[k]).key != field.key ==> put(
                fields,
                field,
            )[k] == fields[k],
{
    let after = put(fields, field);
    if has_key(fields, field.key) {
        let at = index_of_key(fields, field.key);
        assert(after[at].key == field.key);
    } else {
        assert(after[fields.len() as int].key == field.key);
    }
}

/// After an overlay every field of `extra` stands in the result, under
/// its name.
proof fn lemma_overlay_holds(base: Seq<FieldView>, extra: Seq<FieldView>)
    requires
        distinct_keys(base),
        distinct_keys(extra),
    ensures
        distinct_keys(overlay(base, extra)),
        forall|i: int|
            0 <= i < extra.len() ==> has_key(overlay(base, extra), (#[trigger] extra[i]).key)
                && overlay(base, extra)[index_of_key(overlay(base, extra), extra[i].key)]
                == extra[i],
    decreases extra.len(),
{
    if extra.len() > 0 {
        let front = extra.drop_last();
        let last = extra.last();
        let inner = overlay(base, front);
        let result = overlay(base, extra);
        lemma_overlay_holds(base, front);
        lemma_put_keeps(inner, last);
        assert forall|i: int| 0 <= i < extra.len() implies has_key(
            result,
            (#[trigger] extra[i]).key,
        ) && result[index_of_key(result, extra[i].key)] == extra[i] by {
            if i < extra.len() - 1 {
                assert(front[i] == extra[i]);
                assert(extra[i].key != last.key);
                let at = index_of_key(inner, front[i].key);
                assert(inner[at] == extra[i]);
                assert(result[at] == inner[at]);
                assert(result[at].key == extra[i].key);
            }
        }
    }
}

/// Putting in a field that already stands in the fields changes nothing.
proof fn lemma_put_again(fields: Seq<FieldView>, field: FieldView)
    requires
        has_key(fields, field.key),
        fields[index_of_key(fields, field.key)] == field,
    ensures
        put(fields, field) == fields,
{
    assert(put(fields, field) =~= fields);
}

/// Overlaying a prefix of fields that all stand in `fields` already
/// changes nothing.
proof fn lemma_overlay_again(fields: Seq<FieldView>, extra: Seq<FieldView>, n: int)
    requires
        0 <= n <= extra.len(),
        forall|i: int|
            0 <= i < extra.len() ==> has_key(fields, (#[trigger] extra[i]).key)
                && fields[index_of_key(fields, extra[i].key)] == extra[i],
    ensures
        overlay(fields, extra.take(n)) == fields,
    decreases n,
{
    if n > 0 {
        lemma_overlay_again(fields, extra, n - 1);
        assert(extra.take(n).drop_last() =~= extra.take(n - 1));
        assert(extra.take(n).last() == extra[n - 1]);
        lemma_put_again(fields, extra[n - 1]);
    }
}

/// Overlaying the same fields a second time changes nothing: merging is
/// idempotent.
pub proof fn lemma_overlay_idempotent(base: Seq<FieldView>, extra: Seq<FieldView>)
    requires
        distinct_keys(base),
        distinct_keys(extra),
    ensures
        overlay(overlay(base, extra), extra) == overlay(base, extra),
{
    lemma_overlay_holds(base, extra);
    lemma_overlay_again(overlay(base, extra), extra, extra.len() as int);
    assert(extra.take(extra.len() as int) =~= extra);
}

/// Merging a record into the document that already holds it gives the
/// same document again, and so the same text to send, character for
/// character.
pub proof fn lemma_merge_idempotent(envelope: EnvelopeView, record: RecordView)
    ensures
        overlay(merged_fields(envelope, Some(record)), record_fields(record)) == merged_fields(
            envelope,
            Some(record),
        ),
        rows_text(overlay(merged_fields(envelope, Some(record)), record_fields(record)))
            == rows_text(merged_fields(envelope, Some(record))),
{
    lemma_merged_fields_in_order(envelope, record);
    lemma_overlay_idempotent(envelope_fields(envelope), record_fields(record));
}

impl Envelope {
    /// The envelope as a document of its own.
    pub fn into_document(self) -> (document: MergedDocument)
        ensures
            document@ == envelope_fields(self@),
            distinct_keys(document@),
    {
        proof {
            lemma_field_names_differ();
        }
        let mut document = MergedDocument::new();
        document.insert(String::from_str("account"), FieldValue::Text(self.account));
        document.insert(String::from_str("owner"), FieldValue::Text(self.owner));
        document.insert(String::from_str("data"), FieldValue::Bytes(self.data));
        document.insert(String::from_str("executable"), FieldValue::Flag(self.executable));
        assert(document@ =~= envelope_fields(self@));
        document
    }
}

impl NewAccount {
    /// The record as a document of its own.
    pub fn to_document(&self) -> (document: MergedDocument)
        ensures
            document@ == record_fields(self@),
            distinct_keys(document@),
    {
        proof {
            lemma_field_names_differ();
        }
        let mut document = MergedDocument::new();
        document.insert(String::from_str("age"), FieldValue::Number(self.age()));
        document.insert(String::from_str("name"), FieldValue::Text(String::from_str(self.name())));
        document.insert(
            String::from_str("country"),
            FieldValue::Text(String::from_str(self.country())),
        );
        assert(document@ =~= record_fields(self@));
        document
    }
}

/// The record that a merge is given, as contracts speak of it.
pub open spec fn record_view(record: Option<NewAccount>) -> Option<RecordView> {
    match record {
        Some(record) => Some(record@),
        None => None,
    }
}

/// Builds the document that is sent for an account: the envelope's fields,
/// and over them the record's where there is a record. A record's field
/// takes the place and wins over an envelope's field of the same name.
pub fn merge(envelope: Envelope, record: Option<NewAccount>) -> (document: MergedDocument)
    ensures
        document@ == merged_fields(envelope@, record_view(record)),
        distinct_keys(document@),
{
    let mut document = envelope.into_document();
    match record {
        Some(record) => {
            let fields = record.to_document();
            document.overlay(&fields);
        },
        None => {},
    }
    document
}

} // verus!
