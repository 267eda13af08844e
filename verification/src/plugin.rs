//! The update pipeline: one account-change event in, at most one upsert
//! out.
//!
//! The plugin decides; it does not send. For each event it says whether
//! anything is to be sent and what, and the host's glue performs the upsert
//! and hands the outcome back.

use crate::base58::{base58_text, encode_base58};
use crate::config::Configuration;
use crate::document::{
    envelope_fields, lemma_merged_fields_in_order, merge, merged_fields, record_fields, Envelope,
    EnvelopeView, FieldView,
};
use crate::error::FatalError;
use crate::filter::{first_malformed, identifiers_of, TrackedProgramSet};
use crate::record::{decoded_record, NewAccount, RecordView};
use crate::sync::{upserts, SyncOutcome, UpsertRequest};
use vstd::prelude::*;
use vstd::slice::slice_to_vec;

verus! {

/// The wire format in which the host hands an event over.
#[derive(Clone, Copy, Debug, PartialEq, Eq, Structural)]
pub enum WireVersion {
    /// The older format, which is not handled.
    V0_0_1,
    /// The format that is handled.
    V0_0_2,
}

/// The state of one account at one moment, lent by the host for the length
/// of a call.
#[derive(Clone, Copy, Debug)]
pub struct AccountEvent<'a> {
    /// The account's address.
    pub pubkey: &'a [u8],
    /// The identifier of the program that owns the account.
    pub owner: &'a [u8],
    /// The raw payload.
    pub data: &'a [u8],
    /// The account's balance.
    pub lamports: u64,
    /// Whether the account holds a program.
    pub executable: bool,
    /// The epoch at which the account next owes rent.
    pub rent_epoch: u64,
}

/// An event, as contracts speak of it.
pub struct EventView {
    pub pubkey: Seq<u8>,
    pub owner: Seq<u8>,
    pub data: Seq<u8>,
    pub lamports: u64,
    pub executable: bool,
    pub rent_epoch: u64,
}

impl<'a> View for AccountEvent<'a> {
    type V = EventView;

    open spec fn view(&self) -> EventView {
        EventView {
            pubkey: self.pubkey@,
            owner: self.owner@,
            data: self.data@,
            lamports: self.lamports,
            executable: self.executable,
            rent_epoch: self.rent_epoch,
        }
    }
}

/// What the host is to do for an event.
#[derive(Clone, Debug, PartialEq, Eq)]
pub enum UpdateAction {
    /// Nothing: the account does not belong to a tracked program.
    Skip,
    /// Send this upsert, then report its outcome.
    Upsert(UpsertRequest),
}

/// The envelope of an event: both addresses in base58, the payload and
/// the executable flag as they are.
pub open spec fn envelope_of(event: EventView) -> EnvelopeView {
    EnvelopeView {
        account: base58_text(event.pubkey),
        owner: base58_text(event.owner),
        data: event.data,
        executable: event.executable,
    }
}

/// The record that is merged into an event's document: none where decoding
/// is switched off; else the decoded record, or the empty record where the
/// payload was skipped or did not decode.
pub open spec fn forwarded_record(decode_enabled: bool, data: Seq<u8>) -> Option<RecordView> {
    if decode_enabled {
        match decoded_record(data) {
            Some(record) => Some(record),
            None => Some(RecordView::empty()),
        }
    } else {
        None
    }
}

/// The fields of the document that is sent for an event.
pub open spec fn forwarded_fields(decode_enabled: bool, event: EventView) -> Seq<FieldView> {
    merged_fields(envelope_of(event), forwarded_record(decode_enabled, event.data))
}

/// A payload of nine bytes or fewer is not decoded, and its document
/// carries, behind the envelope, the empty record: age 0, empty name and
/// country.
pub proof fn lemma_short_payload_forwards_empty_record(event: EventView)
    requires
        event.data.len() <= 9,
    ensures
        decoded_record(event.data) is None,
        forwarded_fields(true, event) == envelope_fields(envelope_of(event)) + record_fields(
            RecordView::empty(),
        ),
{
    lemma_merged_fields_in_order(envelope_of(event), RecordView::empty());
}

/// A payload that does not decode is forwarded all the same, with the
/// empty record behind the envelope.
pub proof fn lemma_failed_decode_forwards_empty_record(event: EventView)
    requires
        decoded_record(event.data) is None,
    ensures
        forwarded_fields(true, event) == envelope_fields(envelope_of(event)) + record_fields(
            RecordView::empty(),
        ),
{
    lemma_merged_fields_in_order(envelope_of(event), RecordView::empty());
}

/// A payload that decodes is forwarded with its record behind the
/// envelope.
pub proof fn lemma_decoded_payload_forwards_its_record(event: EventView)
    requires
        decoded_record(event.data) is Some,
    ensures
        forwarded_fields(true, event) == envelope_fields(envelope_of(event)) + record_fields(
            decoded_record(event.data).unwrap(),
        ),
{
    lemma_merged_fields_in_order(envelope_of(event), decoded_record(event.data).unwrap());
}

/// With decoding switched off the document is the envelope alone.
pub proof fn lemma_envelope_alone_without_decoding(event: EventView)
    ensures
        forwarded_fields(false, event) == envelope_fields(envelope_of(event)),
{
}

/// The plugin's state, as contracts speak of it.
pub struct PluginView {
    pub configuration: Option<Configuration>,
    pub programs: Seq<Seq<u8>>,
    pub decode_enabled: bool,
}

/// The plugin: its configuration and the tracked programs, both fixed once
/// loaded, and whether payloads are decoded.
pub struct SupabasePlugin {
    configuration: Option<Configuration>,
    programs: TrackedProgramSet,
    decode_enabled: bool,
}

impl View for SupabasePlugin {
    type V = PluginView;

    closed spec fn view(&self) -> PluginView {
        PluginView {
            configuration: self.configuration,
            programs: self.programs@,
            decode_enabled: self.decode_enabled,
        }
    }
}

impl Default for SupabasePlugin {
    /// A plugin that decodes payloads and is not loaded yet.
    fn default() -> (plugin: SupabasePlugin)
        ensures
            plugin@.configuration is None,
            plugin@.programs.len() == 0,
            plugin@.decode_enabled,
    {
        SupabasePlugin::new(true)
    }
}

impl SupabasePlugin {
    /// A plugin that is not loaded yet: no configuration, no tracked
    /// program. With `decode_enabled` it decodes payloads and forwards a
    /// record with every document; without, it forwards envelopes only.
    pub fn new(decode_enabled: bool) -> (plugin: SupabasePlugin)
        ensures
            plugin@.configuration is None,
            plugin@.programs.len() == 0,
            plugin@.decode_enabled == decode_enabled,
    {
        SupabasePlugin { configuration: None, programs: TrackedProgramSet::new(), decode_enabled }
    }

    /// Whether `owner` is one of the tracked programs.
    pub open spec fn tracks(&self, owner: Seq<u8>) -> bool {
        self@.programs.contains(owner)
    }

    /// The plugin's name.
    pub fn name(&self) -> (name: &'static str)
        ensures
            name@ == "supabase-geyser"@,
    {
        "supabase-geyser"
    }

    /// The configuration, once loaded.
    pub fn configuration(&self) -> (configuration: Option<&Configuration>)
        ensures
            match configuration {
                Some(held) => self@.configuration == Some(*held),
                None => self@.configuration is None,
            },
    {
        self.configuration.as_ref()
    }

    /// The tracked programs.
    pub fn programs(&self) -> (programs: &TrackedProgramSet)
        ensures
            programs@ == self@.programs,
    {
        &self.programs
    }

    /// Whether payloads are decoded.
    pub fn decode_enabled(&self) -> (enabled: bool)
        ensures
            enabled == self@.decode_enabled,
    {
        self.decode_enabled
    }

    /// Whether `owner` is one of the tracked programs.
    pub fn is_tracked(&self, owner: &[u8]) -> (found: bool)
        ensures
            found == self.tracks(owner@),
    {
        self.programs.is_tracked(owner)
    }

    /// Takes the configuration that the host's glue read, or `None` where
    /// it could not be opened, read or parsed. Every configured program is
    /// decoded from base58; a single text that does not stand for an
    /// identifier fails the load. A failed load leaves the plugin as it
    /// was.
    pub fn on_load(&mut self, loaded: Option<Configuration>) -> (result: Result<(), FatalError>)
        ensures
            final(self)@.decode_enabled == old(self)@.decode_enabled,
            match result {
                Ok(_) => {
                    &&& loaded matches Some(configuration)
                    &&& final(self)@.configuration == Some(configuration)
                    &&& match configuration.programs {
                        Some(texts) => identifiers_of(texts@, final(self)@.programs),
                        None => final(self)@.programs.len() == 0,
                    }
                },
                Err(error) => {
                    &&& final(self)@ == old(self)@
                    &&& match loaded {
                        None => error == FatalError::ConfigFileRead,
                        Some(configuration) => {
                            &&& configuration.programs matches Some(texts)
                            &&& error matches FatalError::MalformedProgram { index }
                            &&& first_malformed(texts@, index as int)
                        },
                    }
                },
            },
    {
        let configuration = match loaded {
            Some(configuration) => configuration,
            None => {
                return Err(FatalError::ConfigFileRead);
            },
        };
        let programs = match &configuration.programs {
            Some(texts) => match TrackedProgramSet::from_texts(texts) {
                Ok(set) => set,
                Err(error) => {
                    return Err(error);
                },
            },
            None => TrackedProgramSet::new(),
        };
        self.programs = programs;
        self.configuration = Some(configuration);
        Ok(())
    }

    /// Nothing is held that would have to be flushed.
    pub fn on_unload(&mut self)
        ensures
            final(self)@ == old(self)@,
    {
    }

    /// Decides what is done for one event.
    ///
    /// An event in the older wire format is refused. An event whose owner
    /// is not tracked is skipped: nothing is decoded, nothing is sent.
    /// Every other event leads to exactly one upsert, of the one document
    /// that `forwarded_fields` describes.
    pub fn update_account(&self, event: &AccountEvent, version: WireVersion) -> (result: Result<
        UpdateAction,
        FatalError,
    >)
        ensures
            version == WireVersion::V0_0_1 ==> result == Err::<UpdateAction, FatalError>(
                FatalError::UnsupportedVersion,
            ),
            version == WireVersion::V0_0_2 && !self.tracks(event@.owner) ==> result matches Ok(
                UpdateAction::Skip,
            ),
            !self.tracks(event@.owner) ==> !(result matches Ok(UpdateAction::Upsert(_))),
            version == WireVersion::V0_0_2 && self.tracks(event@.owner) ==> (result matches Ok(
                UpdateAction::Upsert(request),
            ) && upserts(request, forwarded_fields(self@.decode_enabled, event@))),
    {
        match version {
            WireVersion::V0_0_1 => {
                return Err(FatalError::UnsupportedVersion);
            },
            WireVersion::V0_0_2 => {},
        }
        if !self.programs.is_tracked(event.owner) {
            return Ok(UpdateAction::Skip);
        }
        let envelope = Envelope {
            account: encode_base58(event.pubkey),
            owner: encode_base58(event.owner),
            data: slice_to_vec(event.data),
            executable: event.executable,
        };
        let record = if self.decode_enabled {
            match NewAccount::decode(event.data) {
                Some(record) => Some(record),
                None => Some(NewAccount::default()),
            }
        } else {
            None
        };
        let document = merge(envelope, record);
        Ok(UpdateAction::Upsert(UpsertRequest::for_document(&document)))
    }

    /// Takes the outcome of the upsert that `update_account` asked for.
    /// A failed upsert is for the log only: the host is told of success
    /// either way.
    pub fn finish_update(&self, outcome: &SyncOutcome) -> (result: Result<(), FatalError>)
        ensures
            result is Ok,
    {
        match outcome {
            SyncOutcome::Success(_) => Ok(()),
            SyncOutcome::Failure(_) => Ok(()),
        }
    }

    /// Nothing is done at the end of the host's startup.
    pub fn notify_end_of_startup(&mut self) -> (result: Result<(), FatalError>)
        ensures
            result is Ok,
            final(self)@ == old(self)@,
    {
        Ok(())
    }

    /// Account notifications are asked for.
    pub fn account_data_notifications_enabled(&self) -> (enabled: bool)
        ensures
            enabled,
    {
        true
    }

    /// Transaction notifications are not asked for.
    pub fn transaction_notifications_enabled(&self) -> (enabled: bool)
        ensures
            !enabled,
    {
        false
    }
}

} // verus!
