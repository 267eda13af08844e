use waverider::config::Configuration;
use waverider::error::FatalError;
use waverider::plugin::{AccountEvent, SupabasePlugin, UpdateAction, WireVersion};
use waverider::record::NewAccount;
use waverider::sync::{SyncOutcome, UpsertRequest};

const SYSTEM_PROGRAM: &str = "11111111111111111111111111111111";
const PUBKEY_TEXT: &str = "4wBqpZM9xaSheZzJSMawUKKwhdpChKbZ5eu5ky4Vigw";

fn pubkey() -> Vec<u8> {
    (1u8..=32).collect()
}

fn configuration(programs: Option<Vec<&str>>) -> Configuration {
    Configuration {
        supabase_url: "https://x.test".to_string(),
        supabase_key: "k".to_string(),
        programs: programs.map(|texts| texts.iter().map(|text| text.to_string()).collect()),
    }
}

fn loaded(decode_enabled: bool) -> SupabasePlugin {
    let mut plugin = SupabasePlugin::new(decode_enabled);
    plugin.on_load(Some(configuration(Some(vec![SYSTEM_PROGRAM])))).expect("the load succeeds");
    plugin
}

fn event<'a>(pubkey: &'a [u8], owner: &'a [u8], data: &'a [u8]) -> AccountEvent<'a> {
    AccountEvent { pubkey, owner, data, lamports: 1_000, executable: false, rent_epoch: 5 }
}

fn ada_data() -> Vec<u8> {
    let mut data = vec![0xD1u8, 0xD2, 0xD3, 0xD4, 0xD5, 0xD6, 0xD7, 0xD8];
    data.extend_from_slice(&[30, 0, 0, 0, 3, 0, 0, 0, b'A', b'd', b'a', 2, 0, 0, 0, b'U', b'K']);
    data
}

fn number_list(bytes: &[u8]) -> String {
    let numbers: Vec<String> = bytes.iter().map(|byte| byte.to_string()).collect();
    format!("[{}]", numbers.join(","))
}

fn upsert_of(action: Result<UpdateAction, FatalError>) -> UpsertRequest {
    match action {
        Ok(UpdateAction::Upsert(request)) => request,
        other => panic!("an upsert was expected, not {:?}", other),
    }
}

#[test]
fn new_plugin_is_not_loaded() {
    let plugin = SupabasePlugin::new(false);
    assert_eq!(plugin.configuration(), None);
    assert_eq!(plugin.programs().len(), 0);
    assert!(!plugin.decode_enabled());
    assert!(SupabasePlugin::new(true).decode_enabled());
}

#[test]
fn default_plugin_decodes() {
    let plugin = SupabasePlugin::default();
    assert!(plugin.decode_enabled());
    assert_eq!(plugin.configuration(), None);
    assert_eq!(plugin.programs().len(), 0);
}

#[test]
fn plugin_names_itself() {
    let plugin = SupabasePlugin::default();
    assert_eq!(plugin.name(), "supabase-geyser");
    assert!(plugin.account_data_notifications_enabled());
    assert!(!plugin.transaction_notifications_enabled());
}

#[test]
fn load_keeps_configuration_and_programs() {
    let plugin = loaded(true);
    assert_eq!(plugin.configuration(), Some(&configuration(Some(vec![SYSTEM_PROGRAM]))));
    assert_eq!(plugin.programs().len(), 1);
    assert!(plugin.is_tracked(&[0u8; 32]));
    assert!(!plugin.is_tracked(&[1u8; 32]));
    assert!(plugin.decode_enabled());
}

#[test]
fn load_without_programs_tracks_nothing() {
    let mut plugin = SupabasePlugin::new(true);
    assert_eq!(plugin.on_load(Some(configuration(None))), Ok(()));
    assert_eq!(plugin.programs().len(), 0);
    assert_eq!(plugin.configuration(), Some(&configuration(None)));
    let mut plugin = SupabasePlugin::new(true);
    assert_eq!(plugin.on_load(Some(configuration(Some(vec![])))), Ok(()));
    assert_eq!(plugin.programs().len(), 0);
}

#[test]
fn load_without_configuration_fails() {
    let mut plugin = SupabasePlugin::new(true);
    assert_eq!(plugin.on_load(None), Err(FatalError::ConfigFileRead));
    assert_eq!(plugin.configuration(), None);
    assert_eq!(plugin.programs().len(), 0);
}

#[test]
fn load_with_a_malformed_program_fails_and_changes_nothing() {
    let mut plugin = loaded(true);
    let bad = configuration(Some(vec![SYSTEM_PROGRAM, SYSTEM_PROGRAM, "he11owor1d"]));
    assert_eq!(plugin.on_load(Some(bad)), Err(FatalError::MalformedProgram { index: 2 }));
    assert_eq!(plugin.configuration(), Some(&configuration(Some(vec![SYSTEM_PROGRAM]))));
    assert_eq!(plugin.programs().len(), 1);
    assert!(plugin.is_tracked(&[0u8; 32]));
}

#[test]
fn load_with_a_program_of_33_bytes_fails() {
    let mut plugin = SupabasePlugin::default();
    let text = "1".repeat(33);
    let long = configuration(Some(vec![text.as_str()]));
    assert_eq!(plugin.on_load(Some(long)), Err(FatalError::MalformedProgram { index: 0 }));
    assert_eq!(plugin.configuration(), None);
    assert_eq!(plugin.programs().len(), 0);
    assert!(!plugin.is_tracked(&[0u8; 32]));
    assert!(!plugin.is_tracked(&[0u8; 33]));
}

#[test]
fn second_load_replaces_the_first() {
    let mut plugin = loaded(true);
    let token = "TokenkegQfeZyiNwAJbNbGKPFXCWuBvf9Ss623VQ5DA";
    assert_eq!(plugin.on_load(Some(configuration(Some(vec![token])))), Ok(()));
    assert_eq!(plugin.programs().len(), 1);
    assert!(!plugin.is_tracked(&[0u8; 32]));
}

#[test]
fn tracked_event_is_upserted_with_its_record() {
    let plugin = loaded(true);
    let (pubkey, data) = (pubkey(), ada_data());
    let action = plugin.update_account(&event(&pubkey, &[0u8; 32], &data), WireVersion::V0_0_2);
    let request = upsert_of(action);
    assert_eq!(request.table, "accounts");
    assert_eq!(
        request.body,
        format!(
            "[{{\"account\":\"{}\",\"owner\":\"{}\",\"data\":{},\"executable\":false,\
             \"age\":30,\"name\":\"Ada\",\"country\":\"UK\"}}]",
            PUBKEY_TEXT,
            SYSTEM_PROGRAM,
            number_list(&data)
        )
    );
}

#[test]
fn tracked_event_body_in_full() {
    let plugin = loaded(true);
    let data = ada_data();
    let action = plugin.update_account(&event(&[0u8; 32], &[0u8; 32], &data), WireVersion::V0_0_2);
    assert_eq!(
        upsert_of(action).body,
        "[{\"account\":\"11111111111111111111111111111111\",\
         \"owner\":\"11111111111111111111111111111111\",\
         \"data\":[209,210,211,212,213,214,215,216,30,0,0,0,3,0,0,0,65,100,97,2,0,0,0,85,75],\
         \"executable\":false,\"age\":30,\"name\":\"Ada\",\"country\":\"UK\"}]"
    );
}

#[test]
fn untracked_event_is_skipped() {
    let plugin = loaded(true);
    let (pubkey, data) = (pubkey(), ada_data());
    let action = plugin.update_account(&event(&pubkey, &[9u8; 32], &data), WireVersion::V0_0_2);
    assert_eq!(action, Ok(UpdateAction::Skip));
    let action = plugin.update_account(&event(&pubkey, &[0u8; 31], &data), WireVersion::V0_0_2);
    assert_eq!(action, Ok(UpdateAction::Skip));
}

#[test]
fn unloaded_plugin_skips_every_event() {
    let plugin = SupabasePlugin::default();
    let (pubkey, data) = (pubkey(), ada_data());
    let action = plugin.update_account(&event(&pubkey, &[0u8; 32], &data), WireVersion::V0_0_2);
    assert_eq!(action, Ok(UpdateAction::Skip));
}

#[test]
fn short_payload_is_upserted_with_the_empty_record() {
    let plugin = loaded(true);
    let pubkey = pubkey();
    let data = [1u8, 2, 3, 4, 5];
    let action = plugin.update_account(&event(&pubkey, &[0u8; 32], &data), WireVersion::V0_0_2);
    assert_eq!(
        upsert_of(action).body,
        format!(
            "[{{\"account\":\"{}\",\"owner\":\"{}\",\"data\":[1,2,3,4,5],\"executable\":false,\
             \"age\":0,\"name\":\"\",\"country\":\"\"}}]",
            PUBKEY_TEXT, SYSTEM_PROGRAM
        )
    );
}

#[test]
fn every_payload_of_nine_bytes_or_fewer_carries_the_empty_record() {
    let plugin = loaded(true);
    let pubkey = pubkey();
    for len in 0..=9usize {
        let data = vec![0xEEu8; len];
        let action =
            plugin.update_account(&event(&pubkey, &[0u8; 32], &data), WireVersion::V0_0_2);
        let body = upsert_of(action).body;
        assert!(body.ends_with(",\"age\":0,\"name\":\"\",\"country\":\"\"}]"), "{}", body);
    }
}

#[test]
fn payload_that_does_not_decode_is_upserted_with_the_empty_record() {
    let plugin = loaded(true);
    let pubkey = pubkey();
    // Behind the tag: an age, then a text that claims more bytes than follow.
    let mut data = vec![0u8; 8];
    data.extend_from_slice(&[30, 0, 0, 0, 200, 0, 0, 0, b'A']);
    let action = plugin.update_account(&event(&pubkey, &[0u8; 32], &data), WireVersion::V0_0_2);
    assert_eq!(
        upsert_of(action).body,
        format!(
            "[{{\"account\":\"{}\",\"owner\":\"{}\",\"data\":{},\"executable\":false,\
             \"age\":0,\"name\":\"\",\"country\":\"\"}}]",
            PUBKEY_TEXT,
            SYSTEM_PROGRAM,
            number_list(&data)
        )
    );
}

#[test]
fn without_decoding_the_envelope_is_sent_alone() {
    let plugin = loaded(false);
    let (pubkey, data) = (pubkey(), ada_data());
    let mut executable = event(&pubkey, &[0u8; 32], &data);
    executable.executable = true;
    let action = plugin.update_account(&executable, WireVersion::V0_0_2);
    assert_eq!(
        upsert_of(action).body,
        format!(
            "[{{\"account\":\"{}\",\"owner\":\"{}\",\"data\":{},\"executable\":true}}]",
            PUBKEY_TEXT,
            SYSTEM_PROGRAM,
            number_list(&data)
        )
    );
}

#[test]
fn older_wire_version_is_refused() {
    let plugin = loaded(true);
    let (pubkey, data) = (pubkey(), ada_data());
    let action = plugin.update_account(&event(&pubkey, &[0u8; 32], &data), WireVersion::V0_0_1);
    assert_eq!(action, Err(FatalError::UnsupportedVersion));
    let action = plugin.update_account(&event(&pubkey, &[9u8; 32], &data), WireVersion::V0_0_1);
    assert_eq!(action, Err(FatalError::UnsupportedVersion));
}

#[test]
fn failed_upsert_is_absorbed() {
    let plugin = loaded(true);
    let failure = SyncOutcome::from_response(500, "internal error".to_string());
    assert!(!failure.is_success());
    assert_eq!(plugin.finish_update(&failure), Ok(()));
    let failure = SyncOutcome::from_error("timed out".to_string());
    assert_eq!(plugin.finish_update(&failure), Ok(()));
    let success = SyncOutcome::from_response(201, "[]".to_string());
    assert_eq!(plugin.finish_update(&success), Ok(()));
}

#[test]
fn same_event_twice_gives_the_same_request() {
    let plugin = loaded(true);
    let (pubkey, data) = (pubkey(), ada_data());
    let first = plugin.update_account(&event(&pubkey, &[0u8; 32], &data), WireVersion::V0_0_2);
    let second = plugin.update_account(&event(&pubkey, &[0u8; 32], &data), WireVersion::V0_0_2);
    assert_eq!(first, second);
}

#[test]
fn encoded_record_travels_through_the_pipeline() {
    let plugin = loaded(true);
    let pubkey = pubkey();
    let record = NewAccount::new(41, "Grace \"Amazing\" Hopper".to_string(), "US".to_string());
    let mut data = vec![0u8; 8];
    data.extend_from_slice(&record.encode().expect("short texts are encodable"));
    let action = plugin.update_account(&event(&pubkey, &[0u8; 32], &data), WireVersion::V0_0_2);
    let body = upsert_of(action).body;
    assert!(
        body.ends_with(",\"age\":41,\"name\":\"Grace \\\"Amazing\\\" Hopper\",\"country\":\"US\"}]"),
        "{}",
        body
    );
}

#[test]
fn lifecycle_hooks_change_nothing() {
    let mut plugin = loaded(true);
    assert_eq!(plugin.notify_end_of_startup(), Ok(()));
    plugin.on_unload();
    assert_eq!(plugin.programs().len(), 1);
    assert!(plugin.is_tracked(&[0u8; 32]));
}

#[test]
fn errors_describe_themselves() {
    assert_eq!(FatalError::ConfigFileRead.message(), "Error opening, or reading config file");
    assert_eq!(
        FatalError::UnsupportedVersion.message(),
        "V1 not supported, please upgrade your Solana CLI Version"
    );
    assert_eq!(
        FatalError::MalformedProgram { index: 3 }.message(),
        "Configured program is not a base58 identifier of 32 bytes"
    );
}
