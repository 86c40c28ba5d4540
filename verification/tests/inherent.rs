use srml_babe::inherent::{
    BabeInherentData, InherentData, InherentDataProvider, InherentDataProviders, InherentError,
    TimestampCall, INHERENT_IDENTIFIER, TIMESTAMP_INHERENT_IDENTIFIER,
};
use srml_babe::module::{BabeConfig, Module};

fn module() -> Module {
    Module::new(BabeConfig { epoch_duration: 10, expected_block_time: 6000, minimum_period: 3000 })
}

#[test]
fn identifiers_spell_their_names() {
    assert_eq!(&INHERENT_IDENTIFIER, b"babeslot");
    assert_eq!(&TIMESTAMP_INHERENT_IDENTIFIER, b"timstap0");
    assert_eq!(InherentDataProvider::new(6000).inherent_identifier(), *b"babeslot");
}

#[test]
fn put_and_get_data() {
    let mut data = InherentData::new();
    assert_eq!(data.get_data(b"timstap0"), Ok(None));
    assert_eq!(data.put_data(*b"timstap0", &42), Ok(()));
    assert_eq!(data.get_data(b"timstap0"), Ok(Some(42)));
    assert_eq!(data.put_data(*b"timstap0", &43), Err(InherentError::AlreadyExists));
    assert_eq!(data.get_data(b"timstap0"), Ok(Some(42)));
    assert_eq!(data.timestamp_inherent_data(), Ok(42));
}

#[test]
fn undecodable_data_is_an_error() {
    let data = InherentData { data: vec![(*b"babeslot", vec![1, 2, 3])] };
    assert_eq!(data.get_data(b"babeslot"), Err(InherentError::CannotDecode));
    assert_eq!(data.babe_inherent_data(), Err(InherentError::CannotDecode));
}

#[test]
fn missing_data_is_reported() {
    let data = InherentData::new();
    assert_eq!(data.babe_inherent_data(), Err(InherentError::BabeDataNotFound));
    assert_eq!(data.timestamp_inherent_data(), Err(InherentError::TimestampDataNotFound));
    assert_eq!(InherentError::BabeDataNotFound.message(), "BABE inherent data not found");
    assert_eq!(InherentError::SlotMismatch.message(), "timestamp set in block doesn't match slot in seal");
}

#[test]
fn replace_then_read_babe_data() {
    let mut data = InherentData::new();
    data.babe_replace_inherent_data(5);
    assert_eq!(data.babe_inherent_data(), Ok(5));
    data.babe_replace_inherent_data(9);
    assert_eq!(data.babe_inherent_data(), Ok(9));
    assert_eq!(data.data.len(), 1);
}

#[test]
fn provider_puts_slot_of_timestamp() {
    let mut data = InherentData::new();
    data.put_data(*b"timstap0", &600_500).unwrap();
    let provider = InherentDataProvider::new(6000);
    assert_eq!(provider.provide_inherent_data(&mut data), Ok(()));
    assert_eq!(data.babe_inherent_data(), Ok(100));
    assert_eq!(provider.provide_inherent_data(&mut data), Err(InherentError::AlreadyExists));
    let mut empty = InherentData::new();
    assert_eq!(provider.provide_inherent_data(&mut empty), Err(InherentError::TimestampDataNotFound));
    // Without a timestamp nothing is divided, whatever the slot duration.
    assert_eq!(InherentDataProvider::new(0).provide_inherent_data(&mut empty), Err(InherentError::TimestampDataNotFound));
}

#[test]
fn check_inherent_compares_slots() {
    let module = module();
    let mut data = InherentData::new();
    data.babe_replace_inherent_data(100);
    assert_eq!(module.check_inherent(&TimestampCall::SetTimestamp(600_000), &data), Ok(()));
    assert_eq!(module.check_inherent(&TimestampCall::SetTimestamp(605_999), &data), Ok(()));
    assert_eq!(module.check_inherent(&TimestampCall::SetTimestamp(606_000), &data), Err(InherentError::SlotMismatch));
    assert_eq!(module.check_inherent(&TimestampCall::SetTimestamp(600_000), &InherentData::new()), Err(InherentError::BabeDataNotFound));
    assert!(module.create_inherent(&data).is_none());
}

#[test]
fn provided_data_passes_check() {
    let module = module();
    let mut data = InherentData::new();
    data.put_data(*b"timstap0", &1_234_567).unwrap();
    InherentDataProvider::new(module.slot_duration()).provide_inherent_data(&mut data).unwrap();
    assert_eq!(module.check_inherent(&TimestampCall::SetTimestamp(1_234_567), &data), Ok(()));
}

#[test]
fn registering_adds_timestamp_provider_once() {
    let provider = InherentDataProvider::new(6000);
    let mut providers = InherentDataProviders { identifiers: vec![] };
    assert_eq!(provider.on_register(&mut providers), Ok(()));
    assert_eq!(providers.identifiers, vec![*b"timstap0"]);
    assert_eq!(provider.on_register(&mut providers), Ok(()));
    assert_eq!(providers.identifiers.len(), 1);
    assert!(providers.has_provider(b"timstap0"));
    assert_eq!(providers.register_provider(*b"timstap0"), Err(InherentError::ProviderAlreadyRegistered));
}

#[test]
fn error_messages_decode_as_strings() {
    let provider = InherentDataProvider::new(6000);
    assert_eq!(provider.error_to_string(&[12, b'a', b'b', b'c']), Some("abc".to_string()));
    assert_eq!(provider.error_to_string(&[8, 0xff, 0xfe]), None);
    assert_eq!(provider.error_to_string(&[]), None);
    assert_eq!(provider.error_to_string(&[40, b'a']), None);
}
