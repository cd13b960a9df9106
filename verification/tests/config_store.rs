use sensor_node::configuration::main_configuration::{
    make_http_url, map_nvs_form, MapFormType, SensorKind,
};
use sensor_node::configuration::nvs_configuration::{
    contains_nul, strip_padding, trunc_pad_string, NvsConfiguration, NvsPartition, StorageOp,
    KEY_ID, KEY_NAME, KEY_SSID, KEY_TX_POWER, PAD_CHAR,
};
use sensor_node::configuration::slots::{Slot, SlotTable};
use sensor_node::string_error::StorageError;

fn fresh() -> (NvsPartition, NvsConfiguration) {
    let mut partition = NvsPartition::new();
    let config = NvsConfiguration::new(&mut partition).unwrap();
    (partition, config)
}

#[test]
fn pad_fills_a_short_string_with_the_sentinel() {
    assert_eq!(trunc_pad_string("abc", 5), "abc\u{3}\u{3}");
    assert_eq!(trunc_pad_string("", 3), "\u{3}\u{3}\u{3}");
    assert_eq!(PAD_CHAR, '\u{3}');
}

#[test]
fn pad_cuts_a_long_string() {
    assert_eq!(trunc_pad_string("this song is just six words long", 7), "this so");
    assert_eq!(trunc_pad_string("exact", 5), "exact");
    assert_eq!(trunc_pad_string("anything", 0), "");
}

#[test]
fn pad_counts_characters_outside_ascii() {
    assert_eq!(trunc_pad_string("héllo wörld", 4), "héll");
    assert_eq!(trunc_pad_string("日本", 4), "日本\u{3}\u{3}");
    assert_eq!(trunc_pad_string("a\tb", 5), "a\tb\u{3}\u{3}");
}

#[test]
fn strip_padding_stops_at_the_first_sentinel() {
    assert_eq!(strip_padding("abc\u{3}\u{3}"), "abc");
    assert_eq!(strip_padding("abc"), "abc");
    assert_eq!(strip_padding("\u{3}abc"), "");
    assert_eq!(strip_padding("a\u{3}b\u{3}"), "a");
    assert_eq!(strip_padding(""), "");
}

#[test]
fn string_round_trip() {
    let (_p, mut config) = fresh();
    assert_eq!(config.store_string("SSID", "Home", 32), Ok(()));
    assert_eq!(config.read_string("SSID", "none"), "Home");
    assert_eq!(config.store_string("SSID", "", 32), Ok(()));
    assert_eq!(config.read_string("SSID", "none"), "");
}

#[test]
fn long_string_is_read_back_as_a_prefix() {
    let (_p, mut config) = fresh();
    let long = "0123456789abcdef0123456789abcdef-and-more";
    assert_eq!(config.store_string("NAME", long, 32), Ok(()));
    let back = config.read_string("NAME", "");
    assert_eq!(back, "0123456789abcdef0123456789abcdef");
    assert_eq!(back.chars().count(), 32);
    assert!(long.starts_with(&back));
}

#[test]
fn string_with_a_sentinel_is_read_back_up_to_it() {
    let (_p, mut config) = fresh();
    assert_eq!(config.store_string("NAME", "ab\u{3}cd", 32), Ok(()));
    assert_eq!(config.read_string("NAME", "x"), "ab");
}

#[test]
fn numbers_round_trip() {
    let (_p, mut config) = fresh();
    assert_eq!(config.store_u8("A", 0), Ok(()));
    assert_eq!(config.read_u8("A", 9), 0);
    assert_eq!(config.store_u8("A", 255), Ok(()));
    assert_eq!(config.read_u8("A", 9), 255);
    assert_eq!(config.store_u32("B", 0xdead_beef), Ok(()));
    assert_eq!(config.read_u32("B", 1), 0xdead_beef);
    assert_eq!(config.store_u64("C", u64::MAX), Ok(()));
    assert_eq!(config.read_u64("C", 1), u64::MAX);
}

#[test]
fn float_round_trip_keeps_the_bit_pattern() {
    let (_p, mut config) = fresh();
    for value in [0.0f32, -0.0, 1.26, 2.55, f32::MAX, f32::MIN_POSITIVE, f32::INFINITY] {
        assert_eq!(config.store_float("F", value.to_bits()), Ok(()));
        assert_eq!(config.read_float("F", 7), value.to_bits());
        assert_eq!(f32::from_bits(config.read_float("F", 7)).to_bits(), value.to_bits());
    }
    let nan = f32::NAN.to_bits();
    assert_eq!(config.store_float("F", nan), Ok(()));
    assert_eq!(config.read_float("F", 0), nan);
}

#[test]
fn values_survive_writes_to_other_keys() {
    let (_p, mut config) = fresh();
    config.store_string("SSID", "Home", 32).unwrap();
    config.store_u32("ID", 42).unwrap();
    config.store_u64("SLEEP", 1_000).unwrap();
    config.store_u8("TX_POWER", 8).unwrap();
    config.store_string("NAME", "garden", 32).unwrap();
    config.store_u32("OTHER", 7).unwrap();
    assert_eq!(config.read_string("SSID", ""), "Home");
    assert_eq!(config.read_u32("ID", 0), 42);
    assert_eq!(config.read_u64("SLEEP", 0), 1_000);
    assert_eq!(config.read_u8("TX_POWER", 0), 8);
    assert_eq!(config.read_string("NAME", ""), "garden");
}

#[test]
fn missing_key_gives_the_default() {
    let (_p, config) = fresh();
    assert_eq!(config.read_string("SSID", "fallback"), "fallback");
    assert_eq!(config.read_u8("A", 3), 3);
    assert_eq!(config.read_u32("B", 4), 4);
    assert_eq!(config.read_u64("C", 5), 5);
    assert_eq!(config.read_float("D", 6), 6);
}

#[test]
fn value_of_another_type_gives_the_default() {
    let (_p, mut config) = fresh();
    config.store_u32("K", 77).unwrap();
    assert_eq!(config.read_string("K", "d"), "d");
    assert_eq!(config.read_u8("K", 1), 1);
    assert_eq!(config.read_u64("K", 2), 2);
    config.store_string("K", "text", 8).unwrap();
    assert_eq!(config.read_u32("K", 3), 3);
    assert_eq!(config.read_string("K", "d"), "text");
}

#[test]
fn key_with_nul_is_refused_and_changes_nothing() {
    let (_p, mut config) = fresh();
    config.store_u32("ID", 1).unwrap();
    config.take_journal();
    assert_eq!(config.store_u32("I\0D", 2), Err(StorageError::EraseKey));
    assert_eq!(config.store_string("I\0D", "x", 4), Err(StorageError::EraseKey));
    assert_eq!(config.read_u32("ID", 0), 1);
    assert!(config.take_journal().is_empty());
}

#[test]
fn string_with_nul_is_refused_after_the_key_was_erased() {
    let (_p, mut config) = fresh();
    config.store_string("NAME", "old", 8).unwrap();
    assert_eq!(config.store_string("NAME", "a\0b", 8), Err(StorageError::StoreString));
    assert_eq!(config.read_string("NAME", "default"), "default");
    assert_eq!(config.store_string("NAME", "abcd\0", 4), Ok(()));
    assert_eq!(config.read_string("NAME", "default"), "abcd");
}

#[test]
fn journal_lists_what_was_written() {
    let (_p, mut config) = fresh();
    config.store_u8("A", 5).unwrap();
    let _ = config.store_string("B", "x\0", 4);
    let steps = config.take_journal();
    assert_eq!(steps.len(), 3);
    assert!(matches!(&steps[0], StorageOp::Erase(k) if k == "A"));
    assert!(matches!(&steps[1], StorageOp::Write(k, Slot::U8(5)) if k == "A"));
    assert!(matches!(&steps[2], StorageOp::Erase(k) if k == "B"));
    assert!(config.take_journal().is_empty());
    config.store_string("S", "hi", 3).unwrap();
    let steps = config.take_journal();
    assert!(matches!(&steps[1], StorageOp::Write(k, Slot::Text(v)) if k == "S" && v == "hi\u{3}"));
}

#[test]
fn only_one_configuration_at_a_time() {
    let mut partition = NvsPartition::new();
    assert!(!partition.is_taken());
    let mut first = NvsConfiguration::new(&mut partition).unwrap();
    assert!(partition.is_taken());
    assert!(matches!(NvsConfiguration::new(&mut partition), Err(StorageError::AlreadyTaken)));
    first.store_u32("ID", 9).unwrap();
    first.release(&mut partition);
    assert!(!partition.is_taken());
    let second = NvsConfiguration::new(&mut partition).unwrap();
    assert_eq!(second.read_u32("ID", 0), 9);
}

#[test]
fn partition_hands_over_what_was_loaded() {
    let mut partition = NvsPartition::new();
    partition.load("SSID", Slot::Text("Home\u{3}\u{3}".to_string()));
    partition.load("ID", Slot::U32(1));
    partition.load("ID", Slot::U32(2));
    let config = NvsConfiguration::new(&mut partition).unwrap();
    assert_eq!(config.get_ssid(), "Home");
    assert_eq!(config.get_id(), 2);
    assert!(config.take_journal_is_empty_at_start());
}

trait JournalAtStart {
    fn take_journal_is_empty_at_start(self) -> bool;
}

impl JournalAtStart for NvsConfiguration {
    fn take_journal_is_empty_at_start(mut self) -> bool {
        self.take_journal().is_empty()
    }
}

#[test]
fn getters_have_their_defaults() {
    let (_p, config) = fresh();
    assert_eq!(config.get_ssid(), "");
    assert_eq!(config.get_passphrase(), "");
    assert_eq!(config.get_name(), "");
    assert_eq!(config.get_id(), 0);
    assert_eq!(config.get_server_address(), "192.168.70.1");
    assert_eq!(config.get_deep_sleep_duration(), 3_600_000_000);
    assert_eq!(config.get_tx_power(), 80);
    assert_eq!(config.get_vhigh_moisture(), 0.0f32.to_bits());
    assert_eq!(config.get_vlow_moisture(), 0);
    assert_eq!(config.get_high_water_level(), 0);
    assert_eq!(config.get_low_water_level(), 0);
}

#[test]
fn setters_write_under_their_keys() {
    let (_p, mut config) = fresh();
    config.set_ssid("a-network-name-that-is-longer-than-32-characters").unwrap();
    assert_eq!(config.get_ssid(), "a-network-name-that-is-longer-th");
    assert_eq!(config.read_string(KEY_SSID, ""), config.get_ssid());
    config.set_passphrase("secret").unwrap();
    assert_eq!(config.get_passphrase(), "secret");
    config.set_name("garden").unwrap();
    assert_eq!(config.read_string(KEY_NAME, ""), "garden");
    config.set_id(0x2a).unwrap();
    assert_eq!(config.read_u32(KEY_ID, 0), 42);
    config.set_deep_sleep_duration(5).unwrap();
    assert_eq!(config.get_deep_sleep_duration(), 5);
    config.set_vhigh_moisture(1.5f32.to_bits()).unwrap();
    config.set_vlow_moisture(2.5f32.to_bits()).unwrap();
    assert_eq!(f32::from_bits(config.get_vhigh_moisture()), 1.5);
    assert_eq!(f32::from_bits(config.get_vlow_moisture()), 2.5);
}

#[test]
fn tx_power_is_the_byte_read_as_signed() {
    let (_p, mut config) = fresh();
    config.store_u8(KEY_TX_POWER, 127).unwrap();
    assert_eq!(config.get_tx_power(), 127);
    config.store_u8(KEY_TX_POWER, 128).unwrap();
    assert_eq!(config.get_tx_power(), -128);
    config.store_u8(KEY_TX_POWER, 200).unwrap();
    assert_eq!(config.get_tx_power(), -56);
    config.store_u8(KEY_TX_POWER, 255).unwrap();
    assert_eq!(config.get_tx_power(), -1);
}

#[test]
fn contains_nul_finds_the_character() {
    assert!(contains_nul("a\0"));
    assert!(contains_nul("\0"));
    assert!(!contains_nul("abc"));
    assert!(!contains_nul(""));
}

#[test]
fn url_names_the_collector_and_the_endpoint() {
    let (_p, mut config) = fresh();
    assert_eq!(
        make_http_url(&config, SensorKind::Moisture),
        "http://192.168.70.1/send_soil_moisture"
    );
    config.store_string("SRVADDR", "10.0.0.2:8080", 128).unwrap();
    assert_eq!(
        make_http_url(&config, SensorKind::WaterLevel),
        "http://10.0.0.2:8080/send_water_level"
    );
}

#[test]
fn schema_has_the_common_fields_and_the_calibration_points() {
    let moisture = map_nvs_form(SensorKind::Moisture);
    let water = map_nvs_form(SensorKind::WaterLevel);
    assert_eq!(moisture.len(), 9);
    assert_eq!(water.len(), 9);
    let names: Vec<&str> = moisture.iter().map(|e| e.form_name).collect();
    assert_eq!(
        names,
        ["ssid", "pass", "srvaddr", "name", "id", "sleep", "txpwr", "vhigh_moist", "vlow_moist"]
    );
    assert_eq!(water[7].nvs_key, "WATERHIGH");
    assert_eq!(water[8].form_name, "water_low");
    assert!(matches!(moisture[0].data_type, MapFormType::String("", 32)));
    assert!(matches!(moisture[1].data_type, MapFormType::String("", 63)));
    assert!(matches!(moisture[2].data_type, MapFormType::String("", 128)));
    assert!(matches!(moisture[4].data_type, MapFormType::U32Hex(0)));
    assert!(matches!(moisture[5].data_type, MapFormType::Unsigned64(3_600_000_000)));
    assert!(matches!(moisture[6].data_type, MapFormType::Unsigned8(80)));
    assert!(matches!(moisture[7].data_type, MapFormType::Float(b) if f32::from_bits(b) == 1.26));
    assert!(matches!(moisture[8].data_type, MapFormType::Float(b) if f32::from_bits(b) == 2.55));
    assert!(matches!(water[7].data_type, MapFormType::Float(b) if f32::from_bits(b) == 20.0));
    assert!(matches!(water[8].data_type, MapFormType::Float(b) if f32::from_bits(b) == 1020.0));
    assert_eq!(moisture[2].template_id, Some("{ARVADDR}"));
}

#[test]
fn schema_keys_are_distinct() {
    for kind in [SensorKind::Moisture, SensorKind::WaterLevel] {
        let schema = map_nvs_form(kind);
        for i in 0..schema.len() {
            for j in 0..schema.len() {
                if i != j {
                    assert_ne!(schema[i].nvs_key, schema[j].nvs_key);
                }
            }
        }
    }
}

#[test]
fn slot_table_puts_gets_and_removes() {
    let mut table = SlotTable::new();
    assert!(table.get("a").is_none());
    table.put("a", Slot::U8(1));
    table.put("b", Slot::U64(2));
    table.put("a", Slot::U32(3));
    assert!(matches!(table.get("a"), Some(Slot::U32(3))));
    assert!(table.get("b").is_some());
    assert!(table.remove("b"));
    assert!(!table.remove("b"));
    assert!(table.get("b").is_none());
    assert!(matches!(Slot::Text("x".to_string()).duplicate(), Slot::Text(s) if s == "x"));
}

#[test]
fn error_messages() {
    assert_eq!(StorageError::AlreadyTaken.message(), "MainConfiguration NVS already taken");
    assert_eq!(StorageError::EraseKey.message(), "Failed to erase key");
    assert_eq!(StorageError::StoreString.message(), "Failed to store string");
}
