use sensor_node::configuration::main_configuration::{
    map_nvs_form, MapFormElement, MapFormType, SensorKind,
};
use sensor_node::configuration::nvs_configuration::{NvsConfiguration, NvsPartition};
use sensor_node::float_text::FloatText;
use sensor_node::form::{
    apply, apply_body, apply_values, body_values, check_content_length, scan_floats, submit,
    submitted_values, ApplyError, LengthError, SaveOutcome, MAX_BODY_LENGTH,
};
use sensor_node::string_error::StorageError;
use sensor_node::template::{
    accespoint_to_template, float_field_texts, generate_html, render_page, substitute_fields,
    to_html, AccessPoint, ContextToken, PageTemplates,
};

struct StdFloats;

impl FloatText for StdFloats {
    fn print(&self, bits: u32) -> String {
        f32::from_bits(bits).to_string()
    }

    fn scan(&self, text: &str) -> Option<u32> {
        text.parse::<f32>().ok().map(f32::to_bits)
    }
}

fn fresh() -> NvsConfiguration {
    let mut partition = NvsPartition::new();
    NvsConfiguration::new(&mut partition).unwrap()
}

fn pairs(list: &[(&str, &str)]) -> Vec<(String, String)> {
    list.iter().map(|(k, v)| (k.to_string(), v.to_string())).collect()
}

fn page(config: &NvsConfiguration, schema: &Vec<MapFormElement>, base: &str) -> String {
    generate_html(config, schema, &StdFloats, base, "", None, None, &Vec::new())
}

#[test]
fn unknown_names_change_nothing_and_succeed() {
    let schema = map_nvs_form(SensorKind::Moisture);
    let mut config = fresh();
    config.store_string("SSID", "Home", 32).unwrap();
    config.take_journal();
    let done = apply(&mut config, &schema, &StdFloats, &pairs(&[("foo", "1"), ("bar", "zz")]));
    assert_eq!(done, Ok(()));
    assert_eq!(config.get_ssid(), "Home");
    assert_eq!(config.get_id(), 0);
    assert!(config.take_journal().is_empty());
    assert_eq!(apply_body(&mut config, &schema, &StdFloats, "foo=1&SSID=x&Ssid=y"), Ok(()));
    assert_eq!(config.get_ssid(), "Home");
    assert!(config.take_journal().is_empty());
}

#[test]
fn empty_body_changes_nothing() {
    let schema = map_nvs_form(SensorKind::Moisture);
    let mut config = fresh();
    assert_eq!(apply_body(&mut config, &schema, &StdFloats, ""), Ok(()));
    assert_eq!(apply(&mut config, &schema, &StdFloats, &Vec::new()), Ok(()));
    assert!(config.take_journal().is_empty());
}

#[test]
fn submitted_form_shows_on_the_page() {
    let schema = map_nvs_form(SensorKind::Moisture);
    let mut config = fresh();
    assert_eq!(
        apply_body(&mut config, &schema, &StdFloats, "ssid=Home&pass=secret123"),
        Ok(())
    );
    assert_eq!(config.get_ssid(), "Home");
    assert_eq!(config.get_passphrase(), "secret123");
    let html = page(&config, &schema, "<input name=ssid value=\"{SSID}\"><b>{NAME}</b>");
    assert_eq!(html, "<input name=ssid value=\"Home\"><b></b>");
}

#[test]
fn field_without_token_is_not_shown() {
    let schema = vec![
        MapFormElement {
            nvs_key: "SSID",
            form_name: "ssid",
            template_id: Some("{SSID}"),
            data_type: MapFormType::String("", 32),
        },
        MapFormElement {
            nvs_key: "PASS",
            form_name: "pass",
            template_id: None,
            data_type: MapFormType::String("", 63),
        },
    ];
    let mut config = fresh();
    assert_eq!(
        apply_body(&mut config, &schema, &StdFloats, "ssid=Home&pass=secret123"),
        Ok(())
    );
    assert_eq!(config.read_string("PASS", ""), "secret123");
    let html = page(&config, &schema, "ssid={SSID} pass={PASS}");
    assert_eq!(html, "ssid=Home pass={PASS}");
    assert!(!html.contains("secret123"));
}

#[test]
fn id_is_shown_in_base_sixteen() {
    let schema = map_nvs_form(SensorKind::Moisture);
    let mut config = fresh();
    config.store_u32("ID", 0x2a).unwrap();
    assert_eq!(page(&config, &schema, "id={ID}"), "id=2a");
    assert_eq!(apply_body(&mut config, &schema, &StdFloats, "id=2A"), Ok(()));
    assert_eq!(config.get_id(), 42);
    assert_eq!(apply_body(&mut config, &schema, &StdFloats, "id=ffffffff"), Ok(()));
    assert_eq!(config.get_id(), u32::MAX);
    assert_eq!(page(&config, &schema, "id={ID}"), "id=ffffffff");
}

#[test]
fn every_type_is_shown_as_the_form_reads_it() {
    let schema = map_nvs_form(SensorKind::Moisture);
    let mut config = fresh();
    let body = "ssid=Home&pass=pw&srvaddr=10.0.0.2&name=My+Node%21&id=1f&sleep=60000000&txpwr=34&vhigh_moist=1.5&vlow_moist=2.25";
    assert_eq!(apply_body(&mut config, &schema, &StdFloats, body), Ok(()));
    let base = "{SSID}|{PASS}|{ARVADDR}|{NAME}|{ID}|{SLEEP}|{TXPWR}|{VHIGH_MOIST}|{VLOW_MOIST}";
    assert_eq!(
        page(&config, &schema, base),
        "Home|pw|10.0.0.2|My Node!|1f|60000000|34|1.5|2.25"
    );
    assert_eq!(config.get_vhigh_moisture(), 1.5f32.to_bits());
}

#[test]
fn defaults_are_shown_where_nothing_is_stored() {
    let config = fresh();
    let base = "{SSID}|{ID}|{SLEEP}|{TXPWR}|{VHIGH_MOIST}|{VLOW_MOIST}";
    assert_eq!(
        page(&config, &map_nvs_form(SensorKind::Moisture), base),
        "|0|3600000000|80|1.26|2.55"
    );
    assert_eq!(
        page(&config, &map_nvs_form(SensorKind::WaterLevel), "{WATER_HIGH}|{WATER_LOW}|{VLOW_MOIST}"),
        "20|1020|{VLOW_MOIST}"
    );
}

#[test]
fn unparsable_value_ends_the_work_and_keeps_what_was_written() {
    let schema = map_nvs_form(SensorKind::Moisture);
    let mut config = fresh();
    config.store_u64("SLEEP", 7).unwrap();
    let done = apply_body(&mut config, &schema, &StdFloats, "sleep=99&id=xyz&ssid=Home&name=n");
    assert_eq!(done, Err(ApplyError::Parse { field: 4 }));
    assert_eq!(config.get_ssid(), "Home");
    assert_eq!(config.get_name(), "n");
    assert_eq!(config.get_id(), 0);
    assert_eq!(config.get_deep_sleep_duration(), 7);
}

#[test]
fn numbers_out_of_range_are_unparsable() {
    let schema = map_nvs_form(SensorKind::Moisture);
    let mut config = fresh();
    for body in ["txpwr=256", "txpwr=-1", "txpwr=", "txpwr=+", "txpwr=1.0", "txpwr=+-1", "txpwr=0x10"] {
        assert_eq!(
            apply_body(&mut config, &schema, &StdFloats, body),
            Err(ApplyError::Parse { field: 6 }),
            "{}",
            body
        );
    }
    assert_eq!(
        apply_body(&mut config, &schema, &StdFloats, "id=100000000"),
        Err(ApplyError::Parse { field: 4 })
    );
    assert_eq!(
        apply_body(&mut config, &schema, &StdFloats, "sleep=18446744073709551616"),
        Err(ApplyError::Parse { field: 5 })
    );
    assert_eq!(
        apply_body(&mut config, &schema, &StdFloats, "vlow_moist=wet"),
        Err(ApplyError::Parse { field: 8 })
    );
    assert_eq!(apply_body(&mut config, &schema, &StdFloats, "txpwr=%2B255"), Ok(()));
    assert_eq!(config.read_u8("TX_POWER", 0), 255);
    assert_eq!(apply_body(&mut config, &schema, &StdFloats, "sleep=18446744073709551615"), Ok(()));
    assert_eq!(config.get_deep_sleep_duration(), u64::MAX);
    assert_eq!(apply_body(&mut config, &schema, &StdFloats, "txpwr=007"), Ok(()));
    assert_eq!(config.read_u8("TX_POWER", 0), 7);
}

#[test]
fn value_that_cannot_be_stored_ends_the_work() {
    let schema = map_nvs_form(SensorKind::Moisture);
    let mut config = fresh();
    config.store_string("NAME", "old", 32).unwrap();
    let done = apply_body(&mut config, &schema, &StdFloats, "ssid=Home&name=a%00b&id=5");
    assert_eq!(done, Err(ApplyError::Storage { field: 3, cause: StorageError::StoreString }));
    assert_eq!(config.get_ssid(), "Home");
    assert_eq!(config.get_name(), "");
    assert_eq!(config.get_id(), 0);
}

#[test]
fn first_occurrence_of_a_name_counts() {
    let schema = map_nvs_form(SensorKind::Moisture);
    let mut config = fresh();
    assert_eq!(apply_body(&mut config, &schema, &StdFloats, "ssid=first&ssid=second"), Ok(()));
    assert_eq!(config.get_ssid(), "first");
    let done = apply(&mut config, &schema, &StdFloats, &pairs(&[("name", "a"), ("name", "b")]));
    assert_eq!(done, Ok(()));
    assert_eq!(config.get_name(), "a");
}

#[test]
fn strings_are_cut_to_the_width_of_their_slot() {
    let schema = map_nvs_form(SensorKind::Moisture);
    let mut config = fresh();
    let long = "x".repeat(40);
    let done = apply(&mut config, &schema, &StdFloats, &pairs(&[("ssid", &long)]));
    assert_eq!(done, Ok(()));
    assert_eq!(config.get_ssid(), "x".repeat(32));
}

#[test]
fn submitted_values_follow_the_schema() {
    let schema = map_nvs_form(SensorKind::Moisture);
    let raws = submitted_values(&schema, &pairs(&[("id", "1"), ("zzz", "2"), ("ssid", "s")]));
    assert_eq!(raws.len(), 9);
    assert_eq!(raws[0], Some("s".to_string()));
    assert_eq!(raws[4], Some("1".to_string()));
    assert_eq!(raws[1], None);
    let raws = body_values(&schema, "id=1&zzz=2&ssid=a%20b&pass");
    assert_eq!(raws[0], Some("a b".to_string()));
    assert_eq!(raws[1], Some("".to_string()));
    assert_eq!(raws[4], Some("1".to_string()));
    assert_eq!(raws[5], None);
}

#[test]
fn floats_are_scanned_for_float_fields_only() {
    let schema = map_nvs_form(SensorKind::Moisture);
    let raws = submitted_values(&schema, &pairs(&[("id", "1.5"), ("vhigh_moist", "1.5"), ("vlow_moist", "x")]));
    let bits = scan_floats(&schema, &raws, &StdFloats);
    assert_eq!(bits.len(), 9);
    assert_eq!(bits[4], None);
    assert_eq!(bits[7], Some(1.5f32.to_bits()));
    assert_eq!(bits[8], None);
}

#[test]
fn apply_values_takes_the_floats_as_given() {
    let schema = map_nvs_form(SensorKind::WaterLevel);
    let mut config = fresh();
    let mut raws: Vec<Option<String>> = vec![None; 9];
    let mut bits: Vec<Option<u32>> = vec![None; 9];
    raws[7] = Some("whatever".to_string());
    bits[7] = Some(12.5f32.to_bits());
    assert_eq!(apply_values(&mut config, &schema, &raws, &bits), Ok(()));
    assert_eq!(config.get_high_water_level(), 12.5f32.to_bits());
    raws[8] = Some("3".to_string());
    assert_eq!(
        apply_values(&mut config, &schema, &raws, &bits),
        Err(ApplyError::Parse { field: 8 })
    );
    assert_eq!(apply_values(&mut config, &schema, &Vec::new(), &Vec::new()), Ok(()));
}

#[test]
fn content_length_is_checked_before_the_body_is_read() {
    assert_eq!(MAX_BODY_LENGTH, 256);
    assert_eq!(check_content_length(None), Err(LengthError::NoBody));
    assert_eq!(check_content_length(Some("0")), Err(LengthError::NoBody));
    assert_eq!(check_content_length(Some("")), Err(LengthError::NoBody));
    assert_eq!(check_content_length(Some("abc")), Err(LengthError::NoBody));
    assert_eq!(check_content_length(Some("-5")), Err(LengthError::NoBody));
    assert_eq!(check_content_length(Some(" 12")), Err(LengthError::NoBody));
    assert_eq!(check_content_length(Some("1")), Ok(1));
    assert_eq!(check_content_length(Some("+17")), Ok(17));
    assert_eq!(check_content_length(Some("255")), Ok(255));
    assert_eq!(check_content_length(Some("256")), Err(LengthError::TooLong));
    assert_eq!(check_content_length(Some("18446744073709551615")), Err(LengthError::TooLong));
    assert_eq!(check_content_length(Some("18446744073709551616")), Err(LengthError::NoBody));
}

#[test]
fn outcomes_have_their_messages() {
    assert_eq!(SaveOutcome::Saved.message(), "Save successfully!");
    assert_eq!(
        SaveOutcome::Refused(LengthError::NoBody).message(),
        "Save error: No body or no content-length"
    );
    assert_eq!(
        SaveOutcome::Refused(LengthError::TooLong).message(),
        "Save error: Content-length too long."
    );
    assert_eq!(SaveOutcome::Unreadable.message(), "Save error: Failed to read request.");
    assert_eq!(
        SaveOutcome::Failed(ApplyError::Parse { field: 2 }).message(),
        "Save error: Invalid value."
    );
    assert_eq!(
        SaveOutcome::Failed(ApplyError::Storage { field: 0, cause: StorageError::StoreString })
            .message(),
        "Save error: Failed to store string"
    );
}

#[test]
fn submit_applies_a_body_that_was_read() {
    let schema = map_nvs_form(SensorKind::Moisture);
    let mut config = fresh();
    assert_eq!(submit(&mut config, &schema, &StdFloats, None), SaveOutcome::Unreadable);
    assert_eq!(submit(&mut config, &schema, &StdFloats, Some("ssid=Home")), SaveOutcome::Saved);
    assert_eq!(config.get_ssid(), "Home");
    assert_eq!(
        submit(&mut config, &schema, &StdFloats, Some("txpwr=300")),
        SaveOutcome::Failed(ApplyError::Parse { field: 6 })
    );
}

#[test]
fn networks_are_listed_for_the_script() {
    assert_eq!(accespoint_to_template(None), "");
    assert_eq!(accespoint_to_template(Some(Vec::new())), "[]");
    let found = vec![
        AccessPoint { ssid: "Home".to_string(), signal_strength: -40 },
        AccessPoint { ssid: "Caf\u{e9}".to_string(), signal_strength: 0 },
        AccessPoint { ssid: "far".to_string(), signal_strength: -128 },
        AccessPoint { ssid: "near".to_string(), signal_strength: 127 },
    ];
    assert_eq!(
        accespoint_to_template(Some(found)),
        "[{ssid:\"Home\",rssi:-40},{ssid:\"Caf\u{e9}\",rssi:0},{ssid:\"far\",rssi:-128},{ssid:\"near\",rssi:127},]"
    );
}

#[test]
fn page_replaces_its_tokens_in_order() {
    let schema = map_nvs_form(SensorKind::Moisture);
    let mut config = fresh();
    config.store_string("SSID", "Home", 32).unwrap();
    let context = vec![ContextToken { token: "{SENSORS}".to_string(), value: "Battery: 80%\n".to_string() }];
    let base = "<h1>{ERROR_MSG}</h1>{FORM_SETTINGS}<script>{AP_LIST}</script><pre>{SENSORS}</pre>{SSID}{SSID}{UNKNOWN}";
    let html = generate_html(
        &config,
        &schema,
        &StdFloats,
        base,
        "<i>{VHIGH_MOIST}</i>",
        Some("Save successfully!".to_string()),
        Some(vec![AccessPoint { ssid: "n".to_string(), signal_strength: -1 }]),
        &context,
    );
    assert_eq!(
        html,
        "<h1>Save successfully!</h1><i>1.26</i><script>[{ssid:\"n\",rssi:-1},]</script><pre>Battery: 80%\n</pre>HomeHome{UNKNOWN}"
    );
}

#[test]
fn page_without_message_has_an_empty_message() {
    let config = fresh();
    let html = page(&config, &Vec::new(), "a{ERROR_MSG}b{AP_LIST}c{FORM_SETTINGS}d");
    assert_eq!(html, "abcd");
}

#[test]
fn stored_text_is_searched_by_later_tokens() {
    let schema = map_nvs_form(SensorKind::Moisture);
    let mut config = fresh();
    config.store_string("SSID", "{NAME}", 32).unwrap();
    config.store_string("NAME", "garden", 32).unwrap();
    assert_eq!(page(&config, &schema, "{SSID}/{NAME}"), "garden/garden");
    config.store_string("NAME", "{SSID}", 32).unwrap();
    config.store_string("SSID", "x", 32).unwrap();
    assert_eq!(page(&config, &schema, "{SSID}/{NAME}"), "x/{SSID}");
}

#[test]
fn render_page_takes_the_float_texts_as_given() {
    let schema = map_nvs_form(SensorKind::Moisture);
    let config = fresh();
    let mut texts: Vec<String> = vec![String::new(); 9];
    texts[7] = "high".to_string();
    texts[8] = "low".to_string();
    let html = render_page(&config, &schema, &texts, "{VHIGH_MOIST}-{VLOW_MOIST}-{TXPWR}", "", None, None, &Vec::new());
    assert_eq!(html, "high-low-80");
    let html = render_page(&config, &schema, &Vec::new(), "{VHIGH_MOIST}-{TXPWR}", "", None, None, &Vec::new());
    assert_eq!(html, "-80");
    let chars = substitute_fields("<{ID}>".chars().collect(), &config, &schema, &texts);
    assert_eq!(chars.into_iter().collect::<String>(), "<0>");
}

#[test]
fn float_texts_stand_at_the_places_of_the_float_fields() {
    let schema = map_nvs_form(SensorKind::WaterLevel);
    let mut config = fresh();
    config.store_float("WATERLOW", 900.5f32.to_bits()).unwrap();
    let texts = float_field_texts(&config, &schema, &StdFloats);
    assert_eq!(texts.len(), 9);
    assert_eq!(texts[0], "");
    assert_eq!(texts[7], "20");
    assert_eq!(texts[8], "900.5");
}

#[test]
fn to_html_takes_the_form_of_the_sensor() {
    let templates = PageTemplates {
        base: "{FORM_SETTINGS}#{ID}".to_string(),
        form_moisture: "moist {VLOW_MOIST}".to_string(),
        form_water_level: "water {WATER_LOW}".to_string(),
    };
    let config = fresh();
    assert_eq!(
        to_html(&config, SensorKind::Moisture, &templates, &StdFloats, None, None, &Vec::new()),
        "moist 2.55#0"
    );
    assert_eq!(
        to_html(&config, SensorKind::WaterLevel, &templates, &StdFloats, None, None, &Vec::new()),
        "water 1020#0"
    );
}

#[test]
fn saved_form_that_was_not_written_is_reported() {
    assert_eq!(SaveOutcome::Saved.report(true), "Save successfully!");
    assert_eq!(SaveOutcome::Saved.report(false), "Save error: Failed to write to the flash.");
    for stored in [true, false] {
        assert_eq!(
            SaveOutcome::Unreadable.report(stored),
            "Save error: Failed to read request."
        );
        assert_eq!(
            SaveOutcome::Refused(LengthError::TooLong).report(stored),
            "Save error: Content-length too long."
        );
        assert_eq!(
            SaveOutcome::Failed(ApplyError::Parse { field: 0 }).report(stored),
            "Save error: Invalid value."
        );
    }
}

struct NoFloats;

impl FloatText for NoFloats {
    fn print(&self, _bits: u32) -> String {
        "?".to_string()
    }

    fn scan(&self, _text: &str) -> Option<u32> {
        None
    }
}

#[test]
fn floats_are_read_and_written_by_the_platform_that_is_given() {
    let schema = map_nvs_form(SensorKind::Moisture);
    let mut config = fresh();
    assert_eq!(
        apply_body(&mut config, &schema, &NoFloats, "vhigh_moist=1.5"),
        Err(ApplyError::Parse { field: 7 })
    );
    assert_eq!(apply_body(&mut config, &schema, &StdFloats, "vhigh_moist=1.5"), Ok(()));
    assert_eq!(config.get_vhigh_moisture(), 1.5f32.to_bits());
    let html = generate_html(&config, &schema, &NoFloats, "{VHIGH_MOIST}/{ID}", "", None, None, &Vec::new());
    assert_eq!(html, "?/0");
    let html = generate_html(&config, &schema, &StdFloats, "{VHIGH_MOIST}/{ID}", "", None, None, &Vec::new());
    assert_eq!(html, "1.5/0");
}
