//! The schema of the configuration: one list of fields from which the store
//! takes its defaults, the page its values, and the form its types.

use vstd::prelude::*;
use crate::configuration::nvs_configuration::{
    NvsConfiguration,
    stored_string,
    KEY_ID,
    KEY_MOIST_VHIGH,
    KEY_MOIST_VLOW,
    KEY_NAME,
    KEY_PASSPHRASE,
    KEY_SERVER_ADDRESS,
    KEY_SLEEP,
    KEY_SSID,
    KEY_TX_POWER,
    KEY_WATER_HIGH,
    KEY_WATER_LOW,
};
use crate::text::{append_str, from_chars};

verus! {

/// The bit pattern of the float 1.26, the voltage of soaked soil.
pub const DEFAULT_MOIST_VHIGH: u32 = 0x3fa1_47ae;

/// The bit pattern of the float 2.55, the voltage of dry soil.
pub const DEFAULT_MOIST_VLOW: u32 = 0x4023_3333;

/// The bit pattern of the float 20.0, the distance in millimetres to a full
/// tank.
pub const DEFAULT_WATER_HIGH: u32 = 0x41a0_0000;

/// The bit pattern of the float 1020.0, the distance in millimetres to an
/// empty tank.
pub const DEFAULT_WATER_LOW: u32 = 0x447f_0000;

/// The sensor that the node is built with. It decides which calibration
/// fields the schema has and where the readings are sent.
#[derive(Debug, Clone, Copy, PartialEq, Eq, Structural)]
pub enum SensorKind {
    /// A soil moisture probe.
    Moisture,
    /// An ultrasonic water level gauge.
    WaterLevel,
}

/// The type of a field, with its default.
#[derive(Debug)]
pub enum MapFormType {
    /// A string, with its default and the width of its slot in characters.
    String(&'static str, usize),
    /// A float, with the bit pattern of its default.
    Float(u32),
    /// A 32-bit number that the form shows and reads in base sixteen.
    U32Hex(u32),
    /// A 64-bit number.
    Unsigned64(u64),
    /// An 8-bit number.
    Unsigned8(u8),
}

/// A [`MapFormType`] as a mathematical value.
pub enum FormTypeView {
    String(Seq<char>, nat),
    Float(u32),
    U32Hex(u32),
    Unsigned64(u64),
    Unsigned8(u8),
}

impl View for MapFormType {
    type V = FormTypeView;

    open spec fn view(&self) -> FormTypeView {
        match self {
            MapFormType::String(default, max) => FormTypeView::String(default@, *max as nat),
            MapFormType::Float(default) => FormTypeView::Float(*default),
            MapFormType::U32Hex(default) => FormTypeView::U32Hex(*default),
            MapFormType::Unsigned64(default) => FormTypeView::Unsigned64(*default),
            MapFormType::Unsigned8(default) => FormTypeView::Unsigned8(*default),
        }
    }
}

/// One field of the configuration: its key in the store, its name in the
/// form, the token that the page shows it at, and its type.
#[derive(Debug)]
pub struct MapFormElement {
    pub nvs_key: &'static str,
    pub form_name: &'static str,
    pub template_id: Option<&'static str>,
    pub data_type: MapFormType,
}

/// A [`MapFormElement`] as a mathematical value.
pub struct FormElementView {
    pub nvs_key: Seq<char>,
    pub form_name: Seq<char>,
    pub template_id: Option<Seq<char>>,
    pub data_type: FormTypeView,
}

impl View for MapFormElement {
    type V = FormElementView;

    open spec fn view(&self) -> FormElementView {
        FormElementView {
            nvs_key: self.nvs_key@,
            form_name: self.form_name@,
            template_id: match self.template_id {
                Some(token) => Some(token@),
                None => None,
            },
            data_type: self.data_type@,
        }
    }
}

/// The fields `schema`, as mathematical values.
pub open spec fn schema_view(schema: Seq<MapFormElement>) -> Seq<FormElementView> {
    schema.map_values(|e: MapFormElement| e@)
}

/// Whether no two fields of `schema` share a key of the store.
pub open spec fn distinct_nvs_keys(schema: Seq<FormElementView>) -> bool {
    forall|i: int, j: int|
        0 <= i < schema.len() && 0 <= j < schema.len() && i != j ==> (#[trigger] schema[i]).nvs_key
            != (#[trigger] schema[j]).nvs_key
}

/// A field of the schema.
pub open spec fn field(
    nvs_key: &str,
    form_name: &str,
    template_id: &str,
    data_type: FormTypeView,
) -> FormElementView {
    FormElementView {
        nvs_key: nvs_key@,
        form_name: form_name@,
        template_id: Some(template_id@),
        data_type,
    }
}

/// The fields that every node has: network, collector, identity, sleep and
/// radio power.
pub open spec fn common_fields() -> Seq<FormElementView> {
    seq![
        field(KEY_SSID, "ssid", "{SSID}", FormTypeView::String(""@, 32)),
        field(KEY_PASSPHRASE, "pass", "{PASS}", FormTypeView::String(""@, 63)),
        field(KEY_SERVER_ADDRESS, "srvaddr", "{ARVADDR}", FormTypeView::String(""@, 128)),
        field(KEY_NAME, "name", "{NAME}", FormTypeView::String(""@, 32)),
        field(KEY_ID, "id", "{ID}", FormTypeView::U32Hex(0)),
        field(KEY_SLEEP, "sleep", "{SLEEP}", FormTypeView::Unsigned64(3600_000_000)),
        field(KEY_TX_POWER, "txpwr", "{TXPWR}", FormTypeView::Unsigned8(80)),
    ]
}

/// The two calibration points of the sensor `kind`.
pub open spec fn calibration_fields(kind: SensorKind) -> Seq<FormElementView> {
    match kind {
        SensorKind::Moisture => seq![
            field(
                KEY_MOIST_VHIGH,
                "vhigh_moist",
                "{VHIGH_MOIST}",
                FormTypeView::Float(DEFAULT_MOIST_VHIGH),
            ),
            field(
                KEY_MOIST_VLOW,
                "vlow_moist",
                "{VLOW_MOIST}",
                FormTypeView::Float(DEFAULT_MOIST_VLOW),
            ),
        ],
        SensorKind::WaterLevel => seq![
            field(
                KEY_WATER_HIGH,
                "water_high",
                "{WATER_HIGH}",
                FormTypeView::Float(DEFAULT_WATER_HIGH),
            ),
            field(
                KEY_WATER_LOW,
                "water_low",
                "{WATER_LOW}",
                FormTypeView::Float(DEFAULT_WATER_LOW),
            ),
        ],
    }
}

/// The schema of a node with the sensor `kind`: the common fields, then the
/// calibration points of the sensor.
pub open spec fn nvs_form(kind: SensorKind) -> Seq<FormElementView> {
    common_fields() + calibration_fields(kind)
}

/// The schema of a node with the sensor `kind`.
pub fn map_nvs_form(kind: SensorKind) -> (schema: Vec<MapFormElement>)
    ensures
        schema_view(schema@) == nvs_form(kind),
{
    let mut schema: Vec<MapFormElement> = Vec::new();
    schema.push(
        MapFormElement {
            nvs_key: KEY_SSID,
            form_name: "ssid",
            template_id: Some("{SSID}"),
            data_type: MapFormType::String("", 32),
        },
    );
    schema.push(
        MapFormElement {
            nvs_key: KEY_PASSPHRASE,
            form_name: "pass",
            template_id: Some("{PASS}"),
            data_type: MapFormType::String("", 63),
        },
    );
    schema.push(
        MapFormElement {
            nvs_key: KEY_SERVER_ADDRESS,
            form_name: "srvaddr",
            template_id: Some("{ARVADDR}"),
            data_type: MapFormType::String("", 128),
        },
    );
    schema.push(
        MapFormElement {
            nvs_key: KEY_NAME,
            form_name: "name",
            template_id: Some("{NAME}"),
            data_type: MapFormType::String("", 32),
        },
    );
    schema.push(
        MapFormElement {
            nvs_key: KEY_ID,
            form_name: "id",
            template_id: Some("{ID}"),
            data_type: MapFormType::U32Hex(0),
        },
    );
    schema.push(
        MapFormElement {
            nvs_key: KEY_SLEEP,
            form_name: "sleep",
            template_id: Some("{SLEEP}"),
            data_type: MapFormType::Unsigned64(3600_000_000),
        },
    );
    schema.push(
        MapFormElement {
            nvs_key: KEY_TX_POWER,
            form_name: "txpwr",
            template_id: Some("{TXPWR}"),
            data_type: MapFormType::Unsigned8(80),
        },
    );
    match kind {
        SensorKind::Moisture => {
            schema.push(
                MapFormElement {
                    nvs_key: KEY_MOIST_VHIGH,
                    form_name: "vhigh_moist",
                    template_id: Some("{VHIGH_MOIST}"),
                    data_type: MapFormType::Float(DEFAULT_MOIST_VHIGH),
                },
            );
            schema.push(
                MapFormElement {
                    nvs_key: KEY_MOIST_VLOW,
                    form_name: "vlow_moist",
                    template_id: Some("{VLOW_MOIST}"),
                    data_type: MapFormType::Float(DEFAULT_MOIST_VLOW),
                },
            );
        },
        SensorKind::WaterLevel => {
            schema.push(
                MapFormElement {
                    nvs_key: KEY_WATER_HIGH,
                    form_name: "water_high",
                    template_id: Some("{WATER_HIGH}"),
                    data_type: MapFormType::Float(DEFAULT_WATER_HIGH),
                },
            );
            schema.push(
                MapFormElement {
                    nvs_key: KEY_WATER_LOW,
                    form_name: "water_low",
                    template_id: Some("{WATER_LOW}"),
                    data_type: MapFormType::Float(DEFAULT_WATER_LOW),
                },
            );
        },
    }
    assert(schema_view(schema@) =~= nvs_form(kind));
    schema
}

/// The name of the collector's endpoint for readings of the sensor `kind`.
pub open spec fn endpoint_of(kind: SensorKind) -> Seq<char> {
    match kind {
        SensorKind::Moisture => "send_soil_moisture"@,
        SensorKind::WaterLevel => "send_water_level"@,
    }
}

/// The address that readings of the sensor `kind` are sent to, for the
/// collector at `server_address`.
pub open spec fn http_url(server_address: Seq<char>, kind: SensorKind) -> Seq<char> {
    "http://"@ + server_address + "/"@ + endpoint_of(kind)
}

/// The address that the node sends its readings to: the configured
/// collector, and the endpoint of the node's sensor.
pub fn make_http_url(config: &NvsConfiguration, kind: SensorKind) -> (url: String)
    ensures
        url@ == http_url(stored_string(config@, KEY_SERVER_ADDRESS@, "192.168.70.1"@), kind),
{
    let endpoint = match kind {
        SensorKind::Moisture => "send_soil_moisture",
        SensorKind::WaterLevel => "send_water_level",
    };
    let address = config.get_server_address();
    let mut url: Vec<char> = Vec::new();
    append_str(&mut url, "http://");
    append_str(&mut url, address.as_str());
    append_str(&mut url, "/");
    append_str(&mut url, endpoint);
    from_chars(&url)
}

/// No two fields of a node's schema share a key of the store.
pub proof fn lemma_schema_keys_distinct(kind: SensorKind)
    ensures
        distinct_nvs_keys(nvs_form(kind)),
{
    reveal_strlit("SSID");
    reveal_strlit("PASS");
    reveal_strlit("SRVADDR");
    reveal_strlit("ID");
    reveal_strlit("NAME");
    reveal_strlit("SLEEP");
    reveal_strlit("TX_POWER");
    reveal_strlit("MVHIGH");
    reveal_strlit("MVLOW");
    reveal_strlit("WATERHIGH");
    reveal_strlit("WATERLOW");
    let schema = nvs_form(kind);
    assert(schema.len() == 9);
    assert(schema[0].nvs_key.len() == 4 && schema[0].nvs_key[0] == 'S');
    assert(schema[1].nvs_key.len() == 4 && schema[1].nvs_key[0] == 'P');
    assert(schema[2].nvs_key.len() == 7);
    assert(schema[3].nvs_key.len() == 4 && schema[3].nvs_key[0] == 'N');
    assert(schema[4].nvs_key.len() == 2);
    assert(schema[5].nvs_key.len() == 5 && schema[5].nvs_key[0] == 'S');
    assert(schema[6].nvs_key.len() == 8 && schema[6].nvs_key[0] == 'T');
    match kind {
        SensorKind::Moisture => {
            assert(schema[7].nvs_key.len() == 6);
            assert(schema[8].nvs_key.len() == 5 && schema[8].nvs_key[0] == 'M');
        },
        SensorKind::WaterLevel => {
            assert(schema[7].nvs_key.len() == 9);
            assert(schema[8].nvs_key.len() == 8 && schema[8].nvs_key[0] == 'W');
        },
    }
}

} // verus!
