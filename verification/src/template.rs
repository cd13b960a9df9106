//! The configuration page: a base template in which tokens are replaced by
//! the stored values.
//!
//! Tokens are replaced one after the other, each in the page that the
//! replacements before it have left. A token that the page does not hold
//! changes nothing.

use vstd::prelude::*;
use crate::configuration::main_configuration::{
    map_nvs_form,
    nvs_form,
    schema_view,
    FormElementView,
    FormTypeView,
    MapFormElement,
    MapFormType,
    SensorKind,
};
use crate::configuration::nvs_configuration::{
    after_store,
    lemma_string_read_back_is_prefix,
    store_outcome,
    stored_string,
    stored_u32,
    stored_u64,
    stored_u8,
    NvsConfiguration,
    PAD_CHAR,
};
use crate::configuration::slots::SlotView;
use crate::float_text::FloatText;
use crate::form::coerce;
use crate::numbers::{
    parse_unsigned,
    decimal,
    decimal_chars,
    hex_chars,
    lower_hex,
    signed_decimal,
    signed_decimal_chars,
};
use crate::text::{append_chars, append_str, from_chars, replace_all, replace_chars, to_chars};

verus! {

/// A network that the radio has found.
#[derive(Debug)]
pub struct AccessPoint {
    pub ssid: String,
    pub signal_strength: i8,
}

/// An [`AccessPoint`] as a mathematical value.
pub struct AccessPointView {
    pub ssid: Seq<char>,
    pub signal_strength: int,
}

impl View for AccessPoint {
    type V = AccessPointView;

    open spec fn view(&self) -> AccessPointView {
        AccessPointView { ssid: self.ssid@, signal_strength: self.signal_strength as int }
    }
}

/// The networks `aps`, as mathematical values.
pub open spec fn access_points_view(aps: Seq<AccessPoint>) -> Seq<AccessPointView> {
    aps.map_values(|ap: AccessPoint| ap@)
}

/// What a scan of the radio gave, as a mathematical value.
pub open spec fn scan_view(aps: Option<Vec<AccessPoint>>) -> Option<Seq<AccessPointView>> {
    match aps {
        Some(list) => Some(access_points_view(list@)),
        None => None,
    }
}

/// The message for the page, as a mathematical value.
pub open spec fn message_view(message: Option<String>) -> Option<Seq<char>> {
    match message {
        Some(m) => Some(m@),
        None => None,
    }
}

/// A token of the page with the text to put in its place.
#[derive(Debug)]
pub struct ContextToken {
    pub token: String,
    pub value: String,
}

/// The tokens `context` with their texts, as mathematical values.
pub open spec fn context_view(context: Seq<ContextToken>) -> Seq<(Seq<char>, Seq<char>)> {
    context.map_values(|c: ContextToken| (c.token@, c.value@))
}

/// The texts `texts`, as mathematical values.
pub open spec fn texts_view(texts: Seq<String>) -> Seq<Seq<char>> {
    texts.map_values(|s: String| s@)
}

/// One network in the list that the page's script reads.
pub open spec fn access_point_text(ap: AccessPointView) -> Seq<char> {
    "{ssid:\""@ + ap.ssid + "\",rssi:"@ + signed_decimal(ap.signal_strength) + "},"@
}

/// The networks `aps` one after the other, each as [`access_point_text`].
pub open spec fn access_points_text(aps: Seq<AccessPointView>) -> Seq<char>
    decreases aps.len(),
{
    if aps.len() == 0 {
        Seq::empty()
    } else {
        access_points_text(aps.drop_last()) + access_point_text(aps.last())
    }
}

/// The list of networks for the page: nothing where no scan was made, else
/// the networks between square brackets.
pub open spec fn access_point_list(aps: Option<Seq<AccessPointView>>) -> Seq<char> {
    match aps {
        None => Seq::empty(),
        Some(list) => "["@ + access_points_text(list) + "]"@,
    }
}

/// The list of networks for the page, as characters.
fn access_point_chars(aps: &Option<Vec<AccessPoint>>) -> (out: Vec<char>)
    ensures
        out@ == access_point_list(scan_view(*aps)),
{
    let mut out: Vec<char> = Vec::new();
    match aps {
        None => {},
        Some(list) => {
            let ghost views = access_points_view(list@);
            append_str(&mut out, "[");
            let mut i: usize = 0;
            assert(views.subrange(0, 0) == Seq::<AccessPointView>::empty());
            while i < list.len()
                invariant
                    i <= list.len(),
                    views == access_points_view(list@),
                    out@ == "["@ + access_points_text(views.subrange(0, i as int)),
                decreases list.len() - i,
            {
                let ghost before = out@;
                append_str(&mut out, "{ssid:\"");
                append_str(&mut out, list[i].ssid.as_str());
                append_str(&mut out, "\",rssi:");
                let rssi = signed_decimal_chars(list[i].signal_strength);
                append_chars(&mut out, &rssi);
                append_str(&mut out, "},");
                proof {
                    let upto = views.subrange(0, i + 1);
                    assert(upto.drop_last() == views.subrange(0, i as int));
                    assert(upto.last() == list@[i as int]@);
                    assert(out@ == before + access_point_text(list@[i as int]@));
                }
                i = i + 1;
            }
            assert(views.subrange(0, list.len() as int) == views);
            append_str(&mut out, "]");
        },
    }
    out
}

/// The list of networks for the page: nothing where no scan was made, else
/// the networks between square brackets.
pub fn accespoint_to_template(aps: Option<Vec<AccessPoint>>) -> (out: String)
    ensures
        out@ == access_point_list(scan_view(aps)),
{
    let chars = access_point_chars(&aps);
    from_chars(&chars)
}

/// The text that the page shows for the field `elem`, given the stored
/// values: a string as it is, a number in base ten, the hex-typed number in
/// lower-case base sixteen. For a float it is `float_text`.
pub open spec fn field_text(
    values: Map<Seq<char>, SlotView>,
    elem: FormElementView,
    float_text: Seq<char>,
) -> Seq<char> {
    match elem.data_type {
        FormTypeView::String(default, _) => stored_string(values, elem.nvs_key, default),
        FormTypeView::Float(_) => float_text,
        FormTypeView::U32Hex(default) => lower_hex(stored_u32(values, elem.nvs_key, default) as nat),
        FormTypeView::Unsigned64(default) => decimal(
            stored_u64(values, elem.nvs_key, default) as nat,
        ),
        FormTypeView::Unsigned8(default) => decimal(stored_u8(values, elem.nvs_key, default) as nat),
    }
}

/// `page` with the token of the field `elem` replaced by the field's text;
/// `page` itself where the field has no token.
pub open spec fn with_field(
    page: Seq<char>,
    values: Map<Seq<char>, SlotView>,
    elem: FormElementView,
    float_text: Seq<char>,
) -> Seq<char> {
    match elem.template_id {
        Some(token) => replace_all(page, token, field_text(values, elem, float_text)),
        None => page,
    }
}

/// The decimal text of the float field at the place `i`; empty where
/// `float_texts` has no such place.
pub open spec fn text_at(float_texts: Seq<Seq<char>>, i: int) -> Seq<char> {
    if 0 <= i < float_texts.len() {
        float_texts[i]
    } else {
        Seq::empty()
    }
}

/// `page` with the tokens of the first `k` fields of `schema` replaced, from
/// the first field on.
pub open spec fn with_fields_upto(
    page: Seq<char>,
    values: Map<Seq<char>, SlotView>,
    schema: Seq<FormElementView>,
    float_texts: Seq<Seq<char>>,
    k: nat,
) -> Seq<char>
    decreases k,
{
    if k == 0 {
        page
    } else {
        let before = with_fields_upto(page, values, schema, float_texts, (k - 1) as nat);
        if k > schema.len() {
            before
        } else {
            with_field(before, values, schema[k - 1], text_at(float_texts, k - 1))
        }
    }
}

/// `page` with the tokens of the fields of `schema` replaced, from the
/// first field to the last. `float_texts` holds, at the place of each float
/// field, its decimal text.
pub open spec fn with_fields(
    page: Seq<char>,
    values: Map<Seq<char>, SlotView>,
    schema: Seq<FormElementView>,
    float_texts: Seq<Seq<char>>,
) -> Seq<char> {
    with_fields_upto(page, values, schema, float_texts, schema.len())
}

/// `page` with the tokens of `context` replaced, from the first to the last.
pub open spec fn with_context(page: Seq<char>, context: Seq<(Seq<char>, Seq<char>)>) -> Seq<char>
    decreases context.len(),
{
    if context.len() == 0 {
        page
    } else {
        replace_all(with_context(page, context.drop_last()), context.last().0, context.last().1)
    }
}

/// The page: the base template in which are replaced, in this order, the
/// token of the sensor's form, that of the message, that of the list of
/// networks, the tokens that the caller names, and those of the fields.
pub open spec fn page_text(
    base: Seq<char>,
    form_setting: Seq<char>,
    error_message: Option<Seq<char>>,
    aps: Option<Seq<AccessPointView>>,
    context: Seq<(Seq<char>, Seq<char>)>,
    values: Map<Seq<char>, SlotView>,
    schema: Seq<FormElementView>,
    float_texts: Seq<Seq<char>>,
) -> Seq<char> {
    let with_form = replace_all(base, "{FORM_SETTINGS}"@, form_setting);
    let with_message = replace_all(
        with_form,
        "{ERROR_MSG}"@,
        match error_message {
            Some(m) => m,
            None => Seq::empty(),
        },
    );
    let with_networks = replace_all(with_message, "{AP_LIST}"@, access_point_list(aps));
    with_fields(with_context(with_networks, context), values, schema, float_texts)
}

/// Replaces the tokens of `context` in `page`, from the first to the last.
fn substitute_context(page: Vec<char>, context: &Vec<ContextToken>) -> (out: Vec<char>)
    ensures
        out@ == with_context(page@, context_view(context@)),
{
    let ghost views = context_view(context@);
    let ghost start = page@;
    let mut page = page;
    let mut i: usize = 0;
    assert(views.subrange(0, 0) == Seq::<(Seq<char>, Seq<char>)>::empty());
    while i < context.len()
        invariant
            i <= context.len(),
            views == context_view(context@),
            page@ == with_context(start, views.subrange(0, i as int)),
        decreases context.len() - i,
    {
        let token = to_chars(context[i].token.as_str());
        let value = to_chars(context[i].value.as_str());
        proof {
            let upto = views.subrange(0, i + 1);
            assert(upto.drop_last() == views.subrange(0, i as int));
            assert(upto.last() == (context@[i as int].token@, context@[i as int].value@));
        }
        page = replace_chars(&page, &token, &value);
        i = i + 1;
    }
    assert(views.subrange(0, context.len() as int) == views);
    page
}

/// Replaces the tokens of the fields of `schema` in `page`, from the first
/// field to the last, by what `main_config` holds. `float_texts` holds, at
/// the place of each float field, its decimal text.
pub fn substitute_fields(
    page: Vec<char>,
    main_config: &NvsConfiguration,
    schema: &Vec<MapFormElement>,
    float_texts: &Vec<String>,
) -> (out: Vec<char>)
    ensures
        out@ == with_fields(
            page@,
            main_config@,
            schema_view(schema@),
            texts_view(float_texts@),
        ),
{
    let ghost fields = schema_view(schema@);
    let ghost texts = texts_view(float_texts@);
    let ghost start = page@;
    let mut page = page;
    let mut i: usize = 0;
    while i < schema.len()
        invariant
            i <= schema.len(),
            fields == schema_view(schema@),
            fields.len() == schema.len(),
            texts == texts_view(float_texts@),
            page@ == with_fields_upto(start, main_config@, fields, texts, i as nat),
        decreases schema.len() - i,
    {
        let elem = &schema[i];
        assert(fields[i as int] == elem@);
        match elem.template_id {
            None => {},
            Some(token) => {
                let value: Vec<char> = match elem.data_type {
                    MapFormType::String(default, _) => {
                        let text = main_config.read_string(elem.nvs_key, default);
                        to_chars(text.as_str())
                    },
                    MapFormType::Float(_) => {
                        if i < float_texts.len() {
                            to_chars(float_texts[i].as_str())
                        } else {
                            Vec::new()
                        }
                    },
                    MapFormType::U32Hex(default) => hex_chars(
                        main_config.read_u32(elem.nvs_key, default),
                    ),
                    MapFormType::Unsigned64(default) => decimal_chars(
                        main_config.read_u64(elem.nvs_key, default),
                    ),
                    MapFormType::Unsigned8(default) => decimal_chars(
                        main_config.read_u8(elem.nvs_key, default) as u64,
                    ),
                };
                let token_chars = to_chars(token);
                page = replace_chars(&page, &token_chars, &value);
            },
        }
        i = i + 1;
    }
    page
}

/// The decimal text that `floats` writes for each float field of `schema`,
/// given the stored values, at the place of the field; an empty text at the
/// place of each other field.
pub open spec fn printed_texts<F: FloatText>(
    floats: F,
    values: Map<Seq<char>, SlotView>,
    schema: Seq<FormElementView>,
) -> Seq<Seq<char>> {
    Seq::new(
        schema.len(),
        |i: int|
            match schema[i].data_type {
                FormTypeView::Float(default) => floats.printed(
                    stored_u32(values, schema[i].nvs_key, default),
                ),
                _ => Seq::empty(),
            },
    )
}

/// The decimal text of each float field of `schema` as the platform writes
/// it, at the place of the field; an empty text at the place of each other
/// field.
pub fn float_field_texts<F: FloatText>(
    main_config: &NvsConfiguration,
    schema: &Vec<MapFormElement>,
    floats: &F,
) -> (texts: Vec<String>)
    ensures
        texts_view(texts@) == printed_texts(*floats, main_config@, schema_view(schema@)),
{
    let ghost fields = schema_view(schema@);
    let mut texts: Vec<String> = Vec::new();
    let mut i: usize = 0;
    while i < schema.len()
        invariant
            i <= schema.len(),
            texts.len() == i,
            fields == schema_view(schema@),
            forall|j: int|
                0 <= j < i ==> (#[trigger] texts@[j])@ == printed_texts(
                    *floats,
                    main_config@,
                    fields,
                )[j],
        decreases schema.len() - i,
    {
        assert(fields[i as int] == schema@[i as int]@);
        let text = match schema[i].data_type {
            MapFormType::Float(default) => floats.print(
                main_config.read_float(schema[i].nvs_key, default),
            ),
            _ => String::new(),
        };
        texts.push(text);
        i = i + 1;
    }
    assert(texts_view(texts@) =~= printed_texts(*floats, main_config@, fields));
    texts
}

/// The page for the values that `main_config` holds, with the decimal text
/// of each float field taken from `float_texts`.
pub fn render_page(
    main_config: &NvsConfiguration,
    schema: &Vec<MapFormElement>,
    float_texts: &Vec<String>,
    base: &str,
    form_setting: &str,
    error_message: Option<String>,
    aps: Option<Vec<AccessPoint>>,
    context: &Vec<ContextToken>,
) -> (page: String)
    ensures
        page@ == page_text(
            base@,
            form_setting@,
            message_view(error_message),
            scan_view(aps),
            context_view(context@),
            main_config@,
            schema_view(schema@),
            texts_view(float_texts@),
        ),
{
    let template = to_chars(base);
    let form_token = to_chars("{FORM_SETTINGS}");
    let form = to_chars(form_setting);
    let template = replace_chars(&template, &form_token, &form);
    let message_token = to_chars("{ERROR_MSG}");
    let message = match &error_message {
        Some(m) => to_chars(m.as_str()),
        None => Vec::new(),
    };
    let template = replace_chars(&template, &message_token, &message);
    let list_token = to_chars("{AP_LIST}");
    let list = access_point_chars(&aps);
    let template = replace_chars(&template, &list_token, &list);
    let template = substitute_context(template, context);
    let template = substitute_fields(template, main_config, schema, float_texts);
    from_chars(&template)
}

/// The page for the values that `main_config` holds. The decimal text of
/// each float field is what `floats` writes for the stored bit pattern.
pub fn generate_html<F: FloatText>(
    main_config: &NvsConfiguration,
    schema: &Vec<MapFormElement>,
    floats: &F,
    base: &str,
    form_setting: &str,
    error_message: Option<String>,
    aps: Option<Vec<AccessPoint>>,
    context: &Vec<ContextToken>,
) -> (page: String)
    ensures
        page@ == page_text(
            base@,
            form_setting@,
            message_view(error_message),
            scan_view(aps),
            context_view(context@),
            main_config@,
            schema_view(schema@),
            printed_texts(*floats, main_config@, schema_view(schema@)),
        ),
{
    let float_texts = float_field_texts(main_config, schema, floats);
    render_page(
        main_config,
        schema,
        &float_texts,
        base,
        form_setting,
        error_message,
        aps,
        context,
    )
}

/// The templates of the page: the base, and the part of the form that
/// belongs to each kind of sensor.
#[derive(Debug)]
pub struct PageTemplates {
    pub base: String,
    pub form_moisture: String,
    pub form_water_level: String,
}

/// The part of the form that belongs to the sensor `kind`.
pub open spec fn form_of(templates: PageTemplates, kind: SensorKind) -> Seq<char> {
    match kind {
        SensorKind::Moisture => templates.form_moisture@,
        SensorKind::WaterLevel => templates.form_water_level@,
    }
}

/// The configuration page of a node with the sensor `kind`, for the values
/// that `main_config` holds: the page of [`generate_html`] for the schema
/// of the node and the sensor's part of the form.
pub fn to_html<F: FloatText>(
    main_config: &NvsConfiguration,
    kind: SensorKind,
    templates: &PageTemplates,
    floats: &F,
    error_message: Option<String>,
    aps: Option<Vec<AccessPoint>>,
    context: &Vec<ContextToken>,
) -> (page: String)
    ensures
        page@ == page_text(
            templates.base@,
            form_of(*templates, kind),
            message_view(error_message),
            scan_view(aps),
            context_view(context@),
            main_config@,
            nvs_form(kind),
            printed_texts(*floats, main_config@, nvs_form(kind)),
        ),
{
    let schema = map_nvs_form(kind);
    let form_setting = match kind {
        SensorKind::Moisture => templates.form_moisture.as_str(),
        SensorKind::WaterLevel => templates.form_water_level.as_str(),
    };
    assert(schema_view(schema@).len() == schema.len());
    assert(form_setting@ == form_of(*templates, kind));
    let page = generate_html(
        main_config,
        &schema,
        floats,
        templates.base.as_str(),
        form_setting,
        error_message,
        aps,
        context,
    );
    page
}

/// The value of a field without token is never read into the page: the
/// page stays as it is, whatever is stored.
pub proof fn lemma_field_without_token_is_not_shown(
    page: Seq<char>,
    values: Map<Seq<char>, SlotView>,
    elem: FormElementView,
    float_text: Seq<char>,
)
    requires
        elem.template_id is None,
    ensures
        with_field(page, values, elem, float_text) == page,
{
}

/// What the form has stored for a field is what the page puts in the place
/// of the field's token: a string as it was submitted, where it fits its
/// slot and holds neither the sentinel nor a NUL character; a number as
/// the number that was read, in the base in which the form reads it.
pub proof fn lemma_applied_field_is_shown(
    page: Seq<char>,
    values: Map<Seq<char>, SlotView>,
    elem: FormElementView,
    raw: Seq<char>,
    float_text: Seq<char>,
)
    requires
        !(elem.data_type is Float),
        coerce(elem, raw, None) is Some,
        store_outcome(elem.nvs_key, coerce(elem, raw, None)->0) is Ok,
    ensures
        elem.data_type matches FormTypeView::String(_, max) ==> {
            &&& field_text(
                after_store(values, elem.nvs_key, coerce(elem, raw, None)->0),
                elem,
                float_text,
            ).is_prefix_of(raw)
            &&& raw.len() <= max && !raw.contains(PAD_CHAR) ==> field_text(
                after_store(values, elem.nvs_key, coerce(elem, raw, None)->0),
                elem,
                float_text,
            ) == raw
        },
        elem.data_type is U32Hex ==> field_text(
            after_store(values, elem.nvs_key, coerce(elem, raw, None)->0),
            elem,
            float_text,
        ) == lower_hex(parse_unsigned(raw, 16, 0xffff_ffff)->0),
        elem.data_type is Unsigned64 ==> field_text(
            after_store(values, elem.nvs_key, coerce(elem, raw, None)->0),
            elem,
            float_text,
        ) == decimal(parse_unsigned(raw, 10, 0xffff_ffff_ffff_ffff)->0),
        elem.data_type is Unsigned8 ==> field_text(
            after_store(values, elem.nvs_key, coerce(elem, raw, None)->0),
            elem,
            float_text,
        ) == decimal(parse_unsigned(raw, 10, 0xff)->0),
        elem.template_id matches Some(token) ==> with_field(
            page,
            after_store(values, elem.nvs_key, coerce(elem, raw, None)->0),
            elem,
            float_text,
        ) == replace_all(
            page,
            token,
            field_text(
                after_store(values, elem.nvs_key, coerce(elem, raw, None)->0),
                elem,
                float_text,
            ),
        ),
{
    match elem.data_type {
        FormTypeView::String(_, max) => {
            lemma_string_read_back_is_prefix(raw, max);
        },
        _ => {},
    }
}

} // verus!
