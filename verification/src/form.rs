//! The submitted form: which fields it names, what each value is read as,
//! and what is written to the store.
//!
//! The fields are taken in the order of the schema. A field that the form
//! does not name is left as it is. The first value that cannot be read as
//! its field's type, or cannot be stored, ends the work: what was written
//! before stays written.

use url_encoded_data::UrlEncodedData;
use vstd::prelude::*;
use crate::configuration::main_configuration::{
    schema_view,
    FormElementView,
    FormTypeView,
    MapFormElement,
    MapFormType,
};
use crate::configuration::nvs_configuration::{
    after_store,
    fixed_width,
    store_outcome,
    store_steps,
    trunc_pad_string,
    NvsConfiguration,
    StorageOpView,
    PAD_CHAR,
};
use crate::configuration::slots::{Slot, SlotView};
use crate::float_text::FloatText;
use crate::numbers::{parse_text, parse_unsigned};
use crate::string_error::StorageError;
use crate::text::{append_str, from_chars, same_text};

verus! {

/// The longest body that is read, in bytes, is one less than this.
pub const MAX_BODY_LENGTH: u64 = 256;

/// Why a submitted form was not applied in full.
#[derive(Debug, Clone, Copy, PartialEq, Eq, Structural)]
pub enum ApplyError {
    /// The value of the field at this place of the schema is not of the
    /// field's type.
    Parse { field: usize },
    /// The value of the field at this place of the schema could not be
    /// stored.
    Storage { field: usize, cause: StorageError },
}

/// What a value submitted for the field `elem` is stored as, if it can be
/// read as the field's type: a string at the width of its slot, a number
/// read in base ten, the hex-typed number read in base sixteen. For a float
/// it is `float_bits`, what the platform read.
pub open spec fn coerce(elem: FormElementView, raw: Seq<char>, float_bits: Option<u32>) -> Option<
    SlotView,
> {
    match elem.data_type {
        FormTypeView::String(_, max) => Some(SlotView::Text(fixed_width(raw, max, PAD_CHAR))),
        FormTypeView::Float(_) => match float_bits {
            Some(bits) => Some(SlotView::U32(bits)),
            None => None,
        },
        FormTypeView::U32Hex(_) => match parse_unsigned(raw, 16, 0xffff_ffff) {
            Some(v) => Some(SlotView::U32(v as u32)),
            None => None,
        },
        FormTypeView::Unsigned64(_) => match parse_unsigned(raw, 10, 0xffff_ffff_ffff_ffff) {
            Some(v) => Some(SlotView::U64(v as u64)),
            None => None,
        },
        FormTypeView::Unsigned8(_) => match parse_unsigned(raw, 10, 0xff) {
            Some(v) => Some(SlotView::U8(v as u8)),
            None => None,
        },
    }
}

/// How far a form has been applied: the stored values, the steps written
/// to the journal, and the failure that ended the work, if one did.
pub struct Applied {
    pub values: Map<Seq<char>, SlotView>,
    pub steps: Seq<StorageOpView>,
    pub failure: Option<ApplyError>,
}

/// The state `before` after the field `elem`, which stands at `index` in the
/// schema, was applied with the submitted value `raw`.
pub open spec fn apply_field(
    before: Applied,
    index: int,
    elem: FormElementView,
    raw: Option<Seq<char>>,
    float_bits: Option<u32>,
) -> Applied {
    match raw {
        None => before,
        Some(text) => match coerce(elem, text, float_bits) {
            None => Applied {
                values: before.values,
                steps: before.steps,
                failure: Some(ApplyError::Parse { field: index as usize }),
            },
            Some(slot) => Applied {
                values: after_store(before.values, elem.nvs_key, slot),
                steps: before.steps + store_steps(elem.nvs_key, slot),
                failure: match store_outcome(elem.nvs_key, slot) {
                    Ok(_) => None,
                    Err(cause) => Some(ApplyError::Storage { field: index as usize, cause }),
                },
            },
        },
    }
}

/// The value submitted for the field at the place `i`, if one was.
pub open spec fn raw_at(raws: Seq<Option<Seq<char>>>, i: int) -> Option<Seq<char>> {
    if 0 <= i < raws.len() {
        raws[i]
    } else {
        None
    }
}

/// The bit pattern that the platform read for the field at the place `i`,
/// if it read one.
pub open spec fn float_at(floats: Seq<Option<u32>>, i: int) -> Option<u32> {
    if 0 <= i < floats.len() {
        floats[i]
    } else {
        None
    }
}

/// The stored values `values` after the first `k` fields of `schema` were
/// applied in order, up to the first failure.
pub open spec fn applied_upto(
    values: Map<Seq<char>, SlotView>,
    schema: Seq<FormElementView>,
    raws: Seq<Option<Seq<char>>>,
    floats: Seq<Option<u32>>,
    k: nat,
) -> Applied
    decreases k,
{
    if k == 0 {
        Applied { values, steps: Seq::empty(), failure: None }
    } else {
        let before = applied_upto(values, schema, raws, floats, (k - 1) as nat);
        if before.failure is Some || k > schema.len() {
            before
        } else {
            apply_field(before, k - 1, schema[k - 1], raw_at(raws, k - 1), float_at(floats, k - 1))
        }
    }
}

/// The stored values `values` after the fields of `schema` were applied in
/// order, up to the first failure. `raws` holds, at the place of each field,
/// the value submitted for it, if one was; `floats` holds, at the place of
/// each float field, the bit pattern that the platform read from that value,
/// if it read one.
pub open spec fn applied(
    values: Map<Seq<char>, SlotView>,
    schema: Seq<FormElementView>,
    raws: Seq<Option<Seq<char>>>,
    floats: Seq<Option<u32>>,
) -> Applied {
    applied_upto(values, schema, raws, floats, schema.len())
}

/// The submitted values `raws`, as mathematical values.
pub open spec fn raws_view(raws: Seq<Option<String>>) -> Seq<Option<Seq<char>>> {
    raws.map_values(
        |raw: Option<String>|
            match raw {
                Some(text) => Some(text@),
                None => None,
            },
    )
}

/// Once a failure has ended the work, the fields that follow change
/// nothing.
pub proof fn lemma_failure_ends_the_work(
    values: Map<Seq<char>, SlotView>,
    schema: Seq<FormElementView>,
    raws: Seq<Option<Seq<char>>>,
    floats: Seq<Option<u32>>,
    k: nat,
    n: nat,
)
    requires
        k <= n,
        applied_upto(values, schema, raws, floats, k).failure is Some,
    ensures
        applied_upto(values, schema, raws, floats, n) == applied_upto(
            values,
            schema,
            raws,
            floats,
            k,
        ),
    decreases n,
{
    if k < n {
        lemma_failure_ends_the_work(values, schema, raws, floats, k, (n - 1) as nat);
    }
}

/// A form that names no field of the schema changes nothing and does not
/// fail.
pub proof fn lemma_unnamed_fields_stay(
    values: Map<Seq<char>, SlotView>,
    schema: Seq<FormElementView>,
    raws: Seq<Option<Seq<char>>>,
    floats: Seq<Option<u32>>,
    k: nat,
)
    requires
        forall|i: int| 0 <= i < schema.len() ==> raw_at(raws, i) is None,
    ensures
        applied_upto(values, schema, raws, floats, k) == (Applied {
            values,
            steps: Seq::empty(),
            failure: None,
        }),
    decreases k,
{
    if k > 0 {
        lemma_unnamed_fields_stay(values, schema, raws, floats, (k - 1) as nat);
    }
}

/// Applies the submitted values `raws` to the fields of `schema`, in order,
/// up to the first failure. `raws` holds, at the place of each field, the
/// value submitted for it, if one was; `floats` holds, at the place of each
/// float field, the bit pattern that the platform read from that value, if
/// it read one.
pub fn apply_values(
    main_config: &mut NvsConfiguration,
    schema: &Vec<MapFormElement>,
    raws: &Vec<Option<String>>,
    floats: &Vec<Option<u32>>,
) -> (done: Result<(), ApplyError>)
    ensures
        final(main_config)@ == applied(
            old(main_config)@,
            schema_view(schema@),
            raws_view(raws@),
            floats@,
        ).values,
        final(main_config).journal() == old(main_config).journal() + applied(
            old(main_config)@,
            schema_view(schema@),
            raws_view(raws@),
            floats@,
        ).steps,
        done == match applied(
            old(main_config)@,
            schema_view(schema@),
            raws_view(raws@),
            floats@,
        ).failure {
            None => Ok::<(), ApplyError>(()),
            Some(e) => Err(e),
        },
{
    let ghost start = main_config@;
    let ghost start_journal = main_config.journal();
    let ghost fields = schema_view(schema@);
    let ghost texts = raws_view(raws@);
    let mut i: usize = 0;
    assert(start_journal + Seq::<StorageOpView>::empty() =~= start_journal);
    while i < schema.len()
        invariant
            i <= schema.len(),
            fields == schema_view(schema@),
            fields.len() == schema.len(),
            texts == raws_view(raws@),
            start == old(main_config)@,
            start_journal == old(main_config).journal(),
            applied_upto(start, fields, texts, floats@, i as nat).failure is None,
            main_config@ == applied_upto(start, fields, texts, floats@, i as nat).values,
            main_config.journal() == start_journal + applied_upto(
                start,
                fields,
                texts,
                floats@,
                i as nat,
            ).steps,
        decreases schema.len() - i,
    {
        let elem = &schema[i];
        let ghost before = applied_upto(start, fields, texts, floats@, i as nat);
        let ghost after = applied_upto(start, fields, texts, floats@, (i + 1) as nat);
        assert(fields[i as int] == elem@);
        assert(after == apply_field(
            before,
            i as int,
            elem@,
            raw_at(texts, i as int),
            float_at(floats@, i as int),
        ));
        let raw: Option<&String> = if i < raws.len() {
            raws[i].as_ref()
        } else {
            None
        };
        let float_bits: Option<u32> = if i < floats.len() {
            floats[i]
        } else {
            None
        };
        match raw {
            None => {},
            Some(text) => {
                assert(raw_at(texts, i as int) == Some(text@));
                let stored: Option<Result<(), StorageError>> = match elem.data_type {
                    MapFormType::String(_, max) => Some(
                        main_config.store_string(elem.nvs_key, text.as_str(), max),
                    ),
                    MapFormType::Float(_) => match float_bits {
                        Some(bits) => Some(main_config.store_float(elem.nvs_key, bits)),
                        None => None,
                    },
                    MapFormType::U32Hex(_) => match parse_text(text.as_str(), 16, 0xffff_ffff) {
                        Some(v) => Some(main_config.store_u32(elem.nvs_key, v as u32)),
                        None => None,
                    },
                    MapFormType::Unsigned64(_) => match parse_text(
                        text.as_str(),
                        10,
                        0xffff_ffff_ffff_ffff,
                    ) {
                        Some(v) => Some(main_config.store_u64(elem.nvs_key, v)),
                        None => None,
                    },
                    MapFormType::Unsigned8(_) => match parse_text(text.as_str(), 10, 0xff) {
                        Some(v) => Some(main_config.store_u8(elem.nvs_key, v as u8)),
                        None => None,
                    },
                };
                assert(main_config@ == after.values);
                assert(main_config.journal() =~= start_journal + after.steps);
                match stored {
                    None => {
                        proof {
                            lemma_failure_ends_the_work(
                                start,
                                fields,
                                texts,
                                floats@,
                                (i + 1) as nat,
                                schema.len() as nat,
                            );
                        }
                        return Err(ApplyError::Parse { field: i });
                    },
                    Some(Err(cause)) => {
                        proof {
                            lemma_failure_ends_the_work(
                                start,
                                fields,
                                texts,
                                floats@,
                                (i + 1) as nat,
                                schema.len() as nat,
                            );
                        }
                        return Err(ApplyError::Storage { field: i, cause });
                    },
                    Some(Ok(_)) => {},
                }
            },
        }
        i = i + 1;
    }
    Ok(())
}

/// Whether `after`, `after_journal` and `done` are what applying the
/// submitted values `raws` leaves of `before` and `before_journal`, with the
/// floats read as `bits`.
pub open spec fn is_applied(
    before: Map<Seq<char>, SlotView>,
    before_journal: Seq<StorageOpView>,
    after: Map<Seq<char>, SlotView>,
    after_journal: Seq<StorageOpView>,
    done: Result<(), ApplyError>,
    schema: Seq<FormElementView>,
    raws: Seq<Option<Seq<char>>>,
    bits: Seq<Option<u32>>,
) -> bool {
    let end = applied(before, schema, raws, bits);
    &&& after == end.values
    &&& after_journal == before_journal + end.steps
    &&& done == match end.failure {
        None => Ok::<(), ApplyError>(()),
        Some(e) => Err(e),
    }
}

/// The pairs `pairs` of a name and a value, as mathematical values.
pub open spec fn pairs_view(pairs: Seq<(String, String)>) -> Seq<(Seq<char>, Seq<char>)> {
    pairs.map_values(|pair: (String, String)| (pair.0@, pair.1@))
}

/// The value of the first of `pairs` that has the name `name`, if one has.
pub open spec fn first_value(pairs: Seq<(Seq<char>, Seq<char>)>, name: Seq<char>) -> Option<
    Seq<char>,
>
    decreases pairs.len(),
{
    if pairs.len() == 0 {
        None
    } else if pairs[0].0 == name {
        Some(pairs[0].1)
    } else {
        first_value(pairs.skip(1), name)
    }
}

/// For each field of `schema`, the value that `pairs` submits for it: that
/// of the first pair with the field's form name.
pub open spec fn submitted(
    pairs: Seq<(Seq<char>, Seq<char>)>,
    schema: Seq<FormElementView>,
) -> Seq<Option<Seq<char>>> {
    Seq::new(schema.len(), |i: int| first_value(pairs, schema[i].form_name))
}

/// Where no pair has the name `name`, no value is submitted under it.
pub proof fn lemma_first_value_of_unknown_name(pairs: Seq<(Seq<char>, Seq<char>)>, name: Seq<char>)
    requires
        forall|j: int| 0 <= j < pairs.len() ==> (#[trigger] pairs[j]).0 != name,
    ensures
        first_value(pairs, name) is None,
    decreases pairs.len(),
{
    if pairs.len() > 0 {
        assert forall|j: int| 0 <= j < pairs.skip(1).len() implies (#[trigger] pairs.skip(
            1,
        )[j]).0 != name by {
            assert(pairs.skip(1)[j] == pairs[j + 1]);
        }
        lemma_first_value_of_unknown_name(pairs.skip(1), name);
    }
}

/// The value of the first of `pairs` that has the name `name`, if one has.
fn find_value(pairs: &Vec<(String, String)>, name: &str) -> (value: Option<String>)
    ensures
        match value {
            Some(v) => first_value(pairs_view(pairs@), name@) == Some(v@),
            None => first_value(pairs_view(pairs@), name@) is None,
        },
{
    let ghost all = pairs_view(pairs@);
    let mut i: usize = 0;
    assert(all.skip(0) == all);
    while i < pairs.len()
        invariant
            i <= pairs.len(),
            all == pairs_view(pairs@),
            first_value(all, name@) == first_value(all.skip(i as int), name@),
        decreases pairs.len() - i,
    {
        let ghost rest = all.skip(i as int);
        assert(rest[0] == (pairs@[i as int].0@, pairs@[i as int].1@));
        assert(rest.skip(1) == all.skip(i + 1));
        if same_text(pairs[i].0.as_str(), name) {
            return Some(pairs[i].1.clone());
        }
        i = i + 1;
    }
    None
}

/// For each field of `schema`, the value that `pairs` submits for it.
pub fn submitted_values(schema: &Vec<MapFormElement>, pairs: &Vec<(String, String)>) -> (raws:
    Vec<Option<String>>)
    ensures
        raws_view(raws@) == submitted(pairs_view(pairs@), schema_view(schema@)),
{
    let mut raws: Vec<Option<String>> = Vec::new();
    let mut i: usize = 0;
    while i < schema.len()
        invariant
            i <= schema.len(),
            raws.len() == i,
            forall|j: int|
                0 <= j < i ==> (#[trigger] raws_view(raws@)[j]) == first_value(
                    pairs_view(pairs@),
                    schema@[j].form_name@,
                ),
        decreases schema.len() - i,
    {
        let value = find_value(pairs, schema[i].form_name);
        let ghost before = raws@;
        raws.push(value);
        assert forall|j: int| 0 <= j < i + 1 implies (#[trigger] raws_view(raws@)[j])
            == first_value(pairs_view(pairs@), schema@[j].form_name@) by {
            if j < i {
                assert(raws@[j] == before[j]);
                assert(raws_view(before)[j] == first_value(
                    pairs_view(pairs@),
                    schema@[j].form_name@,
                ));
            }
        }
        i = i + 1;
    }
    assert(raws_view(raws@) =~= submitted(pairs_view(pairs@), schema_view(schema@)));
    raws
}

/// For each float field of `schema` with a submitted value among `raws`,
/// what `floats` reads from that value; nothing at the place of each other
/// field.
pub open spec fn scanned_bits<F: FloatText>(
    floats: F,
    schema: Seq<FormElementView>,
    raws: Seq<Option<Seq<char>>>,
) -> Seq<Option<u32>> {
    Seq::new(
        schema.len(),
        |i: int|
            if schema[i].data_type is Float && raw_at(raws, i) is Some {
                floats.scanned(raw_at(raws, i).unwrap())
            } else {
                None
            },
    )
}

/// For each float field of `schema` with a submitted value, what the
/// platform reads from that value; nothing at the place of each other
/// field.
pub fn scan_floats<F: FloatText>(
    schema: &Vec<MapFormElement>,
    raws: &Vec<Option<String>>,
    floats: &F,
) -> (bits: Vec<Option<u32>>)
    ensures
        bits@ == scanned_bits(*floats, schema_view(schema@), raws_view(raws@)),
{
    let ghost fields = schema_view(schema@);
    let ghost texts = raws_view(raws@);
    let mut bits: Vec<Option<u32>> = Vec::new();
    let mut i: usize = 0;
    while i < schema.len()
        invariant
            i <= schema.len(),
            bits.len() == i,
            fields == schema_view(schema@),
            texts == raws_view(raws@),
            forall|j: int|
                0 <= j < i ==> (#[trigger] bits@[j]) == scanned_bits(*floats, fields, texts)[j],
        decreases schema.len() - i,
    {
        let raw: Option<&String> = if i < raws.len() {
            raws[i].as_ref()
        } else {
            None
        };
        assert(fields[i as int] == schema@[i as int]@);
        let read = match (&schema[i].data_type, raw) {
            (MapFormType::Float(_), Some(text)) => {
                assert(raw_at(texts, i as int) == Some(text@));
                floats.scan(text.as_str())
            },
            _ => None,
        };
        bits.push(read);
        i = i + 1;
    }
    assert(bits@ =~= scanned_bits(*floats, fields, texts));
    bits
}

/// Writes to the store what `pairs` submits for the fields of `schema`, in
/// the order of the schema and up to the first failure. A pair whose name
/// is that of no field is passed over. The value of a float field is read
/// by `floats`.
pub fn apply<F: FloatText>(
    main_config: &mut NvsConfiguration,
    schema: &Vec<MapFormElement>,
    floats: &F,
    pairs: &Vec<(String, String)>,
) -> (done: Result<(), ApplyError>)
    ensures
        is_applied(
            old(main_config)@,
            old(main_config).journal(),
            final(main_config)@,
            final(main_config).journal(),
            done,
            schema_view(schema@),
            submitted(pairs_view(pairs@), schema_view(schema@)),
            scanned_bits(
                *floats,
                schema_view(schema@),
                submitted(pairs_view(pairs@), schema_view(schema@)),
            ),
        ),
        (forall|i: int, j: int|
            0 <= i < schema.len() && 0 <= j < pairs.len() ==> (#[trigger] pairs@[j]).0@
                != (#[trigger] schema@[i]).form_name@) ==> done is Ok && final(main_config)@ == old(
            main_config,
        )@ && final(main_config).journal() == old(main_config).journal(),
{
    let raws = submitted_values(schema, pairs);
    let bits = scan_floats(schema, &raws, floats);
    let done = apply_values(main_config, schema, &raws, &bits);
    proof {
        let fields = schema_view(schema@);
        let names = pairs_view(pairs@);
        assert(is_applied(
            old(main_config)@,
            old(main_config).journal(),
            main_config@,
            main_config.journal(),
            done,
            fields,
            submitted(names, fields),
            bits@,
        ));
        if forall|i: int, j: int|
            0 <= i < schema.len() && 0 <= j < pairs.len() ==> (#[trigger] pairs@[j]).0@
                != (#[trigger] schema@[i]).form_name@ {
            assert forall|i: int| 0 <= i < fields.len() implies raw_at(
                submitted(names, fields),
                i,
            ) is None by {
                assert forall|j: int| 0 <= j < names.len() implies (#[trigger] names[j]).0
                    != fields[i].form_name by {
                    assert(pairs@[j].0@ != schema@[i].form_name@);
                }
                lemma_first_value_of_unknown_name(names, fields[i].form_name);
            }
            lemma_unnamed_fields_stay(
                old(main_config)@,
                fields,
                submitted(names, fields),
                bits@,
                fields.len(),
            );
            assert(old(main_config).journal() + Seq::<StorageOpView>::empty() =~= old(
                main_config,
            ).journal());
        }
    }
    done
}

/// A body in the form-urlencoded format, parsed by the crate
/// `url_encoded_data`.
#[verifier::external_type_specification]
#[verifier::external_body]
pub struct ExUrlEncodedData<'a>(UrlEncodedData<'a>);

/// What a parsed body holds: under each name that occurs in it, the value
/// of the first occurrence of that name.
pub uninterp spec fn form_values(data: UrlEncodedData) -> Map<Seq<char>, Seq<char>>;

/// What `UrlEncodedData::parse_str` reads from a body: under each name that
/// occurs in it, the decoded value of the first occurrence of that name.
pub uninterp spec fn parsed_form(body: Seq<char>) -> Map<Seq<char>, Seq<char>>;

/// `UrlEncodedData::parse_str`: parses a body. What the result holds
/// depends on the body alone.
#[verifier::external_body]
fn parse_str<'a>(body: &'a str) -> (data: UrlEncodedData<'a>)
    ensures
        form_values(data) == parsed_form(body@),
{
    UrlEncodedData::parse_str(body)
}

/// `UrlEncodedData::exists`: whether the name occurs in the parsed body.
#[verifier::external_body]
fn form_exists<'a>(data: &'a UrlEncodedData<'a>, name: &str) -> (found: bool)
    ensures
        found == form_values(*data).contains_key(name@),
{
    data.exists(name)
}

/// `UrlEncodedData::get_first`: the value of the first occurrence of the
/// name in the parsed body, if the name occurs.
#[verifier::external_body]
fn form_get_first<'a>(data: &'a UrlEncodedData<'a>, name: &str) -> (value: Option<String>)
    ensures
        value is Some == form_values(*data).contains_key(name@),
        value matches Some(v) ==> v@ == form_values(*data)[name@],
{
    match data.get_first(name) {
        Some(v) => Some(v.to_string()),
        None => None,
    }
}

/// The value under `name` in `values`, if there is one.
pub open spec fn value_under(values: Map<Seq<char>, Seq<char>>, name: Seq<char>) -> Option<
    Seq<char>,
> {
    if values.contains_key(name) {
        Some(values[name])
    } else {
        None
    }
}

/// For each field of `schema`, the value that a parsed body holds for it:
/// that under the field's form name.
pub open spec fn submitted_in(
    values: Map<Seq<char>, Seq<char>>,
    schema: Seq<FormElementView>,
) -> Seq<Option<Seq<char>>> {
    Seq::new(schema.len(), |i: int| value_under(values, schema[i].form_name))
}

/// For each field of `schema`, the value that the form-urlencoded `body`
/// submits for it.
pub fn body_values(schema: &Vec<MapFormElement>, body: &str) -> (raws: Vec<Option<String>>)
    ensures
        raws_view(raws@) == submitted_in(parsed_form(body@), schema_view(schema@)),
{
    let data = parse_str(body);
    let ghost values = parsed_form(body@);
    let mut raws: Vec<Option<String>> = Vec::new();
    let mut i: usize = 0;
    while i < schema.len()
        invariant
            i <= schema.len(),
            raws.len() == i,
            form_values(data) == values,
            forall|j: int|
                0 <= j < i ==> (#[trigger] raws_view(raws@)[j]) == value_under(
                    values,
                    schema@[j].form_name@,
                ),
        decreases schema.len() - i,
    {
        let value = if form_exists(&data, schema[i].form_name) {
            form_get_first(&data, schema[i].form_name)
        } else {
            None
        };
        let ghost before = raws@;
        raws.push(value);
        assert forall|j: int| 0 <= j < i + 1 implies (#[trigger] raws_view(raws@)[j])
            == value_under(values, schema@[j].form_name@) by {
            if j < i {
                assert(raws@[j] == before[j]);
                assert(raws_view(before)[j] == value_under(values, schema@[j].form_name@));
            }
        }
        i = i + 1;
    }
    assert(raws_view(raws@) =~= submitted_in(values, schema_view(schema@)));
    raws
}

/// Writes to the store what the form-urlencoded `body` submits for the
/// fields of `schema`, in the order of the schema and up to the first
/// failure. A name that is that of no field is passed over. The value of a
/// float field is read by `floats`.
pub fn apply_body<F: FloatText>(
    main_config: &mut NvsConfiguration,
    schema: &Vec<MapFormElement>,
    floats: &F,
    body: &str,
) -> (done: Result<(), ApplyError>)
    ensures
        is_applied(
            old(main_config)@,
            old(main_config).journal(),
            final(main_config)@,
            final(main_config).journal(),
            done,
            schema_view(schema@),
            submitted_in(parsed_form(body@), schema_view(schema@)),
            scanned_bits(
                *floats,
                schema_view(schema@),
                submitted_in(parsed_form(body@), schema_view(schema@)),
            ),
        ),
        (forall|i: int|
            0 <= i < schema.len() ==> !parsed_form(body@).contains_key(
                (#[trigger] schema@[i]).form_name@,
            )) ==> {
            &&& done is Ok
            &&& final(main_config)@ == old(main_config)@
            &&& final(main_config).journal() == old(main_config).journal()
        },
{
    let raws = body_values(schema, body);
    let bits = scan_floats(schema, &raws, floats);
    let done = apply_values(main_config, schema, &raws, &bits);
    proof {
        let fields = schema_view(schema@);
        let texts = submitted_in(parsed_form(body@), fields);
        if forall|i: int|
            0 <= i < schema.len() ==> !parsed_form(body@).contains_key(
                (#[trigger] schema@[i]).form_name@,
            ) {
            assert forall|i: int| 0 <= i < fields.len() implies raw_at(texts, i) is None by {
                assert(!parsed_form(body@).contains_key(schema@[i].form_name@));
            }
            lemma_unnamed_fields_stay(old(main_config)@, fields, texts, bits@, fields.len());
            assert(old(main_config).journal() + Seq::<StorageOpView>::empty() =~= old(
                main_config,
            ).journal());
        }
    }
    assert(is_applied(
        old(main_config)@,
        old(main_config).journal(),
        main_config@,
        main_config.journal(),
        done,
        schema_view(schema@),
        submitted_in(parsed_form(body@), schema_view(schema@)),
        bits@,
    ));
    done
}

/// Why the body of a request is not read.
#[derive(Debug, Clone, Copy, PartialEq, Eq, Structural)]
pub enum LengthError {
    /// The request states no length, or one that is no number, or 0.
    NoBody,
    /// The stated length is 256 bytes or more.
    TooLong,
}

/// The length that the header states: the number that it writes in base
/// ten, 0 where it is missing or writes none.
pub open spec fn stated_length(header: Option<Seq<char>>) -> nat {
    match header {
        Some(text) => match parse_unsigned(text, 10, 0xffff_ffff_ffff_ffff) {
            Some(n) => n,
            None => 0,
        },
        None => 0,
    }
}

/// Decides from the `Content-Length` header of a request whether its body
/// is read, and gives the stated length if it is.
pub fn check_content_length(header: Option<&str>) -> (length: Result<u64, LengthError>)
    ensures
        length == (if stated_length(
            match header {
                Some(h) => Some(h@),
                None => None,
            },
        ) == 0 {
            Err::<u64, LengthError>(LengthError::NoBody)
        } else if stated_length(
            match header {
                Some(h) => Some(h@),
                None => None,
            },
        ) >= MAX_BODY_LENGTH {
            Err(LengthError::TooLong)
        } else {
            Ok(
                stated_length(
                    match header {
                        Some(h) => Some(h@),
                        None => None,
                    },
                ) as u64,
            )
        }),
{
    let stated: u64 = match header {
        Some(text) => match parse_text(text, 10, 0xffff_ffff_ffff_ffff) {
            Some(n) => n,
            None => 0,
        },
        None => 0,
    };
    if stated == 0 {
        Err(LengthError::NoBody)
    } else if stated >= MAX_BODY_LENGTH {
        Err(LengthError::TooLong)
    } else {
        Ok(stated)
    }
}

/// How the handling of a submitted form ended.
#[derive(Debug, Clone, Copy, PartialEq, Eq, Structural)]
pub enum SaveOutcome {
    /// Every submitted value was stored.
    Saved,
    /// The body was not read.
    Refused(LengthError),
    /// The body could not be read, or is no text.
    Unreadable,
    /// A value was not applied.
    Failed(ApplyError),
}

/// The message that the page shows for `outcome`.
pub open spec fn save_message(outcome: SaveOutcome) -> Seq<char> {
    match outcome {
        SaveOutcome::Saved => "Save successfully!"@,
        SaveOutcome::Refused(LengthError::NoBody) => "Save error: No body or no content-length"@,
        SaveOutcome::Refused(LengthError::TooLong) => "Save error: Content-length too long."@,
        SaveOutcome::Unreadable => "Save error: Failed to read request."@,
        SaveOutcome::Failed(ApplyError::Parse { .. }) => "Save error: Invalid value."@,
        SaveOutcome::Failed(ApplyError::Storage { cause, .. }) => "Save error: "@
            + cause.spec_message(),
    }
}

impl SaveOutcome {
    /// The message that the page shows for the outcome once the flash was
    /// brought up to date, with success (`stored`) or without.
    pub fn report(&self, stored: bool) -> (words: String)
        ensures
            words@ == report_message(*self, stored),
    {
        match self {
            SaveOutcome::Saved => {
                if stored {
                    self.message()
                } else {
                    "Save error: Failed to write to the flash.".to_owned()
                }
            },
            _ => self.message(),
        }
    }

    /// The message that the page shows for the outcome.
    pub fn message(&self) -> (words: String)
        ensures
            words@ == save_message(*self),
    {
        match self {
            SaveOutcome::Saved => "Save successfully!".to_owned(),
            SaveOutcome::Refused(LengthError::NoBody) => "Save error: No body or no content-length".to_owned(),
            SaveOutcome::Refused(LengthError::TooLong) => "Save error: Content-length too long.".to_owned(),
            SaveOutcome::Unreadable => "Save error: Failed to read request.".to_owned(),
            SaveOutcome::Failed(ApplyError::Parse { .. }) => "Save error: Invalid value.".to_owned(),
            SaveOutcome::Failed(ApplyError::Storage { cause, .. }) => {
                let mut words: Vec<char> = Vec::new();
                append_str(&mut words, "Save error: ");
                append_str(&mut words, cause.message());
                from_chars(&words)
            },
        }
    }
}

/// The message that the page shows for `outcome` once the flash was brought
/// up to date, with success (`stored`) or without. A form that was saved
/// and then not written to the flash is reported as not written.
pub open spec fn report_message(outcome: SaveOutcome, stored: bool) -> Seq<char> {
    if outcome == SaveOutcome::Saved && !stored {
        "Save error: Failed to write to the flash."@
    } else {
        save_message(outcome)
    }
}

/// The outcome of a submitted form whose body was read, or could not be.
pub open spec fn outcome_of(done: Option<Result<(), ApplyError>>) -> SaveOutcome {
    match done {
        None => SaveOutcome::Unreadable,
        Some(Ok(_)) => SaveOutcome::Saved,
        Some(Err(e)) => SaveOutcome::Failed(e),
    }
}

/// How the work on the form ended, where `outcome` is that of a body that
/// was read.
pub open spec fn applied_result(outcome: SaveOutcome) -> Result<(), ApplyError> {
    match outcome {
        SaveOutcome::Failed(e) => Err(e),
        _ => Ok(()),
    }
}

/// Handles the body of a submitted form: applies it where it could be read,
/// and says how that ended. `body` is `None` where the body could not be
/// read or is no text; the store is then left as it is.
pub fn submit<F: FloatText>(
    main_config: &mut NvsConfiguration,
    schema: &Vec<MapFormElement>,
    floats: &F,
    body: Option<&str>,
) -> (outcome: SaveOutcome)
    ensures
        body is None ==> outcome == SaveOutcome::Unreadable && final(main_config)@ == old(
            main_config,
        )@ && final(main_config).journal() == old(main_config).journal(),
        body matches Some(text) ==> (outcome is Saved || outcome is Failed) && is_applied(
            old(main_config)@,
            old(main_config).journal(),
            final(main_config)@,
            final(main_config).journal(),
            applied_result(outcome),
            schema_view(schema@),
            submitted_in(parsed_form(text@), schema_view(schema@)),
            scanned_bits(
                *floats,
                schema_view(schema@),
                submitted_in(parsed_form(text@), schema_view(schema@)),
            ),
        ),
{
    match body {
        None => SaveOutcome::Unreadable,
        Some(text) => {
            match apply_body(main_config, schema, floats, text) {
                Ok(_) => SaveOutcome::Saved,
                Err(e) => SaveOutcome::Failed(e),
            }
        },
    }
}

} // verus!
