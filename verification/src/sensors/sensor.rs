//! What every sensor can do, and the report that the sensors make
//! together.
//!
//! A sensor adds its members to the report and describes itself in a line
//! of text. Which sensors a node has is decided when it is put together;
//! the report asks each of them in turn.

use serde_json::Value;
use vstd::pervasive::arbitrary;
use vstd::prelude::*;
use crate::numbers::decimal;
use crate::template::texts_view;
use crate::text::{append_str, from_chars};

verus! {

/// A value of JSON, of the crate `serde_json`.
#[verifier::external_type_specification]
#[verifier::external_body]
pub struct ExJsonValue(Value);

/// An object of JSON, of the crate `serde_json`.
#[verifier::external_type_specification]
#[verifier::external_body]
#[verifier::reject_recursive_types(K)]
#[verifier::reject_recursive_types(V)]
pub struct ExJsonMap<K, V>(serde_json::Map<K, V>);

/// An object of JSON whose members have strings for names.
pub type JsonObject = serde_json::Map<String, Value>;

/// What an object holds: under the name of each member, the text of the
/// member's value in compact JSON.
pub uninterp spec fn json_members(object: JsonObject) -> Map<Seq<char>, Seq<char>>;

/// The text of a string in JSON, as `serde_json` writes it: between double
/// quotes, with its escapes.
pub uninterp spec fn json_string(s: Seq<char>) -> Seq<char>;

/// The text of an object in compact JSON, as `serde_json` writes it, given
/// the text of each member's value.
pub uninterp spec fn json_object(members: Map<Seq<char>, Seq<char>>) -> Seq<char>;

/// The members of an object that has none.
pub open spec fn no_members() -> Map<Seq<char>, Seq<char>> {
    Map::empty()
}

/// `Map::new` of `serde_json`: an object without members.
#[verifier::external_body]
fn json_new() -> (made: JsonObject)
    ensures
        json_members(made) == no_members(),
{
    serde_json::Map::new()
}

/// `Map::insert` of `serde_json` with the number `value`, made a value by
/// `Value::from`: the member `name` is added, or replaced where the object
/// has it. The text of an unsigned number is the number in base ten.
#[verifier::external_body]
fn json_insert_number(object: &mut JsonObject, name: &str, value: u32)
    ensures
        json_members(*final(object)) == json_members(*old(object)).insert(
            name@,
            decimal(value as nat),
        ),
{
    object.insert(name.to_string(), Value::from(value));
}

/// `Map::insert` of `serde_json` with the string `value`, made a value by
/// `Value::from`: the member `name` is added, or replaced where the object
/// has it.
#[verifier::external_body]
fn json_insert_string(object: &mut JsonObject, name: &str, value: &str)
    ensures
        json_members(*final(object)) == json_members(*old(object)).insert(
            name@,
            json_string(value@),
        ),
{
    object.insert(name.to_string(), Value::from(value));
}

/// `Value::Object` and `to_string` of `serde_json`: the object in compact
/// JSON. The text depends on the members alone.
#[verifier::external_body]
fn json_text(object: JsonObject) -> (text: String)
    ensures
        text@ == json_object(json_members(object)),
{
    Value::Object(object).to_string()
}

/// What every sensor can do.
pub trait Sensor {
    /// The names of the members that the sensor adds to a report. Nothing is
    /// known of them but that they depend on the sensor alone.
    open spec fn member_names(&self) -> Set<Seq<char>> {
        arbitrary::<spec_fn(&Self) -> Set<Seq<char>>>()(self)
    }

    /// Adds the sensor's members to the report, whether the measurement went
    /// well or not. The report then has the members that it had and those
    /// of the sensor; the members that are not the sensor's are as they
    /// were.
    fn add_json_value(&mut self, map: &mut JsonObject)
        ensures
            final(self).member_names() == old(self).member_names(),
            json_members(*final(map)).dom() == json_members(*old(map)).dom().union(
                old(self).member_names(),
            ),
            forall|k: Seq<char>|
                json_members(*old(map)).contains_key(k) && !old(self).member_names().contains(k)
                    ==> #[trigger] json_members(*final(map))[k] == json_members(*old(map))[k],
    ;

    /// One line of text that describes what the sensor measures now.
    fn pretty_print(&mut self) -> (line: String)
        ensures
            final(self).member_names() == old(self).member_names(),
    ;
}

/// The members that identify the node: its number and its name.
pub open spec fn identity_members(id: u32, name: Seq<char>) -> Map<Seq<char>, Seq<char>> {
    no_members().insert("id"@, decimal(id as nat)).insert("name"@, json_string(name))
}

/// The object that a report begins with: the number and the name of the
/// node.
pub fn identity_object(id: u32, name: &str) -> (object: JsonObject)
    ensures
        json_members(object) == identity_members(id, name@),
{
    let mut object = json_new();
    json_insert_number(&mut object, "id", id);
    json_insert_string(&mut object, "name", name);
    object
}

/// The report `object` as text, in compact JSON.
pub fn payload_text(object: JsonObject) -> (text: String)
    ensures
        text@ == json_object(json_members(object)),
{
    json_text(object)
}

/// The names of the members that the sensors `sensors` add to a report.
pub open spec fn sensor_member_names<S: Sensor>(sensors: Seq<S>) -> Set<Seq<char>> {
    Set::new(
        |k: Seq<char>|
            exists|j: int| 0 <= j < sensors.len() && (#[trigger] sensors[j]).member_names().contains(k),
    )
}

/// Whether `members` are those of a report of the node with the number `id`
/// and the name `name`, made with the sensors `sensors`: the report has the
/// number, the name and the members of every sensor, and no other; the
/// number and the name are the node's, unless a sensor has a member of that
/// name.
pub open spec fn is_report<S: Sensor>(
    members: Map<Seq<char>, Seq<char>>,
    id: u32,
    name: Seq<char>,
    sensors: Seq<S>,
) -> bool {
    &&& members.dom() == identity_members(id, name).dom().union(sensor_member_names(sensors))
    &&& forall|k: Seq<char>|
        identity_members(id, name).contains_key(k) && !sensor_member_names(sensors).contains(k)
            ==> #[trigger] members[k] == identity_members(id, name)[k]
}

/// What a report holds for certain: the member of every sensor, whether its
/// measurement went well or not, and the number and the name of the node
/// where no sensor has a member of that name. Without sensors the report is
/// the number and the name alone.
pub proof fn lemma_report_holds<S: Sensor>(
    members: Map<Seq<char>, Seq<char>>,
    id: u32,
    name: Seq<char>,
    sensors: Seq<S>,
)
    requires
        is_report(members, id, name, sensors),
    ensures
        members.contains_key("id"@),
        members.contains_key("name"@),
        forall|j: int|
            0 <= j < sensors.len() ==> (#[trigger] sensors[j]).member_names().subset_of(
                members.dom(),
            ),
        (forall|j: int| 0 <= j < sensors.len() ==> !(#[trigger] sensors[j]).member_names().contains(
            "id"@,
        )) ==> members["id"@] == decimal(id as nat),
        (forall|j: int| 0 <= j < sensors.len() ==> !(#[trigger] sensors[j]).member_names().contains(
            "name"@,
        )) ==> members["name"@] == json_string(name),
        sensors.len() == 0 ==> members == identity_members(id, name),
{
    reveal_strlit("id");
    reveal_strlit("name");
    let start = identity_members(id, name);
    assert("id"@ != "name"@) by {
        assert("id"@.len() == 2);
        assert("name"@.len() == 4);
    }
    assert(start.contains_key("id"@));
    assert(start.contains_key("name"@));
    assert(start["id"@] == decimal(id as nat));
    assert(start["name"@] == json_string(name));
    assert forall|j: int| 0 <= j < sensors.len() implies (#[trigger] sensors[j]).member_names().subset_of(
        members.dom(),
    ) by {
        assert forall|k: Seq<char>| sensors[j].member_names().contains(k) implies members.dom().contains(
            k,
        ) by {
            assert(sensor_member_names(sensors).contains(k));
        }
    }
    if sensors.len() == 0 {
        assert(sensor_member_names(sensors) =~= Set::<Seq<char>>::empty());
        assert(members =~= start);
    }
}

/// The report of the node: its number and its name, and what each of the
/// sensors adds, the first sensor first. Every sensor is asked once.
pub fn generate_json<S: Sensor>(sensors: &mut Vec<S>, id: u32, name: &str) -> (text: String)
    ensures
        final(sensors).len() == old(sensors).len(),
        forall|j: int|
            0 <= j < old(sensors).len() ==> (#[trigger] final(sensors)@[j]).member_names() == old(
                sensors,
            )@[j].member_names(),
        exists|members: Map<Seq<char>, Seq<char>>|
            is_report(members, id, name@, old(sensors)@) && text@ == #[trigger] json_object(
                members,
            ),
{
    let mut object = identity_object(id, name);
    let ghost start = identity_members(id, name@);
    let ghost asked = old(sensors)@;
    let mut i: usize = 0;
    assert(json_members(object).dom() =~= start.dom().union(
        sensor_member_names(asked.subrange(0, 0)),
    ));
    while i < sensors.len()
        invariant
            i <= sensors.len(),
            sensors.len() == asked.len(),
            asked == old(sensors)@,
            start == identity_members(id, name@),
            forall|j: int|
                0 <= j < asked.len() ==> (#[trigger] sensors@[j]).member_names()
                    == asked[j].member_names(),
            is_report(json_members(object), id, name@, asked.subrange(0, i as int)),
        decreases sensors.len() - i,
    {
        let ghost before = json_members(object);
        let ghost sensors_before = sensors@;
        let ghost names = sensors@[i as int].member_names();
        assert(names == asked[i as int].member_names());
        sensors[i].add_json_value(&mut object);
        proof {
            let after = json_members(object);
            let done = asked.subrange(0, i as int);
            let next = asked.subrange(0, i + 1);
            assert(after.dom() == before.dom().union(names));
            assert forall|k: Seq<char>| sensor_member_names(next).contains(k) == (
            sensor_member_names(done).contains(k) || names.contains(k)) by {
                if sensor_member_names(next).contains(k) {
                    let j = choose|j: int|
                        0 <= j < next.len() && (#[trigger] next[j]).member_names().contains(k);
                    if j < i {
                        assert(done[j] == next[j]);
                    } else {
                        assert(next[j] == asked[i as int]);
                    }
                }
                if sensor_member_names(done).contains(k) {
                    let j = choose|j: int|
                        0 <= j < done.len() && (#[trigger] done[j]).member_names().contains(k);
                    assert(next[j] == done[j]);
                }
                if names.contains(k) {
                    assert(next[i as int] == asked[i as int]);
                    assert(next[i as int].member_names().contains(k));
                }
            }
            assert(after.dom() =~= start.dom().union(sensor_member_names(next)));
            assert forall|k: Seq<char>|
                start.contains_key(k) && !sensor_member_names(next).contains(
                    k,
                ) implies #[trigger] after[k] == start[k] by {
                assert(!names.contains(k));
                assert(!sensor_member_names(done).contains(k));
                assert(before.contains_key(k));
                assert(before[k] == start[k]);
            }
            assert forall|j: int| 0 <= j < asked.len() implies (#[trigger] sensors@[j]).member_names()
                == asked[j].member_names() by {
                if j != i {
                    assert(sensors@[j] == sensors_before[j]);
                }
            }
        }
        i = i + 1;
    }
    assert(asked.subrange(0, asked.len() as int) == asked);
    payload_text(object)
}

/// The lines `lines`, each followed by a line feed.
pub open spec fn joined_lines(lines: Seq<Seq<char>>) -> Seq<char>
    decreases lines.len(),
{
    if lines.len() == 0 {
        Seq::empty()
    } else {
        joined_lines(lines.drop_last()) + lines.last() + "\n"@
    }
}

/// The lines `lines`, each followed by a line feed.
pub fn join_lines(lines: &Vec<String>) -> (text: String)
    ensures
        text@ == joined_lines(texts_view(lines@)),
{
    let ghost all = texts_view(lines@);
    let mut out: Vec<char> = Vec::new();
    let mut i: usize = 0;
    assert(all.subrange(0, 0) == Seq::<Seq<char>>::empty());
    while i < lines.len()
        invariant
            i <= lines.len(),
            all == texts_view(lines@),
            out@ == joined_lines(all.subrange(0, i as int)),
        decreases lines.len() - i,
    {
        proof {
            let upto = all.subrange(0, i + 1);
            assert(upto.drop_last() == all.subrange(0, i as int));
            assert(upto.last() == lines@[i as int]@);
        }
        append_str(&mut out, lines[i].as_str());
        append_str(&mut out, "\n");
        i = i + 1;
    }
    assert(all.subrange(0, lines.len() as int) == all);
    from_chars(&out)
}

/// What the sensors measure now, a line for each, the first sensor first.
pub fn generate_html_value<S: Sensor>(sensors: &mut Vec<S>) -> (text: String)
    ensures
        final(sensors).len() == old(sensors).len(),
        forall|j: int|
            0 <= j < old(sensors).len() ==> (#[trigger] final(sensors)@[j]).member_names() == old(
                sensors,
            )@[j].member_names(),
        exists|lines: Seq<Seq<char>>|
            lines.len() == old(sensors).len() && text@ == #[trigger] joined_lines(lines),
{
    let mut lines: Vec<String> = Vec::new();
    let mut i: usize = 0;
    while i < sensors.len()
        invariant
            i <= sensors.len(),
            sensors.len() == old(sensors).len(),
            lines.len() == i,
            forall|j: int|
                0 <= j < sensors.len() ==> (#[trigger] sensors@[j]).member_names() == old(
                    sensors,
                )@[j].member_names(),
        decreases sensors.len() - i,
    {
        let ghost sensors_before = sensors@;
        let line = sensors[i].pretty_print();
        assert forall|j: int| 0 <= j < sensors.len() implies (#[trigger] sensors@[j]).member_names()
            == old(sensors)@[j].member_names() by {
            if j != i {
                assert(sensors@[j] == sensors_before[j]);
            }
        }
        lines.push(line);
        i = i + 1;
    }
    let text = join_lines(&lines);
    assert(texts_view(lines@).len() == old(sensors).len());
    text
}

} // verus!
