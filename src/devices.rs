//! The account's device list: reading it from the service's JSON reply and
//! picking the heating device out of it.
use vstd::prelude::*;
use crate::temperature::parse_tenths;
use crate::temperature::{is_decimal, tenths_of};
use crate::json::{array_len, entry_text, entry_number, entry_bool, opt_text, json_array_len, json_entry_text, json_entry_number, json_entry_bool};

verus! {

/// One device of the account, as far as this client reads it. Temperatures are
/// in tenths of a degree Celsius.
#[derive(Clone, Debug, PartialEq, Eq)]
pub struct Device {
    pub kind: String,
    pub id: Option<String>,
    pub temperature: Option<i64>,
    pub working: Option<bool>,
    pub target: Option<i64>,
}

/// What the status report shows of the heating device.
#[derive(Clone, Debug, PartialEq, Eq)]
pub struct HeatingStatus {
    pub id: String,
    pub temperature: i64,
    pub target: i64,
    pub working: bool,
}

#[derive(Clone, Copy, Debug, PartialEq, Eq, Structural)]
pub enum DeviceError {
    /// The reply is not JSON, not an array, or an entry has no category.
    Malformed,
    /// No entry has the category "heating".
    NotFound,
    /// The heating entry lacks its id, temperature, working flag or target.
    MissingField,
}

/// The category of the heating device.
pub open spec fn heating_kind() -> Seq<char> {
    seq!['h', 'e', 'a', 't', 'i', 'n', 'g']
}

pub open spec fn is_heating(d: Device) -> bool {
    d.kind@ == heating_kind()
}

/// Whether some device of the list is the heating device.
pub open spec fn has_heating(ds: Seq<Device>) -> bool {
    exists|i: int| 0 <= i < ds.len() && is_heating(#[trigger] ds[i])
}

/// `i` is the first heating device of the list.
pub open spec fn first_heating(ds: Seq<Device>, i: int) -> bool {
    &&& 0 <= i < ds.len()
    &&& is_heating(ds[i])
    &&& forall|j: int| 0 <= j < i ==> !is_heating(#[trigger] ds[j])
}

/// The position of the first heating device; `NotFound` where there is none.
pub fn find_heating_device(devices: &Vec<Device>) -> (r: Result<usize, DeviceError>)
    ensures
        r is Ok <==> has_heating(devices@),
        r matches Ok(i) ==> first_heating(devices@, i as int),
        r matches Err(e) ==> e == DeviceError::NotFound,
{
    let heating = String::from_str("heating");
    proof {
        reveal_strlit("heating");
    }
    assert(heating@ =~= heating_kind());
    let mut i: usize = 0;
    while i < devices.len()
        invariant
            i <= devices@.len(),
            heating@ == heating_kind(),
            forall|j: int| 0 <= j < i ==> !is_heating(#[trigger] devices@[j]),
        decreases devices@.len() - i,
    {
        if devices[i].kind == heating {
            return Ok(i);
        }
        i = i + 1;
    }
    Err(DeviceError::NotFound)
}

/// The status of a heating device; `MissingField` where it lacks a field.
pub fn heating_status(d: &Device) -> (r: Result<HeatingStatus, DeviceError>)
    ensures
        r is Ok <==> (d.id is Some && d.temperature is Some && d.working is Some
            && d.target is Some),
        r matches Ok(st) ==> (Some(st.id) == d.id && Some(st.temperature) == d.temperature
            && Some(st.working) == d.working && Some(st.target) == d.target),
        r matches Err(e) ==> e == DeviceError::MissingField,
{
    match (&d.id, d.temperature, d.working, d.target) {
        (Some(id), Some(temperature), Some(working), Some(target)) => Ok(
            HeatingStatus { id: id.clone(), temperature, target, working },
        ),
        _ => Err(DeviceError::MissingField),
    }
}

/// The status of the first heating device of the list.
pub fn select_heating(devices: &Vec<Device>) -> (r: Result<HeatingStatus, DeviceError>)
    ensures
        !has_heating(devices@) ==> r == Err::<HeatingStatus, DeviceError>(DeviceError::NotFound),
        has_heating(devices@) ==> exists|i: int|
            first_heating(devices@, i) && {
                let d = #[trigger] devices@[i];
                &&& (r is Ok <==> (d.id is Some && d.temperature is Some && d.working is Some
                    && d.target is Some))
                &&& (r matches Ok(st) ==> (Some(st.id) == d.id && Some(st.temperature)
                    == d.temperature && Some(st.working) == d.working && Some(st.target)
                    == d.target))
                &&& (r matches Err(e) ==> e == DeviceError::MissingField)
            },
{
    match find_heating_device(devices) {
        Ok(i) => heating_status(&devices[i]),
        Err(e) => Err(e),
    }
}

/// The glyph shown after the target while the heating element runs.
pub fn working_indicator(working: bool) -> (r: &'static str)
    ensures
        working ==> r@ == "\u{1F525}"@,
        !working ==> r@ == ""@,
{
    if working {
        "\u{1F525}"
    } else {
        ""
    }
}

/// The tenths that a number's decimal text reads as, where it is decimal text.
pub open spec fn tenths_opt(t: Option<Seq<char>>) -> Option<i64> {
    match t {
        Some(x) => if is_decimal(x) {
            Some(tenths_of(x) as i64)
        } else {
            None
        },
        None => None,
    }
}

/// `d` is what element `i` of the JSON reply `text` says of a device: its
/// `type`, `id`, `props.temperature`, `props.working` and `state.target`.
pub open spec fn entry_matches(d: Device, text: Seq<char>, i: nat) -> bool {
    &&& json_entry_text(text, i, "type"@) == Some(d.kind@)
    &&& opt_text(d.id) == json_entry_text(text, i, "id"@)
    &&& d.temperature == tenths_opt(json_entry_number(text, i, "props"@, "temperature"@))
    &&& d.working == json_entry_bool(text, i, "props"@, "working"@)
    &&& d.target == tenths_opt(json_entry_number(text, i, "state"@, "target"@))
}

/// The reply is a JSON array whose every element has a string `type`.
pub open spec fn is_device_list(text: Seq<char>) -> bool {
    &&& json_array_len(text) is Some
    &&& forall|i: nat|
        i < json_array_len(text).unwrap() ==> (#[trigger] json_entry_text(text, i, "type"@)) is Some
}

fn tenths_entry(text: &str, i: usize, outer: &str, inner: &str) -> (r: Option<i64>)
    ensures
        r == tenths_opt(json_entry_number(text@, i as nat, outer@, inner@)),
{
    match entry_number(text, i, outer, inner) {
        Some(t) => parse_tenths(t.as_str()),
        None => None,
    }
}

/// Reads the service's device list from its JSON reply, one device per element;
/// `Malformed` where the reply is not an array of elements that each carry a
/// string `type`.
pub fn parse_device_list(text: &str) -> (r: Result<Vec<Device>, DeviceError>)
    ensures
        r is Ok <==> is_device_list(text@),
        r matches Ok(ds) ==> json_array_len(text@) == Some(ds@.len()) && forall|i: int|
            0 <= i < ds@.len() ==> entry_matches(#[trigger] ds@[i], text@, i as nat),
        r matches Err(e) ==> e == DeviceError::Malformed,
{
    let n = match array_len(text) {
        Some(n) => n,
        None => return Err(DeviceError::Malformed),
    };
    let mut out: Vec<Device> = Vec::new();
    let mut i: usize = 0;
    while i < n
        invariant
            i <= n,
            json_array_len(text@) == Some(n as nat),
            out@.len() == i,
            forall|j: int| 0 <= j < i ==> entry_matches(#[trigger] out@[j], text@, j as nat),
        decreases n - i,
    {
        let kind = match entry_text(text, i, "type") {
            Some(k) => k,
            None => return Err(DeviceError::Malformed),
        };
        let id = entry_text(text, i, "id");
        let temperature = tenths_entry(text, i, "props", "temperature");
        let working = entry_bool(text, i, "props", "working");
        let target = tenths_entry(text, i, "state", "target");
        let d = Device { kind, id, temperature, working, target };
        assert(entry_matches(d, text@, i as nat));
        out.push(d);
        i = i + 1;
    }
    proof {
        assert forall|i: nat| i < json_array_len(text@).unwrap() implies (#[trigger] json_entry_text(
            text@,
            i,
            "type"@,
        )) is Some by {
            assert(entry_matches(out@[i as int], text@, i));
        }
    }
    Ok(out)
}

} // verus!
