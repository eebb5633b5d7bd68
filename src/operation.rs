//! The one operation a run performs once its session has a working token.
use vstd::prelude::*;
use crate::config::Command;
use crate::devices::{Device, DeviceError, find_heating_device, heating_status, has_heating, first_heating};
use crate::report::{temperature_report, target_report, temperature_line, target_line};
use crate::requests::{target_url, target_body, target_url_text, target_body_text};

verus! {

/// What the driver must do for the requested command.
#[derive(Clone, Debug, PartialEq, Eq)]
pub enum Operation {
    /// Print these two lines; nothing is sent.
    ShowStatus { temperature: String, target: String },
    /// Send this body to this address, once; nothing is printed.
    PostTarget { url: String, body: String },
}

/// The operation for a command on the first heating device of the list:
/// `NotFound` where the list has none, and then nothing is sent.
pub fn plan_operation(cmd: &Command, devices: &Vec<Device>) -> (r: Result<Operation, DeviceError>)
    ensures
        !has_heating(devices@) ==> r == Err::<Operation, DeviceError>(DeviceError::NotFound),
        has_heating(devices@) ==> exists|i: int|
            first_heating(devices@, i) && {
                let d = #[trigger] devices@[i];
                match cmd {
                    Command::Status => {
                        &&& (r is Ok <==> (d.id is Some && d.temperature is Some && d.working is Some
                            && d.target is Some))
                        &&& (r matches Ok(Operation::ShowStatus { temperature, target }) && {
                            &&& temperature@ == temperature_line(d.temperature.unwrap() as int)
                            &&& target@ == target_line(d.target.unwrap() as int, d.working.unwrap())
                        } || r is Err)
                        &&& (r matches Err(e) ==> e == DeviceError::MissingField)
                    },
                    Command::SetTarget(t) => {
                        &&& (r is Ok <==> d.id is Some)
                        &&& (r matches Ok(Operation::PostTarget { url, body }) && {
                            &&& url@ == target_url_text(d.id.unwrap()@)
                            &&& body@ == target_body_text(t@)
                        } || r is Err)
                        &&& (r matches Err(e) ==> e == DeviceError::MissingField)
                    },
                }
            },
{
    let i = match find_heating_device(devices) {
        Ok(i) => i,
        Err(e) => return Err(e),
    };
    let d = &devices[i];
    match cmd {
        Command::Status => match heating_status(d) {
            Ok(st) => Ok(
                Operation::ShowStatus {
                    temperature: temperature_report(st.temperature),
                    target: target_report(st.target, st.working),
                },
            ),
            Err(e) => Err(e),
        },
        Command::SetTarget(t) => match &d.id {
            Some(id) => Ok(
                Operation::PostTarget {
                    url: target_url(id.as_str()),
                    body: target_body(t.as_str()),
                },
            ),
            None => Err(DeviceError::MissingField),
        },
    }
}

} // verus!
