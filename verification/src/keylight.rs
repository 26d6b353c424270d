//! Wire-level data model of the key light and the typed results of a
//! device interaction.

use vstd::prelude::*;

verus! {

/// A single light as it appears on the wire: power encoded as the
/// integer 0 or 1, brightness in percent, and color temperature in the
/// device's native mired-like unit.
#[derive(Debug, Clone, Copy, PartialEq, Eq, Structural)]
pub struct Light {
    pub on: i32,
    pub brightness: i32,
    pub temperature: i32,
}

impl View for Light {
    type V = (int, int, int);

    open spec fn view(&self) -> (int, int, int) {
        (self.on as int, self.brightness as int, self.temperature as int)
    }
}

impl Light {
    pub fn new(on: bool, brightness: i32, temperature: i32) -> (r: Light)
        ensures
            r.on == (if on { 1i32 } else { 0i32 }),
            r.brightness == brightness,
            r.temperature == temperature,
    {
        Light { on: if on { 1 } else { 0 }, brightness, temperature }
    }
}

/// The wrapper object the device exchanges: a light count and the list
/// of lights (the device always reports exactly one).
#[derive(Debug)]
pub struct Lights {
    pub number_of_lights: i32,
    pub lights: Vec<Light>,
}

impl Lights {
    pub fn new(light: Light) -> (r: Lights)
        ensures
            r.number_of_lights == 1,
            r.lights@ == seq![light],
    {
        let lights: Vec<Light> = vec![light];
        proof {
            assert(lights@ =~= seq![light]);
        }
        Lights { number_of_lights: 1, lights }
    }
}

/// The ways a device interaction can fail. Every one of them is fatal
/// to the session: the caller reports it and exits.
#[derive(Debug, Clone, Copy, PartialEq, Eq, Structural)]
pub enum DeviceError {
    /// The device could not be reached at all (transport failure or timeout).
    ConnectionError,
    /// The device answered with a non-success HTTP status.
    ProtocolError,
    /// The response body does not decode into the expected wire shape.
    DecodeError,
    /// The response decoded correctly but reported zero lights.
    EmptyDeviceListError,
}

/// What a device response means, by HTTP status and body: a non-2xx
/// status is a protocol error; a body outside the wire shape is a
/// decode error; a decoded body with no lights is an empty-list error;
/// otherwise the first reported light.
pub open spec fn spec_device_response(status: int, s: Seq<u8>) -> Result<
    (int, int, int),
    DeviceError,
> {
    if !(200 <= status < 300) {
        Err(DeviceError::ProtocolError)
    } else {
        match crate::codec::spec_decode_lights(s) {
            Some((nol, ls)) => if ls.len() == 0 {
                Err(DeviceError::EmptyDeviceListError)
            } else {
                Ok(ls[0])
            },
            None => Err(DeviceError::DecodeError),
        }
    }
}

/// Round trip at the protocol level: a push payload read back as a
/// successful response yields exactly the pushed state, with power as
/// the integer 1 or 0.
pub proof fn lemma_payload_roundtrip(status: int, on: bool, brightness: int, temperature: int)
    requires
        200 <= status < 300,
        0 <= brightness <= 100,
        143 <= temperature <= 344,
    ensures
        spec_device_response(status, crate::codec::spec_encode_lights(on, brightness, temperature))
            == Ok::<_, DeviceError>(((if on { 1int } else { 0int }), brightness, temperature)),
{
    crate::codec::lemma_encode_decode_roundtrip(on, brightness, temperature);
}

/// Classify a device response and extract the first reported light,
/// exactly as `spec_device_response` describes. Both the startup fetch
/// and the push acknowledgment go through this; the transport itself
/// stays with the caller, who maps a transport failure to
/// `ConnectionError` without ever reaching this function.
pub fn parse_device_response(status: u16, body: &Vec<u8>) -> (r: Result<Light, DeviceError>)
    ensures
        (match r {
            Ok(l) => spec_device_response(status as int, body@) == Ok::<_, DeviceError>(l@),
            Err(e) => spec_device_response(status as int, body@) == Err::<(int, int, int), _>(e),
        }),
{
    if !(200 <= status && status < 300) {
        return Err(DeviceError::ProtocolError);
    }
    match crate::codec::decode_lights(body) {
        Some(lights) => {
            if lights.lights.len() == 0 {
                Err(DeviceError::EmptyDeviceListError)
            } else {
                let l = lights.lights[0];
                proof {
                    let vs = lights.lights@.map_values(|x: Light| x@);
                    assert(vs[0] == lights.lights@[0]@);
                }
                Ok(l)
            }
        },
        None => Err(DeviceError::DecodeError),
    }
}

} // verus!
