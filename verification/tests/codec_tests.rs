use keylight::codec::{decode_lights, encode_lights};
use keylight::keylight::{parse_device_response, DeviceError, Light, Lights};

#[test]
fn encode_produces_exact_wire_shape() {
    let body = encode_lights(true, 50, 200);
    let expected =
        b"{\"numberOfLights\":1,\"lights\":[{\"on\":1,\"brightness\":50,\"temperature\":200}]}"
            .to_vec();
    assert_eq!(body, expected);
}

#[test]
fn encode_power_off_uses_zero() {
    let body = encode_lights(false, 0, 143);
    let expected =
        b"{\"numberOfLights\":1,\"lights\":[{\"on\":0,\"brightness\":0,\"temperature\":143}]}"
            .to_vec();
    assert_eq!(body, expected);
}

#[test]
fn push_payload_round_trips() {
    let body = encode_lights(true, 50, 200);
    let lights = decode_lights(&body).expect("payload must decode");
    assert_eq!(lights.number_of_lights, 1);
    assert_eq!(lights.lights.len(), 1);
    let l = lights.lights[0];
    assert_eq!(l.on, 1);
    assert_eq!(l.brightness, 50);
    assert_eq!(l.temperature, 200);
}

#[test]
fn startup_fetch_scenario_decodes() {
    let body =
        b"{\"numberOfLights\":1,\"lights\":[{\"on\":0,\"brightness\":20,\"temperature\":300}]}"
            .to_vec();
    let light = parse_device_response(200, &body).expect("fetch body must decode");
    assert_eq!(light.on, 0);
    assert_eq!(light.brightness, 20);
    assert_eq!(light.temperature, 300);
}

#[test]
fn http_500_is_a_protocol_error() {
    let body =
        b"{\"numberOfLights\":1,\"lights\":[{\"on\":1,\"brightness\":50,\"temperature\":200}]}"
            .to_vec();
    assert_eq!(
        parse_device_response(500, &body),
        Err(DeviceError::ProtocolError)
    );
    assert_eq!(
        parse_device_response(199, &body),
        Err(DeviceError::ProtocolError)
    );
    assert_eq!(
        parse_device_response(300, &body),
        Err(DeviceError::ProtocolError)
    );
}

#[test]
fn empty_light_list_is_its_own_error() {
    let body = b"{\"numberOfLights\":0,\"lights\":[]}".to_vec();
    assert_eq!(
        parse_device_response(200, &body),
        Err(DeviceError::EmptyDeviceListError)
    );
}

#[test]
fn garbage_body_is_a_decode_error() {
    let body = b"not json at all".to_vec();
    assert_eq!(
        parse_device_response(200, &body),
        Err(DeviceError::DecodeError)
    );
    let empty = Vec::new();
    assert_eq!(
        parse_device_response(200, &empty),
        Err(DeviceError::DecodeError)
    );
}

#[test]
fn first_of_several_lights_is_returned() {
    let body = b"{\"numberOfLights\":2,\"lights\":[{\"on\":1,\"brightness\":12,\"temperature\":150},{\"on\":0,\"brightness\":99,\"temperature\":344}]}"
        .to_vec();
    let lights = decode_lights(&body).expect("two-light body must decode");
    assert_eq!(lights.number_of_lights, 2);
    assert_eq!(lights.lights.len(), 2);
    let first = parse_device_response(204, &body).expect("success status");
    assert_eq!(first.on, 1);
    assert_eq!(first.brightness, 12);
    assert_eq!(first.temperature, 150);
}

#[test]
fn trailing_bytes_are_rejected() {
    let body =
        b"{\"numberOfLights\":1,\"lights\":[{\"on\":1,\"brightness\":50,\"temperature\":200}]} "
            .to_vec();
    assert!(decode_lights(&body).is_none());
}

#[test]
fn wrong_field_order_is_rejected() {
    let body =
        b"{\"lights\":[{\"on\":1,\"brightness\":50,\"temperature\":200}],\"numberOfLights\":1}"
            .to_vec();
    assert!(decode_lights(&body).is_none());
}

#[test]
fn oversized_numbers_are_rejected() {
    let body =
        b"{\"numberOfLights\":1,\"lights\":[{\"on\":1,\"brightness\":10000000,\"temperature\":200}]}"
            .to_vec();
    assert!(decode_lights(&body).is_none());
}

#[test]
fn negative_numbers_are_rejected() {
    let body =
        b"{\"numberOfLights\":1,\"lights\":[{\"on\":1,\"brightness\":-5,\"temperature\":200}]}"
            .to_vec();
    assert!(decode_lights(&body).is_none());
}

#[test]
fn dangling_comma_in_array_is_rejected() {
    let body =
        b"{\"numberOfLights\":1,\"lights\":[{\"on\":1,\"brightness\":5,\"temperature\":200},]}"
            .to_vec();
    assert!(decode_lights(&body).is_none());
}

#[test]
fn light_new_encodes_power_as_integer() {
    let l = Light::new(true, 55, 180);
    assert_eq!(l.on, 1);
    let l = Light::new(false, 55, 180);
    assert_eq!(l.on, 0);
    assert_eq!(l.brightness, 55);
    assert_eq!(l.temperature, 180);
}

#[test]
fn lights_wrapper_holds_one_light() {
    let l = Light::new(true, 55, 180);
    let w = Lights::new(l);
    assert_eq!(w.number_of_lights, 1);
    assert_eq!(w.lights.len(), 1);
    assert_eq!(w.lights[0], l);
}
