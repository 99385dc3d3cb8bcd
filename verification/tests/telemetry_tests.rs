use tello::gram::{decode, encode};
use tello::telemetry::{
    decode_flight_data, dispatch, FlightData, Message, TelemetryError, FLIGHT_DATA_LEN,
    MSG_CONNECT_ACK, MSG_FLIGHT_DATA, MSG_VIDEO_REQUEST,
};

fn sample_payload() -> [u8; 24] {
    let mut payload = [0u8; 24];
    payload[0] = 0x64;
    payload[1] = 0x00;
    payload[12] = 0x4b;
    payload[20] = 0x01;
    payload
}

#[test]
fn flight_data_from_sample_payload() {
    assert_eq!(
        decode_flight_data(&sample_payload()),
        Ok(FlightData { height: 100, battery_percentage: 75, camera_state: 1 })
    );
}

#[test]
fn flight_data_height_is_little_endian() {
    let mut payload = [0u8; 24];
    payload[0] = 0x34;
    payload[1] = 0x12;
    assert_eq!(decode_flight_data(&payload).map(|d| d.height), Ok(0x1234));
    payload[0] = 0xff;
    payload[1] = 0xff;
    assert_eq!(decode_flight_data(&payload).map(|d| d.height), Ok(0xffff));
    payload[0] = 0x00;
    payload[1] = 0x01;
    assert_eq!(decode_flight_data(&payload).map(|d| d.height), Ok(256));
}

#[test]
fn flight_data_reads_only_its_offsets() {
    let mut payload = [0xeeu8; 24];
    payload[0] = 1;
    payload[1] = 0;
    payload[12] = 2;
    payload[20] = 3;
    assert_eq!(
        decode_flight_data(&payload),
        Ok(FlightData { height: 1, battery_percentage: 2, camera_state: 3 })
    );
}

#[test]
fn flight_data_of_wrong_length() {
    assert_eq!(FLIGHT_DATA_LEN, 24);
    assert_eq!(decode_flight_data(&[]), Err(TelemetryError::LengthMismatch));
    assert_eq!(decode_flight_data(&[0u8; 23]), Err(TelemetryError::LengthMismatch));
    assert_eq!(decode_flight_data(&[0u8; 25]), Err(TelemetryError::LengthMismatch));
    assert_eq!(decode_flight_data(&[0u8; 48]), Err(TelemetryError::LengthMismatch));
}

#[test]
fn message_ids() {
    assert_eq!(MSG_CONNECT_ACK, 0x02);
    assert_eq!(MSG_VIDEO_REQUEST, 0x25);
    assert_eq!(MSG_FLIGHT_DATA, 0x56);
}

#[test]
fn dispatch_flight_data() {
    let wire = encode(1, 0x56, 9, &sample_payload());
    let gram = decode(&wire, wire.len()).expect("valid gram");
    assert_eq!(
        dispatch(&gram),
        Ok(Message::FlightData(FlightData { height: 100, battery_percentage: 75, camera_state: 1 }))
    );
}

#[test]
fn dispatch_flight_data_of_wrong_length() {
    let wire = encode(1, 0x56, 9, &[0u8; 23]);
    let gram = decode(&wire, wire.len()).expect("valid gram");
    assert_eq!(dispatch(&gram), Err(TelemetryError::LengthMismatch));
    let wire = encode(1, 0x56, 9, &[]);
    let gram = decode(&wire, wire.len()).expect("valid gram");
    assert_eq!(dispatch(&gram), Err(TelemetryError::LengthMismatch));
}

#[test]
fn dispatch_connect_ack() {
    let wire = encode(2, 0x02, 1, &[]);
    let gram = decode(&wire, wire.len()).expect("valid gram");
    assert_eq!(dispatch(&gram), Ok(Message::ConnectAck));
    // The payload of the echo is not looked at.
    let wire = encode(2, 0x02, 1, &[1, 2, 3]);
    let gram = decode(&wire, wire.len()).expect("valid gram");
    assert_eq!(dispatch(&gram), Ok(Message::ConnectAck));
}

#[test]
fn dispatch_unhandled_id() {
    for id in [0u16, 1, 3, 0x25, 0x55, 0x57, 0x5600, 0xffff] {
        let wire = encode(4, id, 0, &sample_payload());
        let gram = decode(&wire, wire.len()).expect("valid gram");
        assert_eq!(dispatch(&gram), Err(TelemetryError::Unhandled(id)));
    }
}
