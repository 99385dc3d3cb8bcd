//! Telemetry: what the payload of a decoded gram means, by message id.

use vstd::prelude::*;
use crate::gram::{u16_le, wire_id, wire_payload, TelloGram};

verus! {

/// Message id of the vehicle's echo of a connect request.
pub const MSG_CONNECT_ACK: u16 = 0x02;

/// Message id of the request that keeps the video stream running.
pub const MSG_VIDEO_REQUEST: u16 = 0x25;

/// Message id of flight telemetry.
pub const MSG_FLIGHT_DATA: u16 = 0x56;

/// Length of the payload of flight telemetry.
pub const FLIGHT_DATA_LEN: usize = 24;

/// The vehicle's status as one telemetry payload reports it.
#[derive(Clone, Copy, Debug, PartialEq, Eq, Structural)]
pub struct FlightData {
    pub height: u16,
    pub battery_percentage: u8,
    pub camera_state: u8,
}

/// Why a gram did not yield a telemetry record.
#[derive(Clone, Copy, Debug, PartialEq, Eq, Structural)]
pub enum TelemetryError {
    /// The payload of flight telemetry is not 24 bytes long.
    LengthMismatch,
    /// No decoder is known for this message id. This is no failure: the
    /// caller notes the id and goes on.
    Unhandled(u16),
}

/// What a gram of a known message id says.
#[derive(Clone, Copy, Debug, PartialEq, Eq, Structural)]
pub enum Message {
    /// Flight telemetry.
    FlightData(FlightData),
    /// The vehicle's echo of the connect request.
    ConnectAck,
}

/// The flight data that a payload of 24 bytes holds: the height in bytes 0
/// and 1, low byte first, the battery charge in byte 12, the camera state in
/// byte 20.
pub open spec fn flight_data_of(payload: Seq<u8>) -> FlightData {
    FlightData {
        height: u16_le(payload[0], payload[1]),
        battery_percentage: payload[12],
        camera_state: payload[20],
    }
}

pub open spec fn flight_data_spec(payload: Seq<u8>) -> Result<FlightData, TelemetryError> {
    if payload.len() == FLIGHT_DATA_LEN {
        Ok(flight_data_of(payload))
    } else {
        Err(TelemetryError::LengthMismatch)
    }
}

/// What a gram with message id `id` and the given payload says.
pub open spec fn dispatch_spec(id: u16, payload: Seq<u8>) -> Result<Message, TelemetryError> {
    if id == MSG_CONNECT_ACK {
        Ok(Message::ConnectAck)
    } else if id == MSG_FLIGHT_DATA {
        match flight_data_spec(payload) {
            Ok(data) => Ok(Message::FlightData(data)),
            Err(e) => Err(e),
        }
    } else {
        Err(TelemetryError::Unhandled(id))
    }
}

/// Decodes the payload of flight telemetry. A payload of any length but 24 is
/// refused as a whole.
pub fn decode_flight_data(payload: &[u8]) -> (r: Result<FlightData, TelemetryError>)
    ensures
        r == flight_data_spec(payload@),
{
    if payload.len() != FLIGHT_DATA_LEN {
        return Err(TelemetryError::LengthMismatch);
    }
    let lo: u16 = payload[0] as u16;
    let hi: u16 = payload[1] as u16;
    Ok(
        FlightData {
            height: lo + 256 * hi,
            battery_percentage: payload[12],
            camera_state: payload[20],
        },
    )
}

/// Hands the payload of a decoded gram to the decoder for its message id.
pub fn dispatch(gram: &TelloGram) -> (r: Result<Message, TelemetryError>)
    ensures
        r == dispatch_spec(wire_id(gram@), wire_payload(gram@)),
{
    let id: u16 = gram.id();
    if id == MSG_CONNECT_ACK {
        Ok(Message::ConnectAck)
    } else if id == MSG_FLIGHT_DATA {
        let payload: Vec<u8> = gram.payload();
        match decode_flight_data(payload.as_slice()) {
            Ok(data) => Ok(Message::FlightData(data)),
            Err(e) => Err(e),
        }
    } else {
        Err(TelemetryError::Unhandled(id))
    }
}

} // verus!
