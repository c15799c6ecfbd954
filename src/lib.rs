//! Client for the PINE protocol: a length-prefixed, status-coded binary
//! request/response protocol for instrumenting running emulators.
//!
//! Commands are collected into a [`PINEBatch`], encoded as one request, and the
//! single response of the emulator is decoded back into one [`PINEResponse`]
//! per command, in order.

mod client;
mod command;
mod batch;
mod error;
mod laws;
mod wire;

pub use batch::{encode_all, BatchView, PINEBatch};
pub use client::{declared_len, parse_response_header, PINE, RESPONSE_HEADER_LEN};
pub use command::{status_of, PINECommand, PINEResponse, PINEStatus, ResponseValue};
pub use error::{PINEError, PINEResult};
pub use laws::{
    answers, encode_response, encode_responses, encode_text, lemma_one_response_per_command,
    lemma_request_round_trip, lemma_responses_round_trip, parse_command, parse_commands,
    payload_width, sendable, status_code, text_fits,
};
pub use wire::{
    decode_responses, parse_response, parse_responses, parse_string, reports, strip_terminator,
    DecodeFailure,
};
