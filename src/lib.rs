//! Client-side engine for a record-separated JSON signaling protocol:
//! frame codec, connection state machine, outbound queue and inbound
//! dispatch, plus the plain data types of the session REST service.

pub mod decimal;
pub mod dispatch;
pub mod envelope;
pub mod frame;
pub mod hub;
pub mod queue;
pub mod rest;

pub use rest::{Config, ICEServer, Session, SmaRTCError, User};
