//! A credential-rotation library: random bearer tokens paired with random
//! ports, the decimal and hexadecimal text forms they are persisted in,
//! and a timing-safe comparison for token checks.

mod compare;
mod ports;
mod service;
mod store;
mod token;

pub use compare::constant_time_eq;
pub use ports::decimal_of;
pub use ports::digits_value;
pub use ports::generate_port;
pub use ports::lemma_decimal_of_value;
pub use ports::lemma_decimal_round_trip;
pub use ports::parse_port;
pub use ports::parse_port_or_zero;
pub use ports::parse_u16;
pub use ports::port_in_range;
pub use ports::port_to_string;
pub use ports::PORT_MAX;
pub use ports::PORT_MIN;
pub use service::async_flag_of;
pub use service::check_of;
pub use service::check_token;
pub use service::current_of;
pub use service::current_response;
pub use service::lemma_check_matches_persisted;
pub use service::lemma_current_before_any_roll;
pub use service::lemma_roll_then_current;
pub use service::parse_async_flag;
pub use service::roll;
pub use service::roll_token_and_port;
pub use service::RollOutcome;
pub use service::TokenState;
pub use store::lemma_trim_id;
pub use store::spec_trim;
pub use store::trim;
pub use token::generate_token;
pub use token::hex_of;
pub use token::is_token;
