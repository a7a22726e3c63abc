//! Exchange-facing types: sides, request and reply shapes, signing, latency
//! statistics and client order ids.
pub mod auth;
pub mod order_book;
pub mod order_state;
pub mod order_state_machine;
pub mod rest;
pub mod traits;
pub mod types;
pub mod order_template;
pub mod ws_order_client;
pub mod ws_order_client_v2;
pub mod kucoin_ws_private;
