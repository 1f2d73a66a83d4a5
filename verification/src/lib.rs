//! Core of a persistent HTTP/1.1 client: a compacting read buffer, a
//! resumable response parser, request serialisation and the connection
//! lifecycle, each stated as a contract over sequences of bytes.

pub mod body_reader;
pub mod byte_utils;
pub mod error;
pub mod headers;
pub mod headers_reader;
pub mod into_hyper_request;
pub mod my_http_client;
pub mod my_http_client_disconnect;
pub mod my_http_client_inner;
pub mod my_http_client_metrics;
pub mod my_http_request;
pub mod read_loop;
pub mod read_with_timeout;
pub mod tcp_buffer;
pub mod write_loop;
