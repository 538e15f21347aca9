//! Verified protocol rules.

pub mod access;
pub mod blob_store;
pub mod blob_stream;
pub mod clipboard_upload;
pub mod command_cache;
pub mod commands;
pub mod connection_registry;
pub mod domain;
pub mod error;
pub mod events;
pub mod features;
pub mod float_bits;
pub mod host;
pub mod input_session;
pub mod input_stream;
pub mod keyed;
pub mod outside;
pub mod pairing;
pub mod peer;
pub mod product;
pub mod proto;
pub mod proto_msg;
pub mod queries;
pub mod query_handler;
pub mod reconciler;
pub mod reconciliation;
pub mod remote_file_stream;
pub mod remote_file_wire;
pub mod remote_files;
pub mod replication;
pub mod replication_service;
pub mod replication_wire;
pub mod requests;
pub mod session;
pub mod snapshots;
pub mod status;
pub mod subscriptions;
pub mod sync_record;
pub mod text;
