//! Account pooling, request screening and storage rules of the model2api server.
pub mod account;
pub mod account_laws;
pub mod accounts_api;
pub mod ai;
pub mod archive;
pub mod assoc;
pub mod auth;
pub mod backup;
pub mod calls;
pub mod cipher;
pub mod clock;
pub mod codec;
pub mod codex;
pub mod config;
pub mod config_laws;
pub mod content_filter;
pub mod cpa;
pub mod deferral;
pub mod detail_laws;
pub mod digest;
pub mod editable;
pub mod engine;
pub mod engine_laws;
pub mod error;
pub mod exchange_laws;
pub mod gallery_laws;
pub mod image_inputs;
pub mod image_paths;
pub mod image_service;
pub mod image_storage;
pub mod image_tags;
pub mod image_task;
pub mod json;
pub mod jwt;
pub mod lists;
pub mod log;
pub mod naming;
pub mod oauth;
pub mod pattern;
pub mod picture;
pub mod picture_laws;
pub mod pool;
pub mod pool_laws;
pub mod pool_model;
pub mod pool_use_laws;
pub mod progress;
pub mod r2;
pub mod records;
pub mod request_laws;
pub mod refresh;
pub mod roster;
pub mod search;
pub mod sorting;
pub mod sse;
pub mod storage_laws;
pub mod stored_laws;
pub mod support;
pub mod system;
pub mod text;
pub mod text_laws;
pub mod transfer_laws;
pub mod upkeep_laws;
pub mod urlcode;
pub mod value;
pub mod access_laws;
