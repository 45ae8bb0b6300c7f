//! Verified core of the WhatNull desktop client: configuration rules,
//! navigation policy, notification privacy, profile storage layout and
//! attachment metadata stripping.

pub mod text;
pub mod types;
pub mod config;
pub mod notification;
pub mod security;
pub mod storage;
pub mod platform;
pub mod privacy;
pub mod images;
pub mod pdf;
pub mod webview;
pub mod error;
