//! A verified core for a Trackmania server controller: chat command parsing,
//! the per-map race, record, preference and queue states, the server ranking,
//! map file headers, and the text helpers that the chat output is built from.

pub mod action;
pub mod text;
pub mod chat;
pub mod compat;
pub mod command;
pub mod config;
pub mod controller;
pub mod gbx;
pub mod keyed;
