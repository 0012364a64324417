//! Voice typing: capture decisions, recognition providers and text insertion.

pub mod adapters;
pub mod audio;
pub mod calibration;
pub mod cancellation;
pub mod capture;
pub mod cleanup;
pub mod client;
pub mod config;
pub mod controller;
pub mod curl;
pub mod daemon;
pub mod deepgram;
pub mod desktop;
pub mod doctor;
pub mod doubao;
pub mod error;
pub mod fcitx;
pub mod grammar;
pub mod insertion;
pub mod json;
pub mod level;
pub mod overlay;
pub mod percent;
pub mod ports;
pub mod presentation;
pub mod provider;
pub mod rest;
pub mod route;
pub mod routing;
pub mod secret;
pub mod session;
pub mod settings;
pub mod shortcuts;
pub mod table;
pub mod text;
pub mod tray;
pub mod vad;
pub mod wake;
