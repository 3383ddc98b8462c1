//! Unlock a screen with a secret pattern of mouse clicks.
//!
//! - [`click`], [`matcher`] and [`tries`]: clicks, and watching for a pattern of
//!   them, plain or hashed.
//! - [`daemon`]: the arguments and settings of the daemon, and what a click
//!   leads to.
//! - [`setup`], [`keys`], [`requests`] and [`screen`]: the state of the setup
//!   program, what keys and clicks do to it, what answers its requests, and what
//!   it shows.
//! - [`saved`], [`hash`], [`service`] and [`usb`]: what the setup program saves,
//!   the hash of a pattern, what is done to the system, and USB devices.
//! - [`entries`], [`number`] and [`text`]: the settings file, numbers and
//!   strings.

pub mod click;
pub mod daemon;
pub mod entries;
pub mod hash;
pub mod keys;
pub mod matcher;
pub mod number;
pub mod requests;
pub mod saved;
pub mod screen;
pub mod service;
pub mod setup;
pub mod text;
pub mod tries;
pub mod usb;
