//! The rules of a command-line tool that configures and watches a Clash proxy
//! daemon, with what they promise stated and proved.
//!
//! The larger part is the live dashboard. Independent sources (the keyboard,
//! a traffic stream, a log stream and a polled roster of proxy groups) are
//! turned into [`event::AppEvent`]s. One loop applies them, in the order of
//! their arrival, to the [`store::App`] snapshot ([`dispatch`]) and draws the
//! [`render::Screen`] computed from it. [`stream`] decodes the two streams
//! and [`roster`] puts the groups in display order.
//!
//! The rest serves the tool's other commands: [`node`] and [`status`] for
//! the lists they show, [`config`] and [`tun`] for the daemon's configuration
//! files, [`endpoint`] for the addresses of its control API, [`cli`] and
//! [`system`] for names. [`text`], [`numeral`] and [`order`] are the
//! strings, numbers and sorting that all of them rest on.
//!
//! Nothing here reads, waits, sends or draws: the program around the library
//! does, and hands it plain values.

pub mod api;
pub mod cli;
pub mod config;
pub mod dispatch;
pub mod endpoint;
pub mod event;
pub mod node;
pub mod numeral;
pub mod order;
pub mod render;
pub mod roster;
pub mod status;
pub mod store;
pub mod stream;
pub mod system;
pub mod text;
pub mod tun;
