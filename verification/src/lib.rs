//! Idle blanking for a gamescope session: the decisions, without the I/O.
//!
//! A small program around this library watches keyboards and controllers, asks
//! logind and the session bus whether something inhibits idling, and covers the
//! screen with black when nobody has touched anything for a while. Everything
//! that program has to decide stands here, as functions on plain values:
//!
//! * [`daemon`]: the state machine that ties activity, inhibitors, the overlay
//!   and HDMI-CEC together;
//! * [`input`] and [`hid`]: which devices count, and which events are activity;
//! * [`control`]: the line protocol of the `blank`, `wake` and `status` commands;
//! * [`inhibit`] and [`screensaver`]: who keeps the screen awake;
//! * [`overlay`], [`overlay_x11`] and [`reconnect`]: what is drawn, and how a
//!   lost display connection is picked up again;
//! * [`cec`] and [`config`]: the TV, and the settings.

pub mod cec;
pub mod config;
pub mod control;
pub mod daemon;
pub mod dev;
pub mod hid;
pub mod inhibit;
pub mod input;
pub mod opacity;
pub mod overlay;
pub mod overlay_x11;
pub mod paths;
pub mod reconnect;
pub mod screensaver;
pub mod text;
pub mod time;
pub mod watch;
