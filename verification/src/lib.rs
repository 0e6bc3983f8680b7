//! Library behind the automatic demo recorder for Team Fortress 2.
use vstd::prelude::*;

pub mod text;
pub mod calendar;
pub mod matchdata;
pub mod player;
pub mod killstreak;
pub mod console;
pub mod throttle;
pub mod json;
pub mod bookmark;
pub mod paths;
pub mod demofile;
pub mod demo;
pub mod record;
pub mod screenshot;
pub mod watcher;
pub mod vdf;
pub mod launch;

verus! {
}
