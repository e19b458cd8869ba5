//! Core logic of the die-imaging backend: the tile pyramid that a die shot is
//! cut into (its arithmetic proved free of overflow, its tiles proved to
//! cover the pyramid once each and to stay inside the shot), the annotations
//! that are drawn over a die and the editor forms they travel in, the checks
//! on an uploaded shot, the server's settings, and the subscriptions of a
//! client to the changes of dies.

pub mod annotations;
pub mod config;
pub mod die;
pub mod jobs;
pub mod ml;
pub mod params;
pub mod realtime;
pub mod tiles;
pub mod util;
