//! Color-coded visibility into a Gas City stack: rigs, agents and bead
//! queues. A rig, agent or bead only reads healthy when it is both running
//! and has actually moved recently; the views here join what `gc`, `bd`
//! and `git` report, judge each item's health, and lay the result out as
//! text.
pub mod assemble;
pub mod clock;
pub mod config;
pub mod health;
pub mod model;
pub mod render;
pub mod sources;
pub mod text;
