//! The logic of a Mission Control-style tmux session switcher.
//!
//! - [`model`]: sessions, agent statuses and the picker's state; [`model::picker`] says what the
//!   picker does between two key strokes, and [`model::laws`] what holds of it throughout;
//! - [`order`]: which session leads the grid, and which one comes next;
//! - [`command`]: what tmux is asked, and what its replies mean;
//! - [`tmux`]: how a session listing and a captured pane are read;
//! - [`panes`]: the agent statuses that panes report, and the badge a session gets from them;
//! - [`listing`]: the exchange that turns tmux's replies into a list of sessions;
//! - [`agent_status`]: the command an agent's hook runs;
//! - [`color`]: color names on the command line;
//! - [`laws`]: what each operation comes to, stated on plain fields and characters;
//! - [`text`] and [`seqs`]: the text and sequence functions the rest is stated over.
use vstd::prelude::*;

pub mod agent_status;
pub mod color;
pub mod command;
pub mod laws;
pub mod listing;
pub mod model;
pub mod order;
pub mod panes;
pub mod seqs;
pub mod text;
pub mod tmux;

verus! {

}
