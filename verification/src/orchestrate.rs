//! Multi-agent orchestration: a goal is broken into steps, and the steps run
//! across worker agents until the goal is met or a hard limit stops the run.

pub mod board;
pub mod board_run;
pub mod budget;
pub mod commands;
pub mod delivery;
pub mod lifecycle;
pub mod plan;
pub mod replies;
pub mod run;
pub mod wire;
