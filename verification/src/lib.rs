//! Verified core of a Kanban board: the data model, the board operations,
//! time aggregation, the Pomodoro timer and the asset routing of the launcher.

pub mod columns;
pub mod find;
pub mod laws;
pub mod ids;
pub mod metrics;
pub mod model;
pub mod nav;
pub mod planning;
pub mod seed;
pub mod serve;
pub mod text;
pub mod timer;
pub mod views;

pub use model::{Card, Column, Epic, Resource, ResourceKind, Space, Story, Subtask, TagDef};
