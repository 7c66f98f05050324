//! A tile-based navigation and labor-allocation engine: a bounds-checked
//! terrain grid with a per-actor traversal cost model, shortest-path search
//! over it, a path-following state machine, a priced designation ledger, a
//! budgeted worker job scheduler, dig/build work resolution, and a
//! timer-driven wave spawner. Every function is verified against its
//! contract; calls into outside crates stand behind narrow trusted wrappers.

pub mod tiles;
pub mod hit_points;
pub mod gridmap;
pub mod cost;
pub mod path;
pub mod motion;
pub mod currency;
pub mod ledger;
pub mod worker;
pub mod tilestate;
pub mod work;
pub mod spawner;
pub mod behavior;
pub mod maploader;
