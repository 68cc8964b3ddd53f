//! The core of a persistent, multi-client simulated world: the world and the
//! discipline by which its mobiles are checked out and returned, the rules
//! of combat, theft and crafting, the events that carry them out, and the
//! scheduler that runs the events tick by tick.

pub mod aging;
pub mod combat;
pub mod commands;
pub mod crafting;
pub mod dice;
pub mod events;
pub mod items;
pub mod location;
pub mod map;
pub mod message;
pub mod mobile;
pub mod monster_ai;
pub mod movement;
pub mod object;
pub mod order;
pub mod persist;
pub mod scheduler;
pub mod spawning;
pub mod stealing;
pub mod text;
pub mod uid;
pub mod world;
