//! Command routing, deployment and permission synchronisation for a chat bot
//! whose commands are nested into subcommands and subcommand groups.
//!
//! - `schema` and `registry`: the command tree and the bot's declaration of it.
//! - `resolve` and `dispatch`: from an incoming interaction to the one handler
//!   it runs, or to the one reply it gets.
//! - `deploy` and `permissions`: the startup pushes of command definitions and
//!   of the grants that open restricted commands to their users.
//! - `emotes`, `pattern`, `settings`, `records`, `util`: the data and the
//!   decisions behind individual commands.
pub mod deploy;
pub mod dispatch;
pub mod emotes;
pub mod pattern;
pub mod permissions;
pub mod records;
pub mod registry;
pub mod resolve;
pub mod schema;
pub mod settings;
pub mod util;
