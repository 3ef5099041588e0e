//! A verified core for an interactive terminal client that manages
//! virtual-network memberships: the session store, the keystroke state
//! machine, the background-refresh protocol, command-template substitution,
//! and the command-delegation protocol, each with a proved contract.

pub mod model;
pub mod delegate;
pub mod input;
pub mod paths;
pub mod persist;
pub mod refresh;
pub mod session;
pub mod state;
pub mod template;
pub mod usage;
