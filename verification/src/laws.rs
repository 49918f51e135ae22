//! What callers can rely on, said of the calls themselves: each law speaks of
//! what goes into one or more calls and of what comes out of them.

pub mod calls;
pub mod connecting;
pub mod lists;
pub mod naming;
pub mod requests;
pub mod sessions;
pub mod state;
pub mod suggestions;
pub mod texts;
