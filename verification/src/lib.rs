//! A reputation engine: accounts hold a profile and a count of stars
//! received; any account may grant a star to another account, paying a
//! price that grows geometrically with the recipient's star count,
//! subject to a daily rate limit. A read path exposes profiles, star
//! counts, and a top-K leaderboard.
//!
//! The value settlement itself (moving funds between accounts) is an
//! external, atomic primitive: the host performs it and reports the
//! outcome, and [`oracle::OracleContract::give_star`] takes that
//! outcome as an event. Everything the engine decides — validation,
//! pricing, counter updates, the leaderboard — is verified here.

pub mod assoc;
pub mod laws;
pub mod leaderboard;
pub mod natural;
pub mod oracle;
pub mod pricing;
pub mod store;
