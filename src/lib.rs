//! A ticketing marketplace for events: a registry that creates one ticket
//! program per event, and the ticket program itself, which issues tickets,
//! runs a resale market with a creator fee, and handles transfers and
//! check-in. Each program is an explicit state value; payments that an
//! operation owes are returned to the host, which settles them atomically:
//! it keeps a copy of the state (`clone` keeps all of it) and restores that
//! copy when the payments cannot all be made.
pub mod types;
pub mod fees;
pub mod marketplace;
pub mod laws;
pub mod factory;
