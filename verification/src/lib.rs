//! Verified page logic of a bookkeeping web front end.
#![allow(non_snake_case)]

use vstd::prelude::*;

pub mod text;
pub mod numtext;
pub mod groups;
pub mod products;
pub mod roles;
pub mod journal_entries;
pub mod opening_balances;
pub mod saft_movement_mappings;
pub mod register;
pub mod answers;
pub mod login;
pub mod profile;
pub mod reset_password;
pub mod scanned_invoices;
pub mod saft_export;
pub mod reports;

verus! {

} // verus!
