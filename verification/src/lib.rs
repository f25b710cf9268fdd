//! Verified core of an SMS contact and group bot.
use vstd::prelude::*;

pub mod command;
pub mod command_word;
pub mod confirm;
pub mod delete;
pub mod friends;
pub mod group;
pub mod help;
pub mod info;
pub mod listing;
pub mod name;
pub mod nonempty;
pub mod numbering;
pub mod prompt;
pub mod properties;
pub mod records;
pub mod sms;
pub mod text;
pub mod unicode;
pub mod util;
pub mod word_confirm;

verus! {

} // verus!
