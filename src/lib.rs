//! A transfer-hook program core: the instruction dispatcher, the execute,
//! initialize and update handlers, the validation-record codec and the
//! program-derived-address search that they share.

pub mod account;
pub mod address;
pub mod binding;
pub mod codec;
pub mod error;
pub mod execute;
pub mod ids;
pub mod initialize;
pub mod instruction;
pub mod meta;
pub mod pda;
pub mod processor;
pub mod resolve;
pub mod scaffold;
pub mod token;
pub mod update;
