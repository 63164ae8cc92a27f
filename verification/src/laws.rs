//! What the parts of the library are for: statements that relate what is put in
//! to what comes out, without regard to how it is worked out.

pub mod scheduling;
pub mod limits;
pub mod downloads;
pub mod messages;
pub mod delivery;
pub mod files;
pub mod status;
pub mod readings;
pub mod people;
pub mod texts;
pub mod settings;
pub mod records;
pub mod waiting;
pub mod handling;
