//! The verified core of a crafting application whose items are pods.
//!
//! One half is the state that all items share: [`state`] says what it is and how it changes,
//! [`helper`] builds the statements that prove a change, as a record of operations ([`script`]),
//! [`predicates`] writes the predicates that the statements speak of, in a [`language`] of which
//! [`predicate_laws`] tells what the text defines, [`state_laws`] holds what is true of the state
//! as a whole, and [`record_laws`] what a record proves.
//!
//! The other half is the window: [`process`] with its [`catalog`], [`verb`] and [`crafting`] are
//! what a user chooses from, [`items`] the items at hand, [`paths`] where their files lie, [`app`]
//! the application, [`panel`] what is shown of a process and [`actions`] what a user can do and
//! what becomes of it. [`catalog_laws`] and [`action_laws`] hold what is true of these as a whole.
pub mod action_laws;
pub mod actions;
pub mod app;
pub mod catalog;
pub mod catalog_laws;
pub mod crafting;
pub mod helper;
pub mod items;
pub mod language;
pub mod panel;
pub mod paths;
pub mod predicate_laws;
pub mod predicates;
pub mod process;
pub mod record_laws;
pub mod script;
pub mod state;
pub mod state_laws;
pub mod text;
pub mod values;
pub mod verb;
