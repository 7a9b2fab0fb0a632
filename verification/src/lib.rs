//! SilverDeck console logic: game discovery, launch commands, system
//! control, the store, the installer engine protocol and the controller
//! navigation model, with contracts checked by Verus.
use vstd::prelude::*;

pub mod desktop;
pub mod games;
pub mod heroic;
pub mod input;
pub mod install_ui;
pub mod installer;
pub mod json;
pub mod launch;
pub mod library;
pub mod order;
pub mod osk;
pub mod paths;
pub mod settings;
pub mod shell;
pub mod steam;
pub mod store;
pub mod store_view;
pub mod system;
pub mod text;

verus! {
} // verus!
