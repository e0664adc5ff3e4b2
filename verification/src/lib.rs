//! Core logic of a desktop-companion manager: detection of the display
//! environment and of GNOME settings, the running-window registry, the
//! edit targets of the control panel, and the small decisions the user
//! interface takes on its data.

pub mod env_detect;
pub mod instance_list;
pub mod panel;
pub mod spawns;
pub mod startup;
pub mod store;
pub mod text;
