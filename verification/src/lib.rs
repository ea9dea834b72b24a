//! Linux Practice Lab: lesson catalogue logic, validation results, progress rules, guest
//! parsers and the virtual machine command line, each with its contract.
pub mod accel;
pub mod agent;
pub mod catalog;
pub mod commands;
pub mod console;
pub mod dto;
pub mod feedback;
pub mod handlers;
pub mod health;
pub mod hints;
pub mod install;
pub mod integrity;
pub mod layout;
pub mod lesson;
pub mod overlay;
pub mod paths;
pub mod pattern;
pub mod progress;
pub mod progression;
pub mod qemu;
pub mod qemu_confinement;
pub mod qemu_path;
pub mod redact;
pub mod registry;
pub mod store;
pub mod state;
pub mod sys;
pub mod text;
pub mod validators;
pub mod token;
pub mod validation;
pub mod vm;
pub mod vm_manager;
