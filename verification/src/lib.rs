//! Rubrail models a Touch Bar menu system: a handle-indexed registry of
//! bars and items, a hierarchical lifecycle manager that tears whole menu
//! trees down when the root bar is replaced, and an event dispatcher that
//! resolves native control references back to registered items.
//!
//! The native UI toolkit is represented by an in-crate object store: every
//! bar, item, control and identity string is an object behind an opaque
//! `u64` reference, retained and released exactly as the menu system
//! demands.  A host layer drives the facade, supplies callback tokens, and
//! performs the actual callback invocations that the dispatcher resolves.
//!
//! Memory management follows the documented model: objects are allocated by
//! every `create_*` call, become part of the live tree only once attached to
//! the bar registered as root, and are released recursively when that bar is
//! replaced.  Anything created but never attached to the tree of a
//! replaced root bar is deliberately never reclaimed.

pub mod dispatch;
pub mod dummy;
pub mod ident;
pub mod interface;
pub mod laws;
pub mod model;
pub mod registry;
pub mod store;
pub mod touchbar;
pub mod util;

pub use interface::{BarId, CallbackToken, Ident, ImageTemplate, ItemId, ItemKind,
    ScrubberDataRef, SpacerType, SwipeState, TScrubberData, TouchbarImage};
pub use touchbar::Touchbar;
pub use dummy::DummyTouchbar;
