//! Parsing and rebinding of the two global keyboard shortcuts (skip a break,
//! toggle pause) of a rest-reminder desktop application.
pub mod binding;
pub mod parse;
pub mod rebind;
pub mod registry;

pub use binding::{KeyBinding, Letter, ModifierKey, Modifiers};
pub use parse::{classify_token, parse_shortcut, TokenKind};
pub use rebind::{
    on_key_event, plan_rebind, FacilityCall, KeyState, Notification, RebindPlan, RebindRequest,
};
pub use registry::{Bindings, Registry, Slot};
