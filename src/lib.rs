//! Literal-populated maps and zero-sized value markers, with their laws
//! proved by Verus.
pub mod accessor;
pub mod container;
pub mod declarator;
pub mod feedback;

pub use accessor::{ConstU16, ConstU32, ConstU64, ConstU8, Get, Seven};
pub use container::map_of;
pub use declarator::{declare, DeclareError, DeclaredType, TypeBinding, ValueType, Visibility};
pub use feedback::{how_hard_was_this_section, how_many_hours_did_you_spend_on_this_section};
