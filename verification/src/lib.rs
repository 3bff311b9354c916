//! A parser for spells: one-line styling rules of the form
//! `[area__][{focus} | effect,effect:]component=target`.
//!
//! [`Spell::from_str`] reads a whole spell; the parts of the grammar can be
//! read on their own: [`SpellArea::from_str`], [`SpellBreakpoint::from_str`],
//! [`FocusOrEffect::from_prefix`] and [`SpellTarget::from_str`]. What each of
//! them returns is stated over sequences of characters, and
//! [`spell::spell_of`] is the grammar itself.

pub mod area;
pub mod breakpoint;
pub mod error;
pub mod focus;
pub mod spell;
pub mod target;
pub mod text;

pub use area::SpellArea;
pub use breakpoint::SpellBreakpoint;
pub use error::{AreaFault, SpellError};
pub use focus::FocusOrEffect;
pub use spell::Spell;
pub use target::SpellTarget;
