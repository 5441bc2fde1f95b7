//! Building blocks of the menu layer.
//!
//! Only the declared shapes live here; how a component is drawn belongs to
//! the embedding application, which owns the render context.

use vstd::prelude::*;

verus! {

/// Builds a boxed menu component of type `T`.
pub trait ComponentBuilder<T> {
    fn build() -> Box<T>;
}

/// A clickable menu button. A placeholder: its drawing behavior is not
/// implemented yet.
pub struct Button {}

} // verus!
