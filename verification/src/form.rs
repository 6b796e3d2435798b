//! Form fields.

use vstd::prelude::*;

verus! {

/// The text of a form field, and whether the field is shown as valid.
#[derive(Clone, Debug, PartialEq, Eq)]
pub struct Value {
    pub value: String,
    pub valid: bool,
}

pub struct ValueView {
    pub value: Seq<char>,
    pub valid: bool,
}

impl View for Value {
    type V = ValueView;

    open spec fn view(&self) -> ValueView {
        ValueView { value: self.value@, valid: self.valid }
    }
}

impl Default for Value {
    /// An empty field, shown as valid.
    fn default() -> (field: Value)
        ensures
            field@ == (ValueView { value: Seq::empty(), valid: true }),
    {
        Value { value: String::new(), valid: true }
    }
}

} // verus!
