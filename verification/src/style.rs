//! Names that styling and accessibility layers rely on.

use vstd::prelude::*;

verus! {

/// Used for the text label before form fields.
pub const CSS_CLASS_LABEL: &'static str = "form_label";

/// Used for single-column inputs (text entry, checkbox). Exclusive with other
/// `form_input_` classes.
pub const CSS_CLASS_SMALL_INPUT: &'static str = "form_input_small";

/// Used for two-column inputs like text area. Exclusive with other
/// `form_input_` classes.
pub const CSS_CLASS_BIG_INPUT: &'static str = "form_input_big";

/// Used by the checkbox for options. Exclusive with other `form_input_`
/// classes.
pub const CSS_CLASS_OPTION_ENABLE: &'static str = "form_input_option";

/// Used for validation errors, appears before the input (also before the
/// associated label, if there is one).
pub const CSS_CLASS_ERROR: &'static str = "form_error";

/// Used for nested struct/enum fields, namely within variants or options.
pub const CSS_CLASS_SUBFORM: &'static str = "subform";

/// Used to hide disabled variants and options. They are hidden, not removed,
/// so that what the user entered is kept for when they are enabled again.
pub const CSS_CLASS_HIDDEN: &'static str = "disable_hide";

/// Set on every input, since `<label>` is not used.
pub const ATTR_LABEL: &'static str = "aria-label";

} // verus!
