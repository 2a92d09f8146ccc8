//! Command x-ray: the hover rules that open and close a token description,
//! and the offset arithmetic between the characters a host reports and the
//! bytes a token span is given in.

pub mod host;
pub mod hover;
pub mod offsets;
pub mod tooltip;
pub mod requested;
