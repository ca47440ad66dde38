//! The markers that the rewrite pass leaves in CSS text and that the code
//! generator later turns into runtime expressions.

use vstd::prelude::*;

verus! {

/// Marker put in front of every class name.
pub const PREFIX: &'static str = "__PREFIX__";

/// Marker standing for the host identifier.
pub const HOST: &'static str = "__HOST__";

/// Name of the marker function that wraps a length given in `rpx`.
pub const RPX_FUNC: &'static str = "__RPX__";

/// Name of the at-rule that stands for an import.
pub const IMPORT_STYLE: &'static str = "import-style";

/// Attribute that carries the tag name as written.
pub const META_TAG: &'static str = "meta:tag";

/// Tag that replaces the universal selector.
pub const UNSUPPORTED_STAR: &'static str = "unsupported-star";

/// Tag that replaces the `web-view` tag.
pub const UNSUPPORTED_WEB_VIEW: &'static str = "unsupported-web-view";

} // verus!
