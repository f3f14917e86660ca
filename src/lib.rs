//! Conversion of a parsed vector-image document into a flat list of drawable
//! path descriptors: geometry events, an absolute transform, a color and a
//! draw style for each.
//!
//! Every type is generic over the scalar `W` in which coordinates, widths and
//! transform coefficients are held: the library moves these values around but
//! never computes with them. Arithmetic on them (composing two transforms) is
//! handed in by the caller.

pub mod path;
pub mod style;
pub mod svg;
pub mod document;
pub mod loader;

pub use path::{Point, PathCommand, PathEvent, PathConvIter, convert_path};
pub use style::{Rgba, Paint, LineCap, LineJoin, Fill, Stroke, StrokeStyle, placeholder_color, convert_stroke};
pub use svg::{Transform, Node, DrawType, PathDescriptor, Constants, render_node};
pub use document::{Origin, ViewBox, Svg};
pub use loader::{SvgAssetLoader, SvgError, FileSvgError, resolve_file_name, parse_failure};
