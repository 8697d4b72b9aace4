//! The names that most users of the crate need, in one place.

pub use crate::builder::fuse::FuseBuilder;
pub use crate::builder::svg::SvgBuilder;
pub use crate::builder::{BuilderOptions, GraphicBuilder, SizeUnit, TestBuilder};
pub use crate::error::GraphicsError;
pub use crate::error::GraphicsError::{EmissionFailure, MalformedInterchange};
pub use crate::item::Color::{
    Black, Blue, Gray, Green, LightGray, Lime, Orange, Purple, Red, White, RGBA,
};
pub use crate::item::Fill::{Fillstyle, NoFill};
pub use crate::item::GraphicItem::{Ellipse, Line, Path, Rect};
pub use crate::item::PathCacheInfo::{Cache, NoCache};
pub use crate::item::Stroke::{NoStroke, Strokestyle};
pub use crate::item::{Color, Fill, GraphicItem, GraphicItems, PathCacheInfo, Stroke};
pub use crate::path::PathSegment::{C, L, M, Q, Z};
pub use crate::path::{PathSegment, PathSegments};
pub use crate::rect::{Rectangle, Rectangles};
pub use crate::scalar::Scalar;
