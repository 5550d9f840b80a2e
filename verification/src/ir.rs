//! The platform-agnostic element description consumed by the layout and
//! caching core. Colors are held as 8-bit channels (one step = 1/255) and
//! every length, position and fraction as a fixed-point [`Coord`], so the
//! whole description is plain data that the verified core can reason about.

use vstd::prelude::*;
use crate::geom::{Coord, Point};

verus! {

/// Color with 8-bit RGBA channels.
#[derive(Clone, Copy, PartialEq, Eq, Structural, Debug)]
pub struct Color {
    /// Red channel.
    pub r: u8,
    /// Green channel.
    pub g: u8,
    /// Blue channel.
    pub b: u8,
    /// Alpha channel.
    pub a: u8,
}

/// Position, rotation and scale of one element. Rotation is a fixed-point
/// angle in radians and scale a fixed-point factor, both in units of
/// 1/[`crate::geom::UNITS_PER_PIXEL`].
#[derive(Clone, Copy, PartialEq, Eq, Structural, Debug)]
pub struct Transform {
    /// Position in sub-pixel units.
    pub position: Point,
    /// Rotation, fixed-point radians.
    pub rotation: Coord,
    /// Scale, fixed-point factor per axis.
    pub scale: Point,
}

/// Stroke cap styles.
#[derive(Clone, Copy, PartialEq, Eq, Structural, Debug)]
pub enum StrokeCap {
    /// Butt cap.
    Butt,
    /// Round cap.
    Round,
    /// Square cap.
    Square,
}

/// Stroke join styles.
#[derive(Clone, Copy, PartialEq, Eq, Structural, Debug)]
pub enum StrokeJoin {
    /// Miter join.
    Miter,
    /// Round join.
    Round,
    /// Bevel join.
    Bevel,
}

/// Stroke properties.
#[derive(Clone, Copy, PartialEq, Eq, Structural, Debug)]
pub struct Stroke {
    /// Stroke color.
    pub color: Color,
    /// Stroke width in sub-pixel units.
    pub width: Coord,
    /// Cap style.
    pub cap: StrokeCap,
    /// Join style.
    pub join: StrokeJoin,
}

/// One stop of a gradient. The position runs from 0 to
/// [`crate::geom::UNITS_PER_PIXEL`] for the fraction 0 to 1.
#[derive(Clone, Copy, PartialEq, Eq, Structural, Debug)]
pub struct ColorStop {
    /// Fixed-point fraction along the gradient.
    pub position: Coord,
    /// Color at this stop.
    pub color: Color,
}

/// Linear gradient fill.
#[derive(Clone, PartialEq, Eq, Debug)]
pub struct LinearGradient {
    /// Start point.
    pub start: Point,
    /// End point.
    pub end: Point,
    /// Color stops.
    pub stops: Vec<ColorStop>,
}

/// Radial gradient fill.
#[derive(Clone, PartialEq, Eq, Debug)]
pub struct RadialGradient {
    /// Center point.
    pub center: Point,
    /// Radius in sub-pixel units.
    pub radius: Coord,
    /// Color stops.
    pub stops: Vec<ColorStop>,
}

/// Fill kinds, a closed set.
#[derive(Clone, PartialEq, Eq, Debug)]
pub enum Fill {
    /// Solid color.
    Solid(Color),
    /// Linear gradient.
    LinearGradient(LinearGradient),
    /// Radial gradient.
    RadialGradient(RadialGradient),
}

/// Corner radii of a rectangle, clockwise from the top left.
#[derive(Clone, Copy, PartialEq, Eq, Structural, Debug)]
pub struct CornerRadii {
    /// Top-left radius.
    pub top_left: Coord,
    /// Top-right radius.
    pub top_right: Coord,
    /// Bottom-right radius.
    pub bottom_right: Coord,
    /// Bottom-left radius.
    pub bottom_left: Coord,
}

/// Visual effects, a closed set.
#[derive(Clone, Copy, PartialEq, Eq, Structural, Debug)]
pub enum Effect {
    /// Drop shadow.
    DropShadow {
        /// Shadow offset.
        offset: Point,
        /// Blur radius in sub-pixel units.
        blur: Coord,
        /// Shadow color.
        color: Color,
    },
    /// Inner shadow.
    InnerShadow {
        /// Shadow offset.
        offset: Point,
        /// Blur radius in sub-pixel units.
        blur: Coord,
        /// Shadow color.
        color: Color,
    },
    /// Gaussian blur.
    Blur {
        /// Blur radius in sub-pixel units.
        radius: Coord,
    },
}

/// Everything visually observable about one element besides its transform.
#[derive(Clone, PartialEq, Eq, Debug)]
pub struct VisualProperties {
    /// Fill, if any.
    pub fill: Option<Fill>,
    /// Stroke, if any.
    pub stroke: Option<Stroke>,
    /// Corner radii, for rectangles.
    pub corner_radii: Option<CornerRadii>,
    /// Effects, in paint order.
    pub effects: Vec<Effect>,
    /// Opacity, 0 transparent to 255 opaque.
    pub opacity: u8,
}

/// Size constraint along one axis.
#[derive(Clone, Copy, PartialEq, Eq, Structural, Debug)]
pub enum SizeConstraint {
    /// Fixed size in sub-pixel units.
    Fixed(Coord),
    /// Expand to the available space.
    Fill,
    /// Shrink to the content.
    Hug,
}

/// Padding insets in sub-pixel units.
#[derive(Clone, Copy, PartialEq, Eq, Structural, Debug)]
pub struct Padding {
    /// Top inset.
    pub top: Coord,
    /// Right inset.
    pub right: Coord,
    /// Bottom inset.
    pub bottom: Coord,
    /// Left inset.
    pub left: Coord,
}

/// Cross-axis alignment inside a stack container.
#[derive(Clone, Copy, PartialEq, Eq, Structural, Debug)]
pub enum Alignment {
    /// Align to the leading edge.
    Start,
    /// Center within the content box.
    Center,
    /// Align to the trailing edge.
    End,
    /// Stretch to the content box.
    Stretch,
}

/// Layout mode of a container, a closed set.
#[derive(Clone, Copy, PartialEq, Eq, Structural, Debug)]
pub enum LayoutMode {
    /// Vertical stack.
    Column {
        /// Spacing between items, sub-pixel units.
        spacing: Coord,
        /// Cross-axis alignment.
        align: Alignment,
    },
    /// Horizontal stack.
    Row {
        /// Spacing between items, sub-pixel units.
        spacing: Coord,
        /// Cross-axis alignment.
        align: Alignment,
    },
    /// Grid layout.
    Grid {
        /// Column count.
        columns: usize,
        /// Spacing between cells, sub-pixel units.
        spacing: Coord,
    },
}

/// Layout properties of one element.
#[derive(Clone, Copy, PartialEq, Eq, Structural, Debug)]
pub struct LayoutProperties {
    /// Width constraint.
    pub width: SizeConstraint,
    /// Height constraint.
    pub height: SizeConstraint,
    /// Padding applied to this element's content box.
    pub padding: Padding,
    /// Layout mode, where the element is a container.
    pub layout_mode: Option<LayoutMode>,
}

/// What starts an interaction.
#[derive(Clone, PartialEq, Eq, Debug)]
pub enum InteractionTrigger {
    /// Pointer click.
    Click,
    /// Pointer hover.
    Hover,
    /// A named key pressed.
    KeyPress(String),
}

/// What an interaction does.
#[derive(Clone, PartialEq, Eq, Debug)]
pub enum InteractionAction {
    /// Navigate to the named artboard.
    NavigateTo(String),
    /// Toggle the named state.
    ToggleState(String),
}

/// An interaction: a trigger paired with an action.
#[derive(Clone, PartialEq, Eq, Debug)]
pub struct Interaction {
    /// The trigger.
    pub trigger: InteractionTrigger,
    /// The action.
    pub action: InteractionAction,
}

/// A visual node of the element description.
#[derive(Clone, PartialEq, Eq, Debug)]
pub struct Node {
    /// Identifier from the design source.
    pub id: String,
    /// Transform.
    pub transform: Transform,
    /// Visual properties.
    pub visual: VisualProperties,
    /// Layout properties.
    pub layout: LayoutProperties,
    /// Interactions.
    pub interactions: Vec<Interaction>,
}

/// An artboard: one page of the design.
#[derive(Clone, PartialEq, Eq, Debug)]
pub struct Artboard {
    /// Identifier.
    pub id: String,
    /// Human-readable name.
    pub name: String,
    /// Artboard size in sub-pixel units.
    pub size: Point,
    /// Background color.
    pub background: Color,
    /// Nodes, in paint order.
    pub nodes: Vec<Node>,
}

/// A reusable component.
#[derive(Clone, PartialEq, Eq, Debug)]
pub struct Component {
    /// Identifier.
    pub id: String,
    /// Name.
    pub name: String,
    /// Nodes of the component.
    pub nodes: Vec<Node>,
    /// Variant axes: each name with its possible values.
    pub variants: Vec<(String, Vec<String>)>,
}

/// Image encodings.
#[derive(Clone, Copy, PartialEq, Eq, Structural, Debug)]
pub enum ImageFormat {
    /// PNG.
    Png,
    /// JPEG.
    Jpeg,
    /// WebP.
    Webp,
}

/// An embedded font.
#[derive(Clone, PartialEq, Eq, Debug)]
pub struct FontAsset {
    /// Identifier.
    pub id: String,
    /// Family name.
    pub family: String,
    /// Raw font data.
    pub data: Vec<u8>,
}

/// An embedded image.
#[derive(Clone, PartialEq, Eq, Debug)]
pub struct ImageAsset {
    /// Identifier.
    pub id: String,
    /// Encoding.
    pub format: ImageFormat,
    /// Raw image data.
    pub data: Vec<u8>,
}

/// Embedded assets of a design.
#[derive(Clone, PartialEq, Eq, Debug)]
pub struct Assets {
    /// Fonts.
    pub fonts: Vec<FontAsset>,
    /// Images.
    pub images: Vec<ImageAsset>,
}

/// A whole design: artboards, components and assets.
#[derive(Clone, PartialEq, Eq, Debug)]
pub struct OriginIR {
    /// Version of the description format.
    pub version: u32,
    /// Artboards.
    pub artboards: Vec<Artboard>,
    /// Components, each under its key.
    pub components: Vec<(String, Component)>,
    /// Assets.
    pub assets: Assets,
}

impl OriginIR {
    /// Component keys are pairwise distinct: the component table is a map
    /// keyed by name, held as a list.
    pub open spec fn components_keys_unique(self) -> bool {
        forall|i: int, j: int|
            0 <= i < j < self.components@.len() ==> (#[trigger] self.components@[i]).0@ != (
            #[trigger] self.components@[j]).0@
    }
}

} // verus!
