//! Brushes: the kind, colour and width a stroke is drawn with.
//!
//! Widths are kept as IEEE-754 binary32 bit patterns, so that every value of
//! this module is an integer and can be compared exactly.
use vstd::prelude::*;

verus! {

/// Number of brush kinds.
pub const BRUSH_TYPE_COUNT: usize = 5;

/// Bit pattern of positive infinity; every larger magnitude is a NaN.
pub const INFINITY_BITS: u32 = 0x7f80_0000;

/// Bit pattern of the width `1.0`, the width a fresh brush starts with.
pub const UNIT_WIDTH_BITS: u32 = 0x3f80_0000;

/// The kinds of brush a stroke can be drawn with.
#[derive(Clone, Copy, Debug, PartialEq, Eq, Hash, Structural)]
pub enum BrushType {
    /// No brush is selected; the pointer only inspects the canvas.
    NoBrush,
    Graffiti,
    Pencil,
    Marker,
    Eraser,
}

impl BrushType {
    /// Position of the kind in declaration order.
    pub open spec fn spec_index(self) -> nat {
        match self {
            BrushType::NoBrush => 0,
            BrushType::Graffiti => 1,
            BrushType::Pencil => 2,
            BrushType::Marker => 3,
            BrushType::Eraser => 4,
        }
    }

    /// The display name of the kind.
    pub open spec fn spec_name(self) -> Seq<char> {
        match self {
            BrushType::NoBrush => "None"@,
            BrushType::Graffiti => "Graffiti"@,
            BrushType::Pencil => "Pencil"@,
            BrushType::Marker => "Marker"@,
            BrushType::Eraser => "Eraser"@,
        }
    }

    /// Position of the kind in declaration order, always below `BRUSH_TYPE_COUNT`.
    pub fn index(self) -> (i: usize)
        ensures
            i == self.spec_index(),
            i < BRUSH_TYPE_COUNT,
    {
        match self {
            BrushType::NoBrush => 0,
            BrushType::Graffiti => 1,
            BrushType::Pencil => 2,
            BrushType::Marker => 3,
            BrushType::Eraser => 4,
        }
    }

    /// The kind at position `i`, if `i` is below `BRUSH_TYPE_COUNT`.
    pub fn from_index(i: usize) -> (kind: Option<BrushType>)
        ensures
            i < BRUSH_TYPE_COUNT <==> kind is Some,
            kind matches Some(k) ==> k.spec_index() == i,
    {
        if i == 0 {
            Some(BrushType::NoBrush)
        } else if i == 1 {
            Some(BrushType::Graffiti)
        } else if i == 2 {
            Some(BrushType::Pencil)
        } else if i == 3 {
            Some(BrushType::Marker)
        } else if i == 4 {
            Some(BrushType::Eraser)
        } else {
            None
        }
    }

    /// The display name of the kind.
    pub fn name(self) -> (text: &'static str)
        ensures
            text@ == self.spec_name(),
    {
        match self {
            BrushType::NoBrush => "None",
            BrushType::Graffiti => "Graffiti",
            BrushType::Pencil => "Pencil",
            BrushType::Marker => "Marker",
            BrushType::Eraser => "Eraser",
        }
    }
}

/// How a line of some kind of brush is put on the screen.
#[derive(Clone, Copy, Debug, PartialEq, Eq, Structural)]
pub enum StrokeStyle {
    /// Dashes as long as the brush is wide, with gaps of the same length.
    Dashed,
    /// One unbroken line.
    Solid,
    /// Nothing is drawn.
    Hidden,
}

impl BrushType {
    /// How a line of this kind is drawn: the pencil in dashes, the marker
    /// unbroken, the others not at all.
    pub fn stroke_style(self) -> (style: StrokeStyle)
        ensures
            style == match self {
                BrushType::Pencil => StrokeStyle::Dashed,
                BrushType::Marker => StrokeStyle::Solid,
                _ => StrokeStyle::Hidden,
            },
    {
        match self {
            BrushType::Pencil => StrokeStyle::Dashed,
            BrushType::Marker => StrokeStyle::Solid,
            _ => StrokeStyle::Hidden,
        }
    }

    /// Whether this kind draws strokes when the pointer is dragged.
    pub fn draws(self) -> (yes: bool)
        ensures
            yes == (self == BrushType::Graffiti || self == BrushType::Pencil || self
                == BrushType::Marker),
    {
        match self {
            BrushType::Graffiti | BrushType::Pencil | BrushType::Marker => true,
            _ => false,
        }
    }

    /// Whether the user may set the width of this kind: of every kind but
    /// `NoBrush`.
    pub fn has_width_setting(self) -> (yes: bool)
        ensures
            yes == (self != BrushType::NoBrush),
    {
        match self {
            BrushType::NoBrush => false,
            _ => true,
        }
    }

    /// Whether the user may set the colour of this kind: of every kind but
    /// `NoBrush` and the eraser.
    pub fn has_color_setting(self) -> (yes: bool)
        ensures
            yes == (self != BrushType::NoBrush && self != BrushType::Eraser),
    {
        match self {
            BrushType::NoBrush | BrushType::Eraser => false,
            _ => true,
        }
    }
}

impl Default for BrushType {
    /// A fresh tool box has the marker selected.
    fn default() -> (kind: BrushType)
        ensures
            kind == BrushType::Marker,
    {
        BrushType::Marker
    }
}

/// The tabs the drawing application can show.
#[derive(Clone, Copy, Debug, PartialEq, Eq, Hash, Structural)]
pub enum TabType {
    /// The canvas the user paints on.
    Canvas,
    /// The settings of the brush the user paints with.
    BrushSettings,
}

impl TabType {
    /// The title of the tab.
    pub open spec fn spec_name(self) -> Seq<char> {
        match self {
            TabType::Canvas => "Canvas"@,
            TabType::BrushSettings => "BrushSettings"@,
        }
    }

    /// The title of the tab.
    pub fn name(self) -> (text: &'static str)
        ensures
            text@ == self.spec_name(),
    {
        match self {
            TabType::Canvas => "Canvas",
            TabType::BrushSettings => "BrushSettings",
        }
    }

    /// Whether the user may close the tab: every tab but the canvas.
    pub fn closeable(self) -> (yes: bool)
        ensures
            yes == (self != TabType::Canvas),
    {
        match self {
            TabType::Canvas => false,
            TabType::BrushSettings => true,
        }
    }
}

/// A colour as four premultiplied channels.
#[derive(Clone, Copy, Debug, PartialEq, Eq, Hash, Structural)]
pub struct Color {
    pub r: u8,
    pub g: u8,
    pub b: u8,
    pub a: u8,
}

impl Color {
    /// The colour in which a round-trip time is shown: green for none, red
    /// for a quarter of a second and more, and the mixture in between.
    pub open spec fn spec_of_ping(millis: u128) -> Color {
        let level = if millis > 255 {
            255u8
        } else {
            millis as u8
        };
        Color { r: level, g: (255 - level) as u8, b: 0, a: 255 }
    }

    /// The colour in which a round-trip time of `millis` milliseconds is
    /// shown.
    pub fn of_ping(millis: u128) -> (color: Color)
        ensures
            color == Color::spec_of_ping(millis),
    {
        let level: u8 = if millis > 255 {
            255
        } else {
            millis as u8
        };
        Color { r: level, g: 255 - level, b: 0, a: 255 }
    }

    /// The colour with every channel at zero.
    pub open spec fn spec_transparent() -> Color {
        Color { r: 0, g: 0, b: 0, a: 0 }
    }

    /// The colour with every channel at zero.
    pub fn transparent() -> (color: Color)
        ensures
            color == Color::spec_transparent(),
    {
        Color { r: 0, g: 0, b: 0, a: 0 }
    }
}

/// What a stroke is drawn with.
#[derive(Clone, Copy, Debug, PartialEq, Eq, Hash, Structural)]
pub struct Brush {
    /// Width of the stroke, as the bit pattern of a binary32 number.
    pub width: u32,
    pub color: Color,
    pub kind: BrushType,
}

/// A width is usable when it is a positive number: the sign bit is clear, the
/// value is not zero and it is not a NaN.
pub open spec fn is_positive_width(bits: u32) -> bool {
    0 < bits <= INFINITY_BITS
}

impl Brush {
    /// A brush is well formed when its width is a positive number.
    pub open spec fn is_valid(self) -> bool {
        is_positive_width(self.width)
    }

    /// Tests whether the brush is well formed.
    pub fn check(&self) -> (ok: bool)
        ensures
            ok == self.is_valid(),
    {
        0 < self.width && self.width <= INFINITY_BITS
    }
}

/// The brushes of a client: a width and a colour for each kind, and the kind
/// that is selected.
#[derive(Clone, Copy, Debug, PartialEq, Eq)]
pub struct PaintBrushes {
    brush_type: BrushType,
    brush_width: [u32; 5],
    brush_color: [Color; 5],
}

impl PaintBrushes {
    /// The kind that is selected.
    pub closed spec fn selected(&self) -> BrushType {
        self.brush_type
    }

    /// The width kept at position `nth`.
    pub closed spec fn width_at(&self, nth: int) -> u32 {
        self.brush_width@[nth]
    }

    /// The colour kept at position `nth`.
    pub closed spec fn color_at(&self, nth: int) -> Color {
        self.brush_color@[nth]
    }

    /// The brush kept at position `nth`, as the selected kind.
    pub open spec fn nth_brush(&self, nth: int) -> Brush {
        Brush { width: self.width_at(nth), color: self.color_at(nth), kind: self.selected() }
    }

    /// The brush of the selected kind.
    pub open spec fn current_brush(&self) -> Brush {
        self.nth_brush(self.selected().spec_index() as int)
    }

    /// The brush of the selected kind.
    pub fn get_current_brush(&self) -> (brush: Brush)
        ensures
            brush == self.current_brush(),
    {
        let nth = self.brush_type.index();
        Brush {
            width: self.brush_width[nth],
            color: self.brush_color[nth],
            kind: self.brush_type,
        }
    }

    /// The width and the colour kept at position `nth`, as a brush of the
    /// selected kind.
    pub fn get_nth_brush(&self, nth: usize) -> (brush: Brush)
        requires
            nth < BRUSH_TYPE_COUNT,
        ensures
            brush == self.nth_brush(nth as int),
    {
        Brush {
            width: self.brush_width[nth],
            color: self.brush_color[nth],
            kind: self.brush_type,
        }
    }

    /// The width, the colour and the kind of the selected brush, to change
    /// them in place.
    pub fn get_mut_current_brush(&mut self) -> (parts: (&mut u32, &mut Color, &mut BrushType))
        ensures
            *parts.0 == old(self).current_brush().width,
            *parts.1 == old(self).current_brush().color,
            *parts.2 == old(self).selected(),
            final(self).selected() == *final(parts.2),
            forall|nth: int|
                0 <= nth < 5 ==> final(self).width_at(nth) == if nth == old(
                    self,
                ).selected().spec_index() {
                    *final(parts.0)
                } else {
                    old(self).width_at(nth)
                },
            forall|nth: int|
                0 <= nth < 5 ==> final(self).color_at(nth) == if nth == old(
                    self,
                ).selected().spec_index() {
                    *final(parts.1)
                } else {
                    old(self).color_at(nth)
                },
    {
        let nth = self.brush_type.index();
        (&mut self.brush_width[nth], &mut self.brush_color[nth], &mut self.brush_type)
    }
}

impl Default for PaintBrushes {
    /// The marker is selected; every kind has the width `1.0` and no colour.
    fn default() -> (brushes: PaintBrushes)
        ensures
            brushes.selected() == BrushType::Marker,
            forall|nth: int|
                0 <= nth < 5 ==> brushes.width_at(nth) == UNIT_WIDTH_BITS && brushes.color_at(nth)
                    == Color::spec_transparent(),
    {
        PaintBrushes {
            brush_type: BrushType::Marker,
            brush_width: [UNIT_WIDTH_BITS; 5],
            brush_color: [Color::transparent(); 5],
        }
    }
}

} // verus!
