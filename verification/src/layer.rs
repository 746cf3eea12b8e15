//! Layer identity and the per-layer record.

use crate::geometry::{BoundingBox, Point};
use vstd::prelude::*;

verus! {

/// Which face of the board a layer belongs to.
#[derive(Clone, Copy, Debug, PartialEq, Eq, Hash, Structural)]
pub enum Side {
    Top,
    Bottom,
}

/// The identity of a layer: a numbered copper layer, silkscreen, soldermask
/// or paste on one side, or the mechanical outline. Two layer types are the
/// same exactly when they are structurally equal.
#[derive(Clone, Copy, Debug, PartialEq, Eq, Hash, Structural)]
pub enum LayerType {
    Copper(u8),
    Silkscreen(Side),
    Soldermask(Side),
    Paste(Side),
    MechanicalOutline,
}

/// What the core reads of a layer's geometry: the box that bounds it, in
/// canonical space.
#[derive(Clone, Copy, Debug, PartialEq, Eq, Structural)]
pub struct GerberGeometry {
    pub bounding_box: BoundingBox,
}

/// Where a layer is placed for display: the offset applied to its geometry
/// and the bounds that result.
#[derive(Clone, Copy, Debug, PartialEq, Eq, Structural)]
pub struct LayerCoordinates {
    pub offset: Point,
    pub bounds: BoundingBox,
}

/// The record kept for one layer: its geometry, whether it is shown, and
/// what has been derived from the geometry (the cached bounding box and the
/// display coordinates).
#[derive(Clone, Copy, Debug, PartialEq, Eq, Structural)]
pub struct LayerInfo {
    pub geometry: Option<GerberGeometry>,
    pub visible: bool,
    pub bounding_box: Option<BoundingBox>,
    pub coordinates: Option<LayerCoordinates>,
}

/// The layers of a two-layer board, top before bottom, outline last.
pub open spec fn standard_layers() -> Seq<LayerType> {
    seq![
        LayerType::Copper(1),
        LayerType::Copper(2),
        LayerType::Silkscreen(Side::Top),
        LayerType::Silkscreen(Side::Bottom),
        LayerType::Soldermask(Side::Top),
        LayerType::Soldermask(Side::Bottom),
        LayerType::Paste(Side::Top),
        LayerType::Paste(Side::Bottom),
        LayerType::MechanicalOutline,
    ]
}

/// The geometry of `info` placed at `offset`: no coordinates without
/// geometry, else the bounding box moved by the offset.
pub open spec fn placed_at(info: LayerInfo, offset: Point) -> LayerInfo {
    match info.geometry {
        Some(g) => LayerInfo {
            bounding_box: Some(g.bounding_box),
            coordinates: Some(
                LayerCoordinates {
                    offset,
                    bounds: BoundingBox {
                        min: Point {
                            x: crate::units::clamp_i64(g.bounding_box.min.x + offset.x) as i64,
                            y: crate::units::clamp_i64(g.bounding_box.min.y + offset.y) as i64,
                        },
                        max: Point {
                            x: crate::units::clamp_i64(g.bounding_box.max.x + offset.x) as i64,
                            y: crate::units::clamp_i64(g.bounding_box.max.y + offset.y) as i64,
                        },
                    },
                },
            ),
            ..info
        },
        None => LayerInfo { bounding_box: None, coordinates: None, ..info },
    }
}

impl LayerType {
    /// Whether the layer lies on the top face: the first copper layer and
    /// everything marked top.
    pub open spec fn spec_is_top(&self) -> bool {
        match *self {
            LayerType::Copper(n) => n == 1,
            LayerType::Silkscreen(side) => side == Side::Top,
            LayerType::Soldermask(side) => side == Side::Top,
            LayerType::Paste(side) => side == Side::Top,
            LayerType::MechanicalOutline => false,
        }
    }

    /// Whether the layer lies below the top face: every other copper layer
    /// and everything marked bottom.
    pub open spec fn spec_is_bottom(&self) -> bool {
        match *self {
            LayerType::Copper(n) => n != 1,
            LayerType::Silkscreen(side) => side == Side::Bottom,
            LayerType::Soldermask(side) => side == Side::Bottom,
            LayerType::Paste(side) => side == Side::Bottom,
            LayerType::MechanicalOutline => false,
        }
    }

    /// The layers of a two-layer board, in a fixed order.
    pub fn all() -> (layers: Vec<LayerType>)
        ensures
            layers@ == standard_layers(),
    {
        let mut layers: Vec<LayerType> = Vec::new();
        layers.push(LayerType::Copper(1));
        layers.push(LayerType::Copper(2));
        layers.push(LayerType::Silkscreen(Side::Top));
        layers.push(LayerType::Silkscreen(Side::Bottom));
        layers.push(LayerType::Soldermask(Side::Top));
        layers.push(LayerType::Soldermask(Side::Bottom));
        layers.push(LayerType::Paste(Side::Top));
        layers.push(LayerType::Paste(Side::Bottom));
        layers.push(LayerType::MechanicalOutline);
        assert(layers@ =~= standard_layers());
        layers
    }

    #[verifier::when_used_as_spec(spec_is_top)]
    pub fn is_top(&self) -> (b: bool)
        ensures
            b == self.spec_is_top(),
    {
        match *self {
            LayerType::Copper(n) => n == 1,
            LayerType::Silkscreen(side) => side == Side::Top,
            LayerType::Soldermask(side) => side == Side::Top,
            LayerType::Paste(side) => side == Side::Top,
            LayerType::MechanicalOutline => false,
        }
    }

    #[verifier::when_used_as_spec(spec_is_bottom)]
    pub fn is_bottom(&self) -> (b: bool)
        ensures
            b == self.spec_is_bottom(),
    {
        match *self {
            LayerType::Copper(n) => n != 1,
            LayerType::Silkscreen(side) => side == Side::Bottom,
            LayerType::Soldermask(side) => side == Side::Bottom,
            LayerType::Paste(side) => side == Side::Bottom,
            LayerType::MechanicalOutline => false,
        }
    }
}

impl GerberGeometry {
    pub fn new(bounding_box: BoundingBox) -> (g: GerberGeometry)
        ensures
            g.bounding_box == bounding_box,
    {
        GerberGeometry { bounding_box }
    }
}

impl LayerInfo {
    /// A record for `geometry` with nothing derived yet.
    pub fn new(geometry: Option<GerberGeometry>, visible: bool) -> (info: LayerInfo)
        ensures
            info == (LayerInfo { geometry, visible, bounding_box: None, coordinates: None }),
    {
        LayerInfo { geometry, visible, bounding_box: None, coordinates: None }
    }

    /// Derives the cached bounding box and the display coordinates from the
    /// geometry, placed at `offset`. Without geometry both are cleared.
    pub fn place_at(&mut self, offset: Point)
        ensures
            *final(self) == placed_at(*old(self), offset),
    {
        match self.geometry {
            Some(g) => {
                self.bounding_box = Some(g.bounding_box);
                self.coordinates = Some(
                    LayerCoordinates {
                        offset,
                        bounds: g.bounding_box.translated(offset.x, offset.y),
                    },
                );
            },
            None => {
                self.bounding_box = None;
                self.coordinates = None;
            },
        }
    }

    /// Derives the cached bounding box and the display coordinates from the
    /// geometry as it is stored, with no offset.
    pub fn initialize_coordinates_from_gerber(&mut self)
        ensures
            *final(self) == placed_at(*old(self), Point { x: 0, y: 0 }),
    {
        self.place_at(Point { x: 0, y: 0 });
    }
}

/// Imported geometry whose role could not be told from its filename. It is
/// kept until a role is assigned to it or it is discarded.
#[derive(Clone, Debug)]
pub struct UnassignedGerber {
    pub filename: String,
    pub geometry: GerberGeometry,
}

impl UnassignedGerber {
    pub fn new(filename: String, geometry: GerberGeometry) -> (u: UnassignedGerber)
        ensures
            u.filename == filename,
            u.geometry == geometry,
    {
        UnassignedGerber { filename, geometry }
    }
}

} // verus!
