//! Pane surface records as exchanged on the wire, with their mathematical
//! models.

use vstd::prelude::*;
use super::field::FieldValue;
use super::keyed::Keyed;

verus! {

/// Largest frame the protocol carries, in bytes.
pub const MAX_FRAME_SIZE: usize = 16777216;

/// One terminal cell: its symbol, colors, modifiers and hyperlink index.
#[derive(Debug, Clone, PartialEq, Eq)]
pub struct CellData {
    pub symbol: String,
    pub fg: u32,
    pub bg: u32,
    pub modifier: u16,
    pub skip: bool,
    pub hyperlink: Option<u32>,
}

/// Model of [`CellData`].
pub struct CellDataModel {
    pub symbol: Seq<char>,
    pub fg: u32,
    pub bg: u32,
    pub modifier: u16,
    pub skip: bool,
    pub hyperlink: Option<u32>,
}

impl DeepView for CellData {
    type V = CellDataModel;

    open spec fn deep_view(&self) -> CellDataModel {
        CellDataModel {
            symbol: self.symbol.deep_view(),
            fg: self.fg.deep_view(),
            bg: self.bg.deep_view(),
            modifier: self.modifier.deep_view(),
            skip: self.skip.deep_view(),
            hyperlink: self.hyperlink.deep_view(),
        }
    }
}

impl FieldValue for CellData {
    fn same(&self, other: &Self) -> (r: bool) {
        self.symbol.same(&other.symbol)
            && self.fg.same(&other.fg)
            && self.bg.same(&other.bg)
            && self.modifier.same(&other.modifier)
            && self.skip.same(&other.skip)
            && self.hyperlink.same(&other.hyperlink)
    }

    fn duplicate(&self) -> (r: Self) {
        CellData {
            symbol: self.symbol.duplicate(),
            fg: self.fg.duplicate(),
            bg: self.bg.duplicate(),
            modifier: self.modifier.duplicate(),
            skip: self.skip.duplicate(),
            hyperlink: self.hyperlink.duplicate(),
        }
    }
}

/// Cursor position, visibility and shape.
#[derive(Debug, Clone, PartialEq, Eq)]
pub struct CursorState {
    pub x: u16,
    pub y: u16,
    pub visible: bool,
    pub shape: u8,
}

/// Model of [`CursorState`].
pub struct CursorStateModel {
    pub x: u16,
    pub y: u16,
    pub visible: bool,
    pub shape: u8,
}

impl DeepView for CursorState {
    type V = CursorStateModel;

    open spec fn deep_view(&self) -> CursorStateModel {
        CursorStateModel {
            x: self.x.deep_view(),
            y: self.y.deep_view(),
            visible: self.visible.deep_view(),
            shape: self.shape.deep_view(),
        }
    }
}

impl FieldValue for CursorState {
    fn same(&self, other: &Self) -> (r: bool) {
        self.x.same(&other.x)
            && self.y.same(&other.y)
            && self.visible.same(&other.visible)
            && self.shape.same(&other.shape)
    }

    fn duplicate(&self) -> (r: Self) {
        CursorState {
            x: self.x.duplicate(),
            y: self.y.duplicate(),
            visible: self.visible.duplicate(),
            shape: self.shape.duplicate(),
        }
    }
}

/// A rectangle of terminal cells.
#[derive(Debug, Clone, PartialEq, Eq, Default)]
pub struct SurfaceRect {
    pub x: u16,
    pub y: u16,
    pub width: u16,
    pub height: u16,
}

/// Model of [`SurfaceRect`].
pub struct SurfaceRectModel {
    pub x: u16,
    pub y: u16,
    pub width: u16,
    pub height: u16,
}

impl DeepView for SurfaceRect {
    type V = SurfaceRectModel;

    open spec fn deep_view(&self) -> SurfaceRectModel {
        SurfaceRectModel {
            x: self.x.deep_view(),
            y: self.y.deep_view(),
            width: self.width.deep_view(),
            height: self.height.deep_view(),
        }
    }
}

impl FieldValue for SurfaceRect {
    fn same(&self, other: &Self) -> (r: bool) {
        self.x.same(&other.x)
            && self.y.same(&other.y)
            && self.width.same(&other.width)
            && self.height.same(&other.height)
    }

    fn duplicate(&self) -> (r: Self) {
        SurfaceRect {
            x: self.x.duplicate(),
            y: self.y.duplicate(),
            width: self.width.duplicate(),
            height: self.height.duplicate(),
        }
    }
}

/// Scrollback position of a pane.
#[derive(Debug, Clone, PartialEq, Eq)]
pub struct PaneSurfaceScrollMetrics {
    pub offset: u32,
    pub max_offset: u32,
    pub viewport_rows: u32,
}

/// Model of [`PaneSurfaceScrollMetrics`].
pub struct PaneSurfaceScrollMetricsModel {
    pub offset: u32,
    pub max_offset: u32,
    pub viewport_rows: u32,
}

impl DeepView for PaneSurfaceScrollMetrics {
    type V = PaneSurfaceScrollMetricsModel;

    open spec fn deep_view(&self) -> PaneSurfaceScrollMetricsModel {
        PaneSurfaceScrollMetricsModel {
            offset: self.offset.deep_view(),
            max_offset: self.max_offset.deep_view(),
            viewport_rows: self.viewport_rows.deep_view(),
        }
    }
}

impl FieldValue for PaneSurfaceScrollMetrics {
    fn same(&self, other: &Self) -> (r: bool) {
        self.offset.same(&other.offset)
            && self.max_offset.same(&other.max_offset)
            && self.viewport_rows.same(&other.viewport_rows)
    }

    fn duplicate(&self) -> (r: Self) {
        PaneSurfaceScrollMetrics {
            offset: self.offset.duplicate(),
            max_offset: self.max_offset.duplicate(),
            viewport_rows: self.viewport_rows.duplicate(),
        }
    }
}

/// A split line drawn between panes.
#[derive(Debug, Clone, PartialEq, Eq)]
pub struct PaneSurfaceSplit {
    pub x: u16,
    pub y: u16,
    pub length: u16,
    pub vertical: bool,
}

/// Model of [`PaneSurfaceSplit`].
pub struct PaneSurfaceSplitModel {
    pub x: u16,
    pub y: u16,
    pub length: u16,
    pub vertical: bool,
}

impl DeepView for PaneSurfaceSplit {
    type V = PaneSurfaceSplitModel;

    open spec fn deep_view(&self) -> PaneSurfaceSplitModel {
        PaneSurfaceSplitModel {
            x: self.x.deep_view(),
            y: self.y.deep_view(),
            length: self.length.deep_view(),
            vertical: self.vertical.deep_view(),
        }
    }
}

impl FieldValue for PaneSurfaceSplit {
    fn same(&self, other: &Self) -> (r: bool) {
        self.x.same(&other.x)
            && self.y.same(&other.y)
            && self.length.same(&other.length)
            && self.vertical.same(&other.vertical)
    }

    fn duplicate(&self) -> (r: Self) {
        PaneSurfaceSplit {
            x: self.x.duplicate(),
            y: self.y.duplicate(),
            length: self.length.duplicate(),
            vertical: self.vertical.duplicate(),
        }
    }
}

/// Identity of an image asset: its id and data length.
#[derive(Debug, Clone, PartialEq, Eq)]
pub struct SurfaceGraphicsAssetKey {
    pub id: u64,
    pub data_len: u64,
}

/// Model of [`SurfaceGraphicsAssetKey`].
pub struct SurfaceGraphicsAssetKeyModel {
    pub id: u64,
    pub data_len: u64,
}

impl DeepView for SurfaceGraphicsAssetKey {
    type V = SurfaceGraphicsAssetKeyModel;

    open spec fn deep_view(&self) -> SurfaceGraphicsAssetKeyModel {
        SurfaceGraphicsAssetKeyModel {
            id: self.id.deep_view(),
            data_len: self.data_len.deep_view(),
        }
    }
}

impl FieldValue for SurfaceGraphicsAssetKey {
    fn same(&self, other: &Self) -> (r: bool) {
        self.id.same(&other.id)
            && self.data_len.same(&other.data_len)
    }

    fn duplicate(&self) -> (r: Self) {
        SurfaceGraphicsAssetKey {
            id: self.id.duplicate(),
            data_len: self.data_len.duplicate(),
        }
    }
}

/// An image asset and its data.
#[derive(Debug, Clone, PartialEq, Eq)]
pub struct SurfaceGraphicsAsset {
    pub key: SurfaceGraphicsAssetKey,
    pub data: Vec<u8>,
}

/// Model of [`SurfaceGraphicsAsset`].
pub struct SurfaceGraphicsAssetModel {
    pub key: SurfaceGraphicsAssetKeyModel,
    pub data: Seq<u8>,
}

impl DeepView for SurfaceGraphicsAsset {
    type V = SurfaceGraphicsAssetModel;

    open spec fn deep_view(&self) -> SurfaceGraphicsAssetModel {
        SurfaceGraphicsAssetModel {
            key: self.key.deep_view(),
            data: self.data.deep_view(),
        }
    }
}

impl FieldValue for SurfaceGraphicsAsset {
    fn same(&self, other: &Self) -> (r: bool) {
        self.key.same(&other.key)
            && self.data.same(&other.data)
    }

    fn duplicate(&self) -> (r: Self) {
        SurfaceGraphicsAsset {
            key: self.key.duplicate(),
            data: self.data.duplicate(),
        }
    }
}

/// Where an asset is shown.
#[derive(Debug, Clone, PartialEq, Eq)]
pub struct SurfaceGraphicsPlacement {
    pub asset: SurfaceGraphicsAssetKey,
    pub logical_placement_id: u32,
    pub x: u16,
    pub y: u16,
}

/// Model of [`SurfaceGraphicsPlacement`].
pub struct SurfaceGraphicsPlacementModel {
    pub asset: SurfaceGraphicsAssetKeyModel,
    pub logical_placement_id: u32,
    pub x: u16,
    pub y: u16,
}

impl DeepView for SurfaceGraphicsPlacement {
    type V = SurfaceGraphicsPlacementModel;

    open spec fn deep_view(&self) -> SurfaceGraphicsPlacementModel {
        SurfaceGraphicsPlacementModel {
            asset: self.asset.deep_view(),
            logical_placement_id: self.logical_placement_id.deep_view(),
            x: self.x.deep_view(),
            y: self.y.deep_view(),
        }
    }
}

impl FieldValue for SurfaceGraphicsPlacement {
    fn same(&self, other: &Self) -> (r: bool) {
        self.asset.same(&other.asset)
            && self.logical_placement_id.same(&other.logical_placement_id)
            && self.x.same(&other.x)
            && self.y.same(&other.y)
    }

    fn duplicate(&self) -> (r: Self) {
        SurfaceGraphicsPlacement {
            asset: self.asset.duplicate(),
            logical_placement_id: self.logical_placement_id.duplicate(),
            x: self.x.duplicate(),
            y: self.y.duplicate(),
        }
    }
}

/// The images a client shows: assets, placements and assets kept without placement.
#[derive(Debug, Clone, PartialEq, Eq, Default)]
pub struct SurfaceGraphicsScene {
    pub assets: Vec<SurfaceGraphicsAsset>,
    pub placements: Vec<SurfaceGraphicsPlacement>,
    pub retained_assets: Vec<SurfaceGraphicsAssetKey>,
}

/// Model of [`SurfaceGraphicsScene`].
pub struct SurfaceGraphicsSceneModel {
    pub assets: Seq<SurfaceGraphicsAssetModel>,
    pub placements: Seq<SurfaceGraphicsPlacementModel>,
    pub retained_assets: Seq<SurfaceGraphicsAssetKeyModel>,
}

impl DeepView for SurfaceGraphicsScene {
    type V = SurfaceGraphicsSceneModel;

    open spec fn deep_view(&self) -> SurfaceGraphicsSceneModel {
        SurfaceGraphicsSceneModel {
            assets: self.assets.deep_view(),
            placements: self.placements.deep_view(),
            retained_assets: self.retained_assets.deep_view(),
        }
    }
}

impl FieldValue for SurfaceGraphicsScene {
    fn same(&self, other: &Self) -> (r: bool) {
        self.assets.same(&other.assets)
            && self.placements.same(&other.placements)
            && self.retained_assets.same(&other.retained_assets)
    }

    fn duplicate(&self) -> (r: Self) {
        SurfaceGraphicsScene {
            assets: self.assets.duplicate(),
            placements: self.placements.duplicate(),
            retained_assets: self.retained_assets.duplicate(),
        }
    }
}

/// A grid of cells, row by row, with cursor and hyperlink table.
#[derive(Debug, Clone, PartialEq, Eq)]
pub struct FrameData {
    pub cells: Vec<CellData>,
    pub width: u16,
    pub height: u16,
    pub cursor: Option<CursorState>,
    pub hyperlinks: Vec<String>,
    pub graphics: Vec<SurfaceGraphicsPlacement>,
}

/// Model of [`FrameData`].
pub struct FrameDataModel {
    pub cells: Seq<CellDataModel>,
    pub width: u16,
    pub height: u16,
    pub cursor: Option<CursorStateModel>,
    pub hyperlinks: Seq<Seq<char>>,
    pub graphics: Seq<SurfaceGraphicsPlacementModel>,
}

impl DeepView for FrameData {
    type V = FrameDataModel;

    open spec fn deep_view(&self) -> FrameDataModel {
        FrameDataModel {
            cells: self.cells.deep_view(),
            width: self.width.deep_view(),
            height: self.height.deep_view(),
            cursor: self.cursor.deep_view(),
            hyperlinks: self.hyperlinks.deep_view(),
            graphics: self.graphics.deep_view(),
        }
    }
}

impl FieldValue for FrameData {
    fn same(&self, other: &Self) -> (r: bool) {
        self.cells.same(&other.cells)
            && self.width.same(&other.width)
            && self.height.same(&other.height)
            && self.cursor.same(&other.cursor)
            && self.hyperlinks.same(&other.hyperlinks)
            && self.graphics.same(&other.graphics)
    }

    fn duplicate(&self) -> (r: Self) {
        FrameData {
            cells: self.cells.duplicate(),
            width: self.width.duplicate(),
            height: self.height.duplicate(),
            cursor: self.cursor.duplicate(),
            hyperlinks: self.hyperlinks.duplicate(),
            graphics: self.graphics.duplicate(),
        }
    }
}

/// Per-pane metadata of a surface.
#[derive(Debug, Clone, PartialEq, Eq)]
pub struct PaneSurfacePane {
    pub pane_id: String,
    pub content_revision: u64,
    pub scroll: Option<PaneSurfaceScrollMetrics>,
    pub focused: bool,
    pub mouse_reporting: bool,
    pub sgr_pixel_mouse: bool,
    pub alternate_screen_active: bool,
    pub scrollbar_rect: Option<SurfaceRect>,
    pub rect: SurfaceRect,
    pub inner_rect: SurfaceRect,
    pub pixel_width: u32,
    pub pixel_height: u32,
}

/// Model of [`PaneSurfacePane`].
pub struct PaneSurfacePaneModel {
    pub pane_id: Seq<char>,
    pub content_revision: u64,
    pub scroll: Option<PaneSurfaceScrollMetricsModel>,
    pub focused: bool,
    pub mouse_reporting: bool,
    pub sgr_pixel_mouse: bool,
    pub alternate_screen_active: bool,
    pub scrollbar_rect: Option<SurfaceRectModel>,
    pub rect: SurfaceRectModel,
    pub inner_rect: SurfaceRectModel,
    pub pixel_width: u32,
    pub pixel_height: u32,
}

impl DeepView for PaneSurfacePane {
    type V = PaneSurfacePaneModel;

    open spec fn deep_view(&self) -> PaneSurfacePaneModel {
        PaneSurfacePaneModel {
            pane_id: self.pane_id.deep_view(),
            content_revision: self.content_revision.deep_view(),
            scroll: self.scroll.deep_view(),
            focused: self.focused.deep_view(),
            mouse_reporting: self.mouse_reporting.deep_view(),
            sgr_pixel_mouse: self.sgr_pixel_mouse.deep_view(),
            alternate_screen_active: self.alternate_screen_active.deep_view(),
            scrollbar_rect: self.scrollbar_rect.deep_view(),
            rect: self.rect.deep_view(),
            inner_rect: self.inner_rect.deep_view(),
            pixel_width: self.pixel_width.deep_view(),
            pixel_height: self.pixel_height.deep_view(),
        }
    }
}

impl FieldValue for PaneSurfacePane {
    fn same(&self, other: &Self) -> (r: bool) {
        self.pane_id.same(&other.pane_id)
            && self.content_revision.same(&other.content_revision)
            && self.scroll.same(&other.scroll)
            && self.focused.same(&other.focused)
            && self.mouse_reporting.same(&other.mouse_reporting)
            && self.sgr_pixel_mouse.same(&other.sgr_pixel_mouse)
            && self.alternate_screen_active.same(&other.alternate_screen_active)
            && self.scrollbar_rect.same(&other.scrollbar_rect)
            && self.rect.same(&other.rect)
            && self.inner_rect.same(&other.inner_rect)
            && self.pixel_width.same(&other.pixel_width)
            && self.pixel_height.same(&other.pixel_height)
    }

    fn duplicate(&self) -> (r: Self) {
        PaneSurfacePane {
            pane_id: self.pane_id.duplicate(),
            content_revision: self.content_revision.duplicate(),
            scroll: self.scroll.duplicate(),
            focused: self.focused.duplicate(),
            mouse_reporting: self.mouse_reporting.duplicate(),
            sgr_pixel_mouse: self.sgr_pixel_mouse.duplicate(),
            alternate_screen_active: self.alternate_screen_active.duplicate(),
            scrollbar_rect: self.scrollbar_rect.duplicate(),
            rect: self.rect.duplicate(),
            inner_rect: self.inner_rect.duplicate(),
            pixel_width: self.pixel_width.duplicate(),
            pixel_height: self.pixel_height.duplicate(),
        }
    }
}

/// A popup drawn over the surface.
#[derive(Debug, Clone, PartialEq, Eq)]
pub struct ClientShellPopupSurface {
    pub frame: FrameData,
    pub rect: SurfaceRect,
}

/// Model of [`ClientShellPopupSurface`].
pub struct ClientShellPopupSurfaceModel {
    pub frame: FrameDataModel,
    pub rect: SurfaceRectModel,
}

impl DeepView for ClientShellPopupSurface {
    type V = ClientShellPopupSurfaceModel;

    open spec fn deep_view(&self) -> ClientShellPopupSurfaceModel {
        ClientShellPopupSurfaceModel {
            frame: self.frame.deep_view(),
            rect: self.rect.deep_view(),
        }
    }
}

impl FieldValue for ClientShellPopupSurface {
    fn same(&self, other: &Self) -> (r: bool) {
        self.frame.same(&other.frame)
            && self.rect.same(&other.rect)
    }

    fn duplicate(&self) -> (r: Self) {
        ClientShellPopupSurface {
            frame: self.frame.duplicate(),
            rect: self.rect.duplicate(),
        }
    }
}

/// The full rendered surface at one revision.
#[derive(Debug, Clone, PartialEq, Eq)]
pub struct PaneSurfaceFrame {
    pub boot_id: String,
    pub projection_revision: u64,
    pub surface_revision: u64,
    pub frame: FrameData,
    pub panes: Vec<PaneSurfacePane>,
    pub splits: Vec<PaneSurfaceSplit>,
    pub popup: Option<Box<ClientShellPopupSurface>>,
    pub graphics: SurfaceGraphicsScene,
}

/// Model of [`PaneSurfaceFrame`].
pub struct PaneSurfaceFrameModel {
    pub boot_id: Seq<char>,
    pub projection_revision: u64,
    pub surface_revision: u64,
    pub frame: FrameDataModel,
    pub panes: Seq<PaneSurfacePaneModel>,
    pub splits: Seq<PaneSurfaceSplitModel>,
    pub popup: Option<ClientShellPopupSurfaceModel>,
    pub graphics: SurfaceGraphicsSceneModel,
}

impl DeepView for PaneSurfaceFrame {
    type V = PaneSurfaceFrameModel;

    open spec fn deep_view(&self) -> PaneSurfaceFrameModel {
        PaneSurfaceFrameModel {
            boot_id: self.boot_id.deep_view(),
            projection_revision: self.projection_revision.deep_view(),
            surface_revision: self.surface_revision.deep_view(),
            frame: self.frame.deep_view(),
            panes: self.panes.deep_view(),
            splits: self.splits.deep_view(),
            popup: self.popup.deep_view(),
            graphics: self.graphics.deep_view(),
        }
    }
}

impl FieldValue for PaneSurfaceFrame {
    fn same(&self, other: &Self) -> (r: bool) {
        self.boot_id.same(&other.boot_id)
            && self.projection_revision.same(&other.projection_revision)
            && self.surface_revision.same(&other.surface_revision)
            && self.frame.same(&other.frame)
            && self.panes.same(&other.panes)
            && self.splits.same(&other.splits)
            && self.popup.same(&other.popup)
            && self.graphics.same(&other.graphics)
    }

    fn duplicate(&self) -> (r: Self) {
        PaneSurfaceFrame {
            boot_id: self.boot_id.duplicate(),
            projection_revision: self.projection_revision.duplicate(),
            surface_revision: self.surface_revision.duplicate(),
            frame: self.frame.duplicate(),
            panes: self.panes.duplicate(),
            splits: self.splits.duplicate(),
            popup: self.popup.duplicate(),
            graphics: self.graphics.duplicate(),
        }
    }
}

/// A run of cells starting at a position.
#[derive(Debug, Clone, PartialEq, Eq)]
pub struct PaneSurfacePatchRow {
    pub x: u16,
    pub y: u16,
    pub cells: Vec<CellData>,
}

/// Model of [`PaneSurfacePatchRow`].
pub struct PaneSurfacePatchRowModel {
    pub x: u16,
    pub y: u16,
    pub cells: Seq<CellDataModel>,
}

impl DeepView for PaneSurfacePatchRow {
    type V = PaneSurfacePatchRowModel;

    open spec fn deep_view(&self) -> PaneSurfacePatchRowModel {
        PaneSurfacePatchRowModel {
            x: self.x.deep_view(),
            y: self.y.deep_view(),
            cells: self.cells.deep_view(),
        }
    }
}

impl FieldValue for PaneSurfacePatchRow {
    fn same(&self, other: &Self) -> (r: bool) {
        self.x.same(&other.x)
            && self.y.same(&other.y)
            && self.cells.same(&other.cells)
    }

    fn duplicate(&self) -> (r: Self) {
        PaneSurfacePatchRow {
            x: self.x.duplicate(),
            y: self.y.duplicate(),
            cells: self.cells.duplicate(),
        }
    }
}

/// A cell patch of the older surface format.
#[derive(Debug, Clone, PartialEq, Eq)]
pub struct PaneSurfacePatch {
    pub boot_id: String,
    pub projection_revision: u64,
    pub base_surface_revision: u64,
    pub surface_revision: u64,
    pub rows: Vec<PaneSurfacePatchRow>,
    pub panes: Vec<PaneSurfacePane>,
    pub cursor: Option<CursorState>,
}

/// Model of [`PaneSurfacePatch`].
pub struct PaneSurfacePatchModel {
    pub boot_id: Seq<char>,
    pub projection_revision: u64,
    pub base_surface_revision: u64,
    pub surface_revision: u64,
    pub rows: Seq<PaneSurfacePatchRowModel>,
    pub panes: Seq<PaneSurfacePaneModel>,
    pub cursor: Option<CursorStateModel>,
}

impl DeepView for PaneSurfacePatch {
    type V = PaneSurfacePatchModel;

    open spec fn deep_view(&self) -> PaneSurfacePatchModel {
        PaneSurfacePatchModel {
            boot_id: self.boot_id.deep_view(),
            projection_revision: self.projection_revision.deep_view(),
            base_surface_revision: self.base_surface_revision.deep_view(),
            surface_revision: self.surface_revision.deep_view(),
            rows: self.rows.deep_view(),
            panes: self.panes.deep_view(),
            cursor: self.cursor.deep_view(),
        }
    }
}

impl FieldValue for PaneSurfacePatch {
    fn same(&self, other: &Self) -> (r: bool) {
        self.boot_id.same(&other.boot_id)
            && self.projection_revision.same(&other.projection_revision)
            && self.base_surface_revision.same(&other.base_surface_revision)
            && self.surface_revision.same(&other.surface_revision)
            && self.rows.same(&other.rows)
            && self.panes.same(&other.panes)
            && self.cursor.same(&other.cursor)
    }

    fn duplicate(&self) -> (r: Self) {
        PaneSurfacePatch {
            boot_id: self.boot_id.duplicate(),
            projection_revision: self.projection_revision.duplicate(),
            base_surface_revision: self.base_surface_revision.duplicate(),
            surface_revision: self.surface_revision.duplicate(),
            rows: self.rows.duplicate(),
            panes: self.panes.duplicate(),
            cursor: self.cursor.duplicate(),
        }
    }
}

impl Keyed for PaneSurfacePane {
    open spec fn view_key(v: PaneSurfacePaneModel) -> Seq<char> {
        v.pane_id
    }

    fn key(&self) -> (r: &String) {
        &self.pane_id
    }
}

} // verus!
