//! Pane surface deltas: sparse pane updates, cell spans, row moves, popups and
//! graphics, with the checks that guard them and their application.

use vstd::prelude::*;
use crate::text::{decimal_text, push_decimal, push_decimal_wide};
use super::field::{FieldValue, SurfaceFieldUpdate};
use super::keyed::{find_by_key, first_with_key, has_key, lemma_find_first, position_of_key, same_text, unique_keys, validate_unique, Keyed};
use super::surface_wire::{
    CellData, CellDataModel, ClientShellPopupSurface, ClientShellPopupSurfaceModel, CursorState, FrameData,
    FrameDataModel, PaneSurfaceFrame, PaneSurfaceFrameModel, PaneSurfacePane, PaneSurfacePaneModel,
    PaneSurfacePatch, PaneSurfacePatchRow, PaneSurfaceScrollMetrics, PaneSurfaceSplit, SurfaceGraphicsAsset,
    SurfaceGraphicsAssetKey, SurfaceGraphicsAssetKeyModel, SurfaceGraphicsAssetModel, SurfaceGraphicsPlacement,
    SurfaceGraphicsPlacementModel, SurfaceGraphicsScene, SurfaceGraphicsSceneModel, SurfaceRect, MAX_FRAME_SIZE,
};

verus! {

/// Rows of one pane copied up or down within the pane.
#[derive(Debug, Clone, PartialEq, Eq)]
pub struct PaneRowMove {
    pub pane_id: String,
    pub src_y: u16,
    pub dst_y: u16,
    pub count: u16,
}

/// Identity of a graphics placement.
#[derive(Debug, Clone, PartialEq, Eq)]
pub struct SurfaceGraphicsPlacementKey {
    pub asset: SurfaceGraphicsAssetKey,
    pub logical_placement_id: u32,
}

/// Changes to the graphics scene.
#[derive(Debug, Clone, Default, PartialEq, Eq)]
pub struct SurfaceGraphicsDelta {
    pub added_assets: Vec<SurfaceGraphicsAsset>,
    pub removed_assets: Vec<SurfaceGraphicsAssetKey>,
    pub added_placements: Vec<SurfaceGraphicsPlacement>,
    pub removed_placements: Vec<SurfaceGraphicsPlacementKey>,
    pub retained_assets: Vec<SurfaceGraphicsAssetKey>,
}

/// Sparse update of one pane's surface metadata.
#[derive(Debug, Clone, PartialEq, Eq)]
pub struct PaneSurfacePaneDelta {
    pub pane_id: String,
    pub content_revision: SurfaceFieldUpdate<u64>,
    pub scroll: SurfaceFieldUpdate<Option<PaneSurfaceScrollMetrics>>,
    pub focused: SurfaceFieldUpdate<bool>,
    pub mouse_reporting: SurfaceFieldUpdate<bool>,
    pub sgr_pixel_mouse: SurfaceFieldUpdate<bool>,
    pub alternate_screen_active: SurfaceFieldUpdate<bool>,
    pub scrollbar_rect: SurfaceFieldUpdate<Option<SurfaceRect>>,
    pub rect: SurfaceFieldUpdate<SurfaceRect>,
    pub inner_rect: SurfaceFieldUpdate<SurfaceRect>,
    pub pixel_width: SurfaceFieldUpdate<u32>,
    pub pixel_height: SurfaceFieldUpdate<u32>,
}

/// Changes to the popup: a new seed, a clear, or spans over the current one.
#[derive(Debug, Clone, Default, PartialEq, Eq)]
pub struct ClientShellPopupDelta {
    pub seed: Option<Box<ClientShellPopupSurface>>,
    pub clear: bool,
    pub spans: Vec<PaneSurfacePatchRow>,
    pub cursor: SurfaceFieldUpdate<Option<CursorState>>,
    pub appended_hyperlinks: Vec<String>,
}

/// The changes from one surface revision of a server boot to a later one.
#[derive(Debug, Clone, PartialEq, Eq)]
pub struct ClientShellSurfaceDelta {
    pub boot_id: String,
    pub projection_revision: u64,
    pub base_surface_revision: u64,
    pub surface_revision: u64,
    pub spans: Vec<PaneSurfacePatchRow>,
    pub row_moves: Vec<PaneRowMove>,
    pub panes: Vec<PaneSurfacePaneDelta>,
    pub splits: Option<Vec<PaneSurfaceSplit>>,
    pub cursor: SurfaceFieldUpdate<Option<CursorState>>,
    pub appended_hyperlinks: Vec<String>,
    pub graphics: Option<SurfaceGraphicsDelta>,
    pub popup: Option<ClientShellPopupDelta>,
}

/// `a + b` saturated at `u16::MAX`.
pub open spec fn sat16(a: int, b: int) -> int {
    if a + b > 65535 {
        65535
    } else {
        a + b
    }
}

/// `a + b` saturated at `usize::MAX`.
pub open spec fn sat_usize(a: int, b: int) -> int {
    if a + b > usize::MAX {
        usize::MAX as int
    } else {
        a + b
    }
}

/// Every hyperlink index of the cells points into a table of `table_len` entries.
pub open spec fn hyperlinks_below(cells: Seq<CellDataModel>, table_len: int) -> bool {
    forall|i: int| 0 <= i < cells.len() ==> ((#[trigger] cells[i]).hyperlink matches Some(h) ==> h < table_len)
}

/// An accepted surface seed: unique pane IDs, `width * height` cells, and
/// hyperlink indexes inside the hyperlink table.
pub open spec fn surface_seed_valid(s: PaneSurfaceFrameModel) -> bool {
    &&& unique_keys::<PaneSurfacePane>(s.panes)
    &&& s.frame.cells.len() == s.frame.width * s.frame.height
    &&& hyperlinks_below(s.frame.cells, s.frame.hyperlinks.len() as int)
}

/// The decimal numeral of a count or coordinate.
pub open spec fn num(n: int) -> Seq<char> {
    decimal_text(n as nat)
}

/// The first hyperlink index at or after cell `j` that does not point into
/// a table of `table_len` entries (0 when there is none).
pub open spec fn first_bad_link(cells: Seq<CellDataModel>, table_len: int, j: int) -> int
    decreases cells.len() - j,
{
    if j < 0 || j >= cells.len() {
        0
    } else if cells[j].hyperlink matches Some(h) && h >= table_len {
        cells[j].hyperlink->0 as int
    } else {
        first_bad_link(cells, table_len, j + 1)
    }
}

/// The first hyperlink index of `cells` outside a table of `table_len`
/// entries, if any.
fn bad_link_index(cells: &Vec<CellData>, table_len: usize) -> (r: Option<u32>)
    ensures
        r is None <==> hyperlinks_below(cells.deep_view(), table_len as int),
        r matches Some(h) ==> h as int == first_bad_link(cells.deep_view(), table_len as int, 0),
{
    let ghost c = cells.deep_view();
    let mut i: usize = 0;
    while i < cells.len()
        invariant
            i <= cells.len(),
            c == cells.deep_view(),
            forall|q: int| 0 <= q < i ==> ((#[trigger] c[q]).hyperlink matches Some(h) ==> h < table_len),
            first_bad_link(c, table_len as int, 0) == first_bad_link(c, table_len as int, i as int),
        decreases cells.len() - i,
    {
        if let Some(idx) = cells[i].hyperlink {
            if idx as usize >= table_len {
                assert(c[i as int].hyperlink == Some(idx));
                return Some(idx);
            }
        }
        assert(first_bad_link(c, table_len as int, i as int) == first_bad_link(c, table_len as int, i + 1));
        i += 1;
    }
    None
}

/// The total size the appended hyperlinks add to a table.
fn hyperlink_growth_total(links: &Vec<String>) -> (r: u128)
    ensures
        r as int == hyperlink_growth(links@),
{
    let size = core::mem::size_of::<String>();
    let mut total: u128 = 0;
    let mut i: usize = 0;
    while i < links.len()
        invariant
            i <= links@.len(),
            total as int == hyperlink_growth(links@.take(i as int)),
            total as int <= i as int * 18446744073709551615,
            size as nat == vstd::layout::size_of::<String>(),
        decreases links@.len() - i,
    {
        let item = links[i].as_str().len().saturating_add(size);
        proof {
            assert(links@.take(i + 1).drop_last() =~= links@.take(i as int));
            assert(links@.take(i + 1).last() == links@[i as int]);
            assert(item as int <= 18446744073709551615);
            assert(i as int * 18446744073709551615 + 18446744073709551615 == (i + 1) as int * 18446744073709551615);
            assert((i + 1) as int * 18446744073709551615 <= 18446744073709551616 * 18446744073709551615);
        }
        total = total + item as u128;
        i += 1;
    }
    assert(links@.take(links@.len() as int) =~= links@);
    total
}

proof fn lemma_grid_size(w: u16, h: u16)
    ensures
        (w as int) * (h as int) <= 65535 * 65535,
        0 <= (w as int) * (h as int),
{
    assert((w as int) * (h as int) <= 65535 * 65535) by (nonlinear_arith)
        requires
            w <= 65535,
            h <= 65535,
    ;
    assert(0 <= (w as int) * (h as int)) by (nonlinear_arith);
}


/// The message a seed is refused with, by the first check it fails: unique
/// pane IDs, the cell count, then the first hyperlink index outside the table.
pub open spec fn surface_seed_error(s: PaneSurfaceFrameModel) -> Seq<char> {
    if !unique_keys::<PaneSurfacePane>(s.panes) {
        "duplicate "@ + "pane ID in surface seed"@
    } else if s.frame.cells.len() != s.frame.width * s.frame.height {
        "surface seed cells len mismatch: expected "@ + num(s.frame.width * s.frame.height) + " ("@ + num(
            s.frame.width as int,
        ) + "x"@ + num(s.frame.height as int) + ") got "@ + num(s.frame.cells.len() as int)
    } else {
        "surface seed cell hyperlink index "@ + num(first_bad_link(s.frame.cells, s.frame.hyperlinks.len() as int, 0))
            + " >= table len "@ + num(s.frame.hyperlinks.len() as int)
    }
}

/// Checks a surface that is to become the base of later deltas.
pub fn validate_surface_seed(surface: &PaneSurfaceFrame) -> (r: Result<(), String>)
    ensures
        r is Ok <==> surface_seed_valid(surface.deep_view()),
        r matches Err(e) ==> e@ == surface_seed_error(surface.deep_view()),
{
    validate_unique(&surface.panes, "pane ID in surface seed")?;
    proof {
        lemma_grid_size(surface.frame.width, surface.frame.height);
    }
    let expected_cells = (surface.frame.width as usize) * (surface.frame.height as usize);
    if surface.frame.cells.len() != expected_cells {
        let mut msg = String::from_str("surface seed cells len mismatch: expected ");
        push_decimal(&mut msg, expected_cells as u64);
        msg.append(" (");
        push_decimal(&mut msg, surface.frame.width as u64);
        msg.append("x");
        push_decimal(&mut msg, surface.frame.height as u64);
        msg.append(") got ");
        push_decimal(&mut msg, surface.frame.cells.len() as u64);
        return Err(msg);
    }
    let max_hyperlink = surface.frame.hyperlinks.len();
    match bad_link_index(&surface.frame.cells, max_hyperlink) {
        Some(idx) => {
            let mut msg = String::from_str("surface seed cell hyperlink index ");
            push_decimal(&mut msg, idx as u64);
            msg.append(" >= table len ");
            push_decimal(&mut msg, max_hyperlink as u64);
            Err(msg)
        },
        None => Ok(()),
    }
}

/// The pane after a pane delta: every carried field replaced, the ID kept.
pub open spec fn pane_delta_applied(p: PaneSurfacePaneModel, d: PaneSurfacePaneDelta) -> PaneSurfacePaneModel {
    PaneSurfacePaneModel {
        pane_id: p.pane_id,
        content_revision: d.content_revision.applied_view(p.content_revision),
        scroll: d.scroll.applied_view(p.scroll),
        focused: d.focused.applied_view(p.focused),
        mouse_reporting: d.mouse_reporting.applied_view(p.mouse_reporting),
        sgr_pixel_mouse: d.sgr_pixel_mouse.applied_view(p.sgr_pixel_mouse),
        alternate_screen_active: d.alternate_screen_active.applied_view(p.alternate_screen_active),
        scrollbar_rect: d.scrollbar_rect.applied_view(p.scrollbar_rect),
        rect: d.rect.applied_view(p.rect),
        inner_rect: d.inner_rect.applied_view(p.inner_rect),
        pixel_width: d.pixel_width.applied_view(p.pixel_width),
        pixel_height: d.pixel_height.applied_view(p.pixel_height),
    }
}

impl PaneSurfacePaneDelta {
    /// The delta is the one `diff` computes from `base` to `next`.
    pub open spec fn is_diff_of(&self, base: PaneSurfacePaneModel, next: PaneSurfacePaneModel) -> bool {
        &&& self.pane_id@ == next.pane_id
        &&& self.content_revision.is_diff_of(base.content_revision, next.content_revision)
        &&& self.scroll.is_diff_of(base.scroll, next.scroll)
        &&& self.focused.is_diff_of(base.focused, next.focused)
        &&& self.mouse_reporting.is_diff_of(base.mouse_reporting, next.mouse_reporting)
        &&& self.sgr_pixel_mouse.is_diff_of(base.sgr_pixel_mouse, next.sgr_pixel_mouse)
        &&& self.alternate_screen_active.is_diff_of(base.alternate_screen_active, next.alternate_screen_active)
        &&& self.scrollbar_rect.is_diff_of(base.scrollbar_rect, next.scrollbar_rect)
        &&& self.rect.is_diff_of(base.rect, next.rect)
        &&& self.inner_rect.is_diff_of(base.inner_rect, next.inner_rect)
        &&& self.pixel_width.is_diff_of(base.pixel_width, next.pixel_width)
        &&& self.pixel_height.is_diff_of(base.pixel_height, next.pixel_height)
    }

    /// `None` for equal panes; otherwise the update that turns `base` into
    /// `next`, addressed by `next`'s pane ID.
    pub fn diff(base: &PaneSurfacePane, next: &PaneSurfacePane) -> (r: Option<Self>)
        ensures
            base.deep_view() == next.deep_view() ==> r is None,
            base.deep_view() != next.deep_view() ==> (r matches Some(d) && d.is_diff_of(base.deep_view(), next.deep_view())),
    {
        if base.same(next) {
            return None;
        }
        Some(PaneSurfacePaneDelta {
            pane_id: next.pane_id.duplicate(),
            content_revision: SurfaceFieldUpdate::diff(&base.content_revision, &next.content_revision),
            scroll: SurfaceFieldUpdate::diff(&base.scroll, &next.scroll),
            focused: SurfaceFieldUpdate::diff(&base.focused, &next.focused),
            mouse_reporting: SurfaceFieldUpdate::diff(&base.mouse_reporting, &next.mouse_reporting),
            sgr_pixel_mouse: SurfaceFieldUpdate::diff(&base.sgr_pixel_mouse, &next.sgr_pixel_mouse),
            alternate_screen_active: SurfaceFieldUpdate::diff(&base.alternate_screen_active, &next.alternate_screen_active),
            scrollbar_rect: SurfaceFieldUpdate::diff(&base.scrollbar_rect, &next.scrollbar_rect),
            rect: SurfaceFieldUpdate::diff(&base.rect, &next.rect),
            inner_rect: SurfaceFieldUpdate::diff(&base.inner_rect, &next.inner_rect),
            pixel_width: SurfaceFieldUpdate::diff(&base.pixel_width, &next.pixel_width),
            pixel_height: SurfaceFieldUpdate::diff(&base.pixel_height, &next.pixel_height),
        })
    }

    /// Replaces each field of `target` that the delta carries.
    pub fn apply_to(self, target: &mut PaneSurfacePane)
        ensures
            final(target).deep_view() == pane_delta_applied(old(target).deep_view(), self),
    {
        self.content_revision.apply_to(&mut target.content_revision);
        self.scroll.apply_to(&mut target.scroll);
        self.focused.apply_to(&mut target.focused);
        self.mouse_reporting.apply_to(&mut target.mouse_reporting);
        self.sgr_pixel_mouse.apply_to(&mut target.sgr_pixel_mouse);
        self.alternate_screen_active.apply_to(&mut target.alternate_screen_active);
        self.scrollbar_rect.apply_to(&mut target.scrollbar_rect);
        self.rect.apply_to(&mut target.rect);
        self.inner_rect.apply_to(&mut target.inner_rect);
        self.pixel_width.apply_to(&mut target.pixel_width);
        self.pixel_height.apply_to(&mut target.pixel_height);
    }

    /// A copy that applies the same way.
    pub fn duplicate(&self) -> (r: Self)
        ensures
            r.pane_id@ == self.pane_id@,
            forall|p: PaneSurfacePaneModel| pane_delta_applied(p, r) == pane_delta_applied(p, *self),
    {
        PaneSurfacePaneDelta {
            pane_id: self.pane_id.duplicate(),
            content_revision: self.content_revision.duplicate(),
            scroll: self.scroll.duplicate(),
            focused: self.focused.duplicate(),
            mouse_reporting: self.mouse_reporting.duplicate(),
            sgr_pixel_mouse: self.sgr_pixel_mouse.duplicate(),
            alternate_screen_active: self.alternate_screen_active.duplicate(),
            scrollbar_rect: self.scrollbar_rect.duplicate(),
            rect: self.rect.duplicate(),
            inner_rect: self.inner_rect.duplicate(),
            pixel_width: self.pixel_width.duplicate(),
            pixel_height: self.pixel_height.duplicate(),
        }
    }
}

/// The pane geometry that the older patch format cannot change.
pub open spec fn spec_geometry_matches(l: PaneSurfacePaneModel, r: PaneSurfacePaneModel) -> bool {
    &&& l.pane_id == r.pane_id
    &&& l.rect == r.rect
    &&& l.inner_rect == r.inner_rect
    &&& l.focused == r.focused
    &&& l.pixel_width == r.pixel_width
    &&& l.pixel_height == r.pixel_height
}

/// Whether two panes have the same ID, rectangles, focus and pixel size.
pub fn pane_geometry_matches_legacy_patch(left: &PaneSurfacePane, right: &PaneSurfacePane) -> (r: bool)
    ensures
        r == spec_geometry_matches(left.deep_view(), right.deep_view()),
{
    same_text(&left.pane_id, &right.pane_id) && left.rect.same(&right.rect) && left.inner_rect.same(&right.inner_rect)
        && left.focused == right.focused && left.pixel_width == right.pixel_width
        && left.pixel_height == right.pixel_height
}

/// The span lies on one terminal row inside the pane's inner rectangle, or
/// covers exactly one row of its scrollbar.
pub open spec fn spec_span_hits(span: PaneSurfacePatchRow, pane: PaneSurfacePaneModel) -> bool {
    let len = span.cells@.len() as int;
    let ir = pane.inner_rect;
    &&& len <= 65535
    &&& {
        ||| (span.x >= ir.x && span.y >= ir.y && span.y < sat16(ir.y as int, ir.height as int)
            && sat16(span.x as int, len) <= sat16(ir.x as int, ir.width as int))
        ||| (pane.scrollbar_rect matches Some(rect) && span.x == rect.x && span.y >= rect.y
            && span.y < sat16(rect.y as int, rect.height as int) && len == rect.width)
    }
}

fn span_hits_pane_legacy_patch(span: &PaneSurfacePatchRow, pane: &PaneSurfacePane) -> (r: bool)
    ensures
        r == spec_span_hits(*span, pane.deep_view()),
{
    if span.cells.len() > 65535 {
        return false;
    }
    let len = span.cells.len() as u16;
    let ir = &pane.inner_rect;
    let terminal_row = span.x >= ir.x && span.y >= ir.y && span.y < ir.y.saturating_add(ir.height)
        && span.x.saturating_add(len) <= ir.x.saturating_add(ir.width);
    let scrollbar_row = match &pane.scrollbar_rect {
        Some(rect) => span.x == rect.x && span.y >= rect.y && span.y < rect.y.saturating_add(rect.height)
            && span.cells.len() == rect.width as usize,
        None => false,
    };
    terminal_row || scrollbar_row
}

/// Some pane of `panes` is hit by the span.
pub open spec fn span_hits_some_pane(span: PaneSurfacePatchRow, panes: Seq<PaneSurfacePaneModel>) -> bool {
    exists|j: int| 0 <= j < panes.len() && spec_span_hits(span, #[trigger] panes[j])
}

fn span_hits_any_pane(span: &PaneSurfacePatchRow, panes: &Vec<PaneSurfacePane>) -> (r: bool)
    ensures
        r == span_hits_some_pane(*span, panes.deep_view()),
{
    let mut j: usize = 0;
    while j < panes.len()
        invariant
            j <= panes.len(),
            forall|q: int| 0 <= q < j ==> !spec_span_hits(*span, #[trigger] panes.deep_view()[q]),
        decreases panes.len() - j,
    {
        if span_hits_pane_legacy_patch(span, &panes[j]) {
            assert(spec_span_hits(*span, panes.deep_view()[j as int]));
            return true;
        }
        j += 1;
    }
    false
}

impl ClientShellSurfaceDelta {
    /// The panes a legacy patch carries: each updated pane, in delta order.
    pub open spec fn legacy_panes(&self, last: PaneSurfaceFrameModel) -> Seq<PaneSurfacePaneModel> {
        self.panes@.map_values(|d: PaneSurfacePaneDelta| pane_delta_applied(find_by_key::<PaneSurfacePane>(last.panes, d.pane_id@), d))
    }

    /// The delta only patches cells and pane metadata of a surface without
    /// popup or graphics: same boot and revisions, no row moves, splits,
    /// hyperlinks, graphics or popup; pane updates keep the geometry; and
    /// every span hits some pane.
    pub open spec fn legacy_compatible(&self, last: PaneSurfaceFrameModel) -> bool {
        &&& last.boot_id == self.boot_id@
        &&& last.surface_revision == self.base_surface_revision
        &&& last.projection_revision == self.projection_revision
        &&& last.popup is None
        &&& last.graphics.placements.len() == 0
        &&& last.graphics.retained_assets.len() == 0
        &&& last.graphics.assets.len() == 0
        &&& self.row_moves@.len() == 0
        &&& self.splits is None
        &&& self.appended_hyperlinks@.len() == 0
        &&& self.graphics is None
        &&& self.popup is None
        &&& forall|i: int| 0 <= i < self.panes@.len() ==> has_key::<PaneSurfacePane>(last.panes, (#[trigger] self.panes@[i]).pane_id@)
            && spec_geometry_matches(
                find_by_key::<PaneSurfacePane>(last.panes, self.panes@[i].pane_id@),
                pane_delta_applied(find_by_key::<PaneSurfacePane>(last.panes, self.panes@[i].pane_id@), self.panes@[i]),
            )
        &&& forall|i: int| 0 <= i < self.spans@.len() ==> span_hits_some_pane(#[trigger] self.spans@[i], last.panes)
    }

    /// The same change as a patch of the older format, or the delta itself
    /// when that format cannot carry it.
    pub fn into_legacy_patch(self, last: &PaneSurfaceFrame) -> (r: Result<PaneSurfacePatch, Self>)
        ensures
            r is Ok <==> self.legacy_compatible(last.deep_view()),
            r matches Err(d) ==> d == self,
            r matches Ok(p) ==> p.boot_id@ == self.boot_id@ && p.projection_revision == self.projection_revision
                && p.base_surface_revision == self.base_surface_revision && p.surface_revision == self.surface_revision
                && p.rows@ == self.spans@ && p.panes.deep_view() == self.legacy_panes(last.deep_view())
                && p.cursor.deep_view() == self.cursor.applied_view(last.frame.cursor.deep_view()),
    {
        if !same_text(&last.boot_id, &self.boot_id) || last.surface_revision != self.base_surface_revision
            || last.projection_revision != self.projection_revision || last.popup.is_some()
            || last.graphics.placements.len() != 0 || last.graphics.retained_assets.len() != 0
            || last.graphics.assets.len() != 0 || self.row_moves.len() != 0 || self.splits.is_some()
            || self.appended_hyperlinks.len() != 0 || self.graphics.is_some() || self.popup.is_some() {
            return Err(self);
        }
        let ghost lp = last.deep_view().panes;
        let mut panes: Vec<PaneSurfacePane> = Vec::new();
        let mut i: usize = 0;
        while i < self.panes.len()
            invariant
                i <= self.panes@.len(),
                lp == last.deep_view().panes,
                panes.deep_view() == self.legacy_panes(last.deep_view()).take(i as int),
                forall|q: int| 0 <= q < i ==> has_key::<PaneSurfacePane>(lp, (#[trigger] self.panes@[q]).pane_id@)
                    && spec_geometry_matches(
                        find_by_key::<PaneSurfacePane>(lp, self.panes@[q].pane_id@),
                        pane_delta_applied(find_by_key::<PaneSurfacePane>(lp, self.panes@[q].pane_id@), self.panes@[q]),
                    ),
            decreases self.panes@.len() - i,
        {
            let pane_delta = &self.panes[i];
            match position_of_key(&last.panes, &pane_delta.pane_id) {
                Some(p) => {
                    let base = &last.panes[p];
                    let mut updated = base.duplicate();
                    pane_delta.duplicate().apply_to(&mut updated);
                    if !pane_geometry_matches_legacy_patch(base, &updated) {
                        return Err(self);
                    }
                    let ghost before = panes.deep_view();
                    panes.push(updated);
                    proof {
                        assert(panes.deep_view() =~= before.push(updated.deep_view()));
                        assert(self.legacy_panes(last.deep_view()).take(i + 1) =~= self.legacy_panes(last.deep_view()).take(i as int).push(updated.deep_view()));
                    }
                },
                None => {
                    return Err(self);
                },
            }
            i += 1;
        }
        let mut k: usize = 0;
        while k < self.spans.len()
            invariant
                k <= self.spans@.len(),
                lp == last.deep_view().panes,
                forall|q: int| 0 <= q < k ==> span_hits_some_pane(#[trigger] self.spans@[q], lp),
            decreases self.spans@.len() - k,
        {
            if !span_hits_any_pane(&self.spans[k], &last.panes) {
                return Err(self);
            }
            k += 1;
        }
        let cursor = match &self.cursor {
            SurfaceFieldUpdate::Unchanged => last.frame.cursor.duplicate(),
            SurfaceFieldUpdate::Changed(c) => c.duplicate(),
        };
        proof {
            assert(self.legacy_panes(last.deep_view()).take(self.panes@.len() as int) =~= self.legacy_panes(last.deep_view()));
        }
        Ok(PaneSurfacePatch {
            boot_id: self.boot_id,
            projection_revision: self.projection_revision,
            base_surface_revision: self.base_surface_revision,
            surface_revision: self.surface_revision,
            rows: self.spans,
            panes,
            cursor,
        })
    }
}

/// Bytes of the UTF-8 encoding of a string, as `str::len` reports them.
pub open spec fn utf8_len(s: Seq<char>) -> int {
    (vstd::utf8::encode_utf8(s).len() as usize) as int
}

/// Bytes a hyperlink table grows by: for each appended link its UTF-8 length
/// plus the size of a `String`, saturated at `usize::MAX`.
pub open spec fn hyperlink_growth(links: Seq<String>) -> int
    decreases links.len(),
{
    if links.len() == 0 {
        0
    } else {
        hyperlink_growth(links.drop_last()) + sat_usize(utf8_len(links.last()@), vstd::layout::size_of::<String>() as int)
    }
}



/// A span is short enough for a `u16` length and lies inside a grid of the given size.
pub open spec fn span_in_grid(span: PaneSurfacePatchRow, width: int, height: int) -> bool {
    let len = span.cells@.len() as int;
    &&& len <= 65535
    &&& span.y < height
    &&& sat16(span.x as int, len) <= width
}

fn check_span_in_grid(span: &PaneSurfacePatchRow, width: u16, height: u16) -> (r: bool)
    ensures
        r == span_in_grid(*span, width as int, height as int),
{
    if span.cells.len() > 65535 {
        return false;
    }
    let len = span.cells.len() as u16;
    span.y < height && span.x.saturating_add(len) <= width
}

/// A row move names a pane lying inside the frame, and its source and
/// destination rows stay inside that pane.
pub open spec fn row_move_ok(s: PaneSurfaceFrameModel, mv: PaneRowMove) -> bool {
    &&& mv.count != 0
    &&& has_key::<PaneSurfacePane>(s.panes, mv.pane_id@)
    &&& {
        let p = find_by_key::<PaneSurfacePane>(s.panes, mv.pane_id@);
        let top = p.inner_rect.y as int;
        let bottom = sat16(p.inner_rect.y as int, p.inner_rect.height as int);
        &&& sat16(p.inner_rect.x as int, p.inner_rect.width as int) <= s.frame.width
        &&& bottom <= s.frame.height
        &&& mv.src_y >= top
        &&& sat16(mv.src_y as int, mv.count as int) <= bottom
        &&& mv.dst_y >= top
        &&& sat16(mv.dst_y as int, mv.count as int) <= bottom
    }
}

/// An asset key is in the scene's assets or retained keys.
pub open spec fn asset_known(scene: SurfaceGraphicsSceneModel, k: SurfaceGraphicsAssetKeyModel) -> bool {
    (exists|j: int| 0 <= j < scene.assets.len() && (#[trigger] scene.assets[j]).key == k) || scene.retained_assets.contains(k)
}

/// A placement of the scene has the key's asset and placement ID.
pub open spec fn placement_matches(p: SurfaceGraphicsPlacementModel, k: SurfaceGraphicsPlacementKey) -> bool {
    p.asset == k.asset.deep_view() && p.logical_placement_id == k.logical_placement_id
}

pub open spec fn placement_known(scene: SurfaceGraphicsSceneModel, k: SurfaceGraphicsPlacementKey) -> bool {
    exists|j: int| 0 <= j < scene.placements.len() && placement_matches(#[trigger] scene.placements[j], k)
}

/// Added assets carry as many bytes as their keys say; removed assets and
/// placements exist in the scene.
pub open spec fn graphics_delta_ok(gd: Option<SurfaceGraphicsDelta>, scene: SurfaceGraphicsSceneModel) -> bool {
    match gd {
        None => true,
        Some(g) => graphics_changes_ok(g, scene),
    }
}

pub open spec fn graphics_changes_ok(g: SurfaceGraphicsDelta, scene: SurfaceGraphicsSceneModel) -> bool {
    &&& forall|i: int| 0 <= i < g.added_assets@.len() ==> (#[trigger] g.added_assets@[i]).data@.len() == g.added_assets@[i].key.data_len
    &&& forall|i: int| 0 <= i < g.removed_assets@.len() ==> asset_known(scene, (#[trigger] g.removed_assets@[i]).deep_view())
    &&& forall|i: int| 0 <= i < g.removed_placements@.len() ==> placement_known(scene, #[trigger] g.removed_placements@[i])
}

/// A popup delta that neither clears nor reseeds needs a popup, stays within
/// the hyperlink budget, and keeps its spans and hyperlinks inside the popup.
pub open spec fn popup_delta_ok(pd: Option<ClientShellPopupDelta>, popup: Option<ClientShellPopupSurfaceModel>) -> bool {
    match pd {
        None => true,
        Some(d) => popup_changes_ok(d, popup),
    }
}

pub open spec fn popup_changes_ok(d: ClientShellPopupDelta, popup: Option<ClientShellPopupSurfaceModel>) -> bool {
    d.clear || d.seed is Some || (popup is Some && popup_spans_ok(d, popup->0))
}

/// The popup delta's hyperlinks fit the budget, and its spans and their
/// hyperlinks lie inside the popup.
pub open spec fn popup_spans_ok(d: ClientShellPopupDelta, p: ClientShellPopupSurfaceModel) -> bool {
    &&& hyperlink_growth(d.appended_hyperlinks@) <= MAX_FRAME_SIZE
    &&& forall|i: int| 0 <= i < d.spans@.len() ==> span_in_grid(#[trigger] d.spans@[i], p.frame.width as int, p.frame.height as int)
        && hyperlinks_below(d.spans@[i].cells.deep_view(), sat_usize(p.frame.hyperlinks.len() as int, d.appended_hyperlinks@.len() as int))
}

fn check_asset_known(scene: &SurfaceGraphicsScene, k: &SurfaceGraphicsAssetKey) -> (r: bool)
    ensures
        r == asset_known(scene.deep_view(), k.deep_view()),
{
    let mut j: usize = 0;
    while j < scene.assets.len()
        invariant
            j <= scene.assets.len(),
            forall|q: int| 0 <= q < j ==> (#[trigger] scene.deep_view().assets[q]).key != k.deep_view(),
        decreases scene.assets.len() - j,
    {
        if scene.assets[j].key.same(k) {
            assert(scene.deep_view().assets[j as int].key == k.deep_view());
            return true;
        }
        j += 1;
    }
    let mut m: usize = 0;
    while m < scene.retained_assets.len()
        invariant
            m <= scene.retained_assets.len(),
            forall|q: int| 0 <= q < scene.deep_view().assets.len() ==> (#[trigger] scene.deep_view().assets[q]).key != k.deep_view(),
            forall|q: int| 0 <= q < m ==> (#[trigger] scene.deep_view().retained_assets[q]) != k.deep_view(),
        decreases scene.retained_assets.len() - m,
    {
        if scene.retained_assets[m].same(k) {
            assert(scene.deep_view().retained_assets[m as int] == k.deep_view());
            return true;
        }
        m += 1;
    }
    false
}

fn check_placement_known(scene: &SurfaceGraphicsScene, k: &SurfaceGraphicsPlacementKey) -> (r: bool)
    ensures
        r == placement_known(scene.deep_view(), *k),
{
    let mut j: usize = 0;
    while j < scene.placements.len()
        invariant
            j <= scene.placements.len(),
            forall|q: int| 0 <= q < j ==> !placement_matches(#[trigger] scene.deep_view().placements[q], *k),
        decreases scene.placements.len() - j,
    {
        let p = &scene.placements[j];
        if p.asset.same(&k.asset) && p.logical_placement_id == k.logical_placement_id {
            assert(placement_matches(scene.deep_view().placements[j as int], *k));
            return true;
        }
        j += 1;
    }
    false
}

/// The message of the first added asset, from index `i` on, whose data is
/// not as long as its key says.
pub open spec fn asset_length_error(assets: Seq<SurfaceGraphicsAsset>, i: int) -> Seq<char>
    decreases assets.len() - i,
{
    if i < 0 || i >= assets.len() {
        Seq::empty()
    } else if assets[i].data@.len() != assets[i].key.data_len {
        "graphics asset data length mismatch: key data_len "@ + num(assets[i].key.data_len as int) + " != data len "@
            + num(assets[i].data@.len() as int)
    } else {
        asset_length_error(assets, i + 1)
    }
}

/// The message a graphics delta is refused with.
pub open spec fn graphics_error(g: SurfaceGraphicsDelta, scene: SurfaceGraphicsSceneModel) -> Seq<char> {
    if !(forall|i: int| 0 <= i < g.added_assets@.len() ==> (#[trigger] g.added_assets@[i]).data@.len() == g.added_assets@[i].key.data_len) {
        asset_length_error(g.added_assets@, 0)
    } else if !(forall|i: int| 0 <= i < g.removed_assets@.len() ==> asset_known(scene, (#[trigger] g.removed_assets@[i]).deep_view())) {
        "graphics delta removes unknown asset key"@
    } else {
        "graphics delta removes unknown placement key"@
    }
}

fn check_graphics_delta(g: &SurfaceGraphicsDelta, scene: &SurfaceGraphicsScene) -> (r: Result<(), String>)
    ensures
        r is Ok <==> graphics_changes_ok(*g, scene.deep_view()),
        r matches Err(e) ==> e@ == graphics_error(*g, scene.deep_view()),
{
    let mut i: usize = 0;
    while i < g.added_assets.len()
        invariant
            i <= g.added_assets@.len(),
            forall|q: int| 0 <= q < i ==> (#[trigger] g.added_assets@[q]).data@.len() == g.added_assets@[q].key.data_len,
            asset_length_error(g.added_assets@, 0) == asset_length_error(g.added_assets@, i as int),
        decreases g.added_assets@.len() - i,
    {
        let add = &g.added_assets[i];
        if add.data.len() as u64 != add.key.data_len {
            let mut msg = String::from_str("graphics asset data length mismatch: key data_len ");
            push_decimal(&mut msg, add.key.data_len);
            msg.append(" != data len ");
            push_decimal(&mut msg, add.data.len() as u64);
            assert(g.added_assets@[i as int].data@.len() != g.added_assets@[i as int].key.data_len);
            return Err(msg);
        }
        assert(asset_length_error(g.added_assets@, i as int) == asset_length_error(g.added_assets@, i + 1));
        i += 1;
    }
    let mut j: usize = 0;
    while j < g.removed_assets.len()
        invariant
            j <= g.removed_assets@.len(),
            forall|q: int| 0 <= q < g.added_assets@.len() ==> (#[trigger] g.added_assets@[q]).data@.len() == g.added_assets@[q].key.data_len,
            forall|q: int| 0 <= q < j ==> asset_known(scene.deep_view(), (#[trigger] g.removed_assets@[q]).deep_view()),
        decreases g.removed_assets@.len() - j,
    {
        if !check_asset_known(scene, &g.removed_assets[j]) {
            assert(!asset_known(scene.deep_view(), g.removed_assets@[j as int].deep_view()));
            return Err(String::from_str("graphics delta removes unknown asset key"));
        }
        j += 1;
    }
    let mut m: usize = 0;
    while m < g.removed_placements.len()
        invariant
            m <= g.removed_placements@.len(),
            forall|q: int| 0 <= q < g.added_assets@.len() ==> (#[trigger] g.added_assets@[q]).data@.len() == g.added_assets@[q].key.data_len,
            forall|q: int| 0 <= q < g.removed_assets@.len() ==> asset_known(scene.deep_view(), (#[trigger] g.removed_assets@[q]).deep_view()),
            forall|q: int| 0 <= q < m ==> placement_known(scene.deep_view(), #[trigger] g.removed_placements@[q]),
        decreases g.removed_placements@.len() - m,
    {
        if !check_placement_known(scene, &g.removed_placements[m]) {
            assert(!placement_known(scene.deep_view(), g.removed_placements@[m as int]));
            return Err(String::from_str("graphics delta removes unknown placement key"));
        }
        m += 1;
    }
    Ok(())
}

/// The message a popup span is refused with.
pub open spec fn popup_span_error(sp: PaneSurfacePatchRow, width: int, height: int, table_len: int) -> Seq<char> {
    let len = sp.cells@.len() as int;
    if len > 65535 {
        "popup span cell length overflow"@
    } else if sp.y >= height || sat16(sp.x as int, len) > width {
        "popup span out of popup bounds: at ("@ + num(sp.x as int) + ", "@ + num(sp.y as int) + ") len "@ + num(len)
            + " popup ("@ + num(width) + "x"@ + num(height) + ")"@
    } else {
        "invalid hyperlink index "@ + num(first_bad_link(sp.cells.deep_view(), table_len, 0)) + " in popup span (table len "@
            + num(table_len) + ")"@
    }
}

/// The message of the first popup span, from index `i` on, that does not fit.
pub open spec fn popup_spans_error(spans: Seq<PaneSurfacePatchRow>, width: int, height: int, table_len: int, i: int) -> Seq<char>
    decreases spans.len() - i,
{
    if i < 0 || i >= spans.len() {
        Seq::empty()
    } else if !(span_in_grid(spans[i], width, height) && hyperlinks_below(spans[i].cells.deep_view(), table_len)) {
        popup_span_error(spans[i], width, height, table_len)
    } else {
        popup_spans_error(spans, width, height, table_len, i + 1)
    }
}

/// The message a popup delta that neither clears nor reseeds is refused with.
pub open spec fn popup_error(d: ClientShellPopupDelta, popup: Option<ClientShellPopupSurfaceModel>) -> Seq<char> {
    match popup {
        None => "popup delta spans provided for missing popup surface"@,
        Some(p) => if hyperlink_growth(d.appended_hyperlinks@) > MAX_FRAME_SIZE {
            "popup hyperlink table growth budget exceeded: "@ + num(hyperlink_growth(d.appended_hyperlinks@)) + " > "@ + num(
                MAX_FRAME_SIZE as int,
            )
        } else {
            popup_spans_error(
                d.spans@,
                p.frame.width as int,
                p.frame.height as int,
                sat_usize(p.frame.hyperlinks.len() as int, d.appended_hyperlinks@.len() as int),
                0,
            )
        },
    }
}

fn check_popup_delta(d: &ClientShellPopupDelta, popup: &Option<Box<ClientShellPopupSurface>>) -> (r: Result<(), String>)
    ensures
        r is Ok <==> popup_changes_ok(*d, popup.deep_view()),
        r matches Err(e) ==> e@ == popup_error(*d, popup.deep_view()),
{
    if d.clear || d.seed.is_some() {
        return Ok(());
    }
    let p = match popup {
        Some(p) => p,
        None => {
            return Err(String::from_str("popup delta spans provided for missing popup surface"));
        },
    };
    let ghost pm = p.deep_view();
    assert(popup.deep_view() == Some(pm));
    let growth = hyperlink_growth_total(&d.appended_hyperlinks);
    if growth > MAX_FRAME_SIZE as u128 {
        let mut msg = String::from_str("popup hyperlink table growth budget exceeded: ");
        push_decimal_wide(&mut msg, growth);
        msg.append(" > ");
        push_decimal(&mut msg, MAX_FRAME_SIZE as u64);
        return Err(msg);
    }
    let table_len = p.frame.hyperlinks.len().saturating_add(d.appended_hyperlinks.len());
    let ghost w = pm.frame.width as int;
    let ghost h = pm.frame.height as int;
    let mut i: usize = 0;
    while i < d.spans.len()
        invariant
            i <= d.spans@.len(),
            pm == p.deep_view(),
            popup.deep_view() == Some(pm),
            w == pm.frame.width as int,
            h == pm.frame.height as int,
            !d.clear,
            d.seed is None,
            hyperlink_growth(d.appended_hyperlinks@) <= MAX_FRAME_SIZE,
            table_len == sat_usize(pm.frame.hyperlinks.len() as int, d.appended_hyperlinks@.len() as int),
            forall|q: int| 0 <= q < i ==> span_in_grid(#[trigger] d.spans@[q], w, h)
                && hyperlinks_below(d.spans@[q].cells.deep_view(), table_len as int),
            popup_spans_error(d.spans@, w, h, table_len as int, 0) == popup_spans_error(d.spans@, w, h, table_len as int, i as int),
        decreases d.spans@.len() - i,
    {
        let span = &d.spans[i];
        if span.cells.len() > 65535 {
            assert(!span_in_grid(d.spans@[i as int], w, h));
            return Err(String::from_str("popup span cell length overflow"));
        }
        if !check_span_in_grid(span, p.frame.width, p.frame.height) {
            assert(!span_in_grid(d.spans@[i as int], w, h));
            let len = span.cells.len() as u16;
            let mut msg = String::from_str("popup span out of popup bounds: at (");
            push_decimal(&mut msg, span.x as u64);
            msg.append(", ");
            push_decimal(&mut msg, span.y as u64);
            msg.append(") len ");
            push_decimal(&mut msg, len as u64);
            msg.append(" popup (");
            push_decimal(&mut msg, p.frame.width as u64);
            msg.append("x");
            push_decimal(&mut msg, p.frame.height as u64);
            msg.append(")");
            return Err(msg);
        }
        match bad_link_index(&span.cells, table_len) {
            Some(idx) => {
                assert(!hyperlinks_below(d.spans@[i as int].cells.deep_view(), table_len as int));
                let mut msg = String::from_str("invalid hyperlink index ");
                push_decimal(&mut msg, idx as u64);
                msg.append(" in popup span (table len ");
                push_decimal(&mut msg, table_len as u64);
                msg.append(")");
                return Err(msg);
            },
            None => {},
        }
        assert(popup_spans_error(d.spans@, w, h, table_len as int, i as int) == popup_spans_error(d.spans@, w, h, table_len as int, i + 1));
        i += 1;
    }
    Ok(())
}

/// The message a row move is refused with.
pub open spec fn row_move_error(s: PaneSurfaceFrameModel, mv: PaneRowMove) -> Seq<char> {
    if mv.count == 0 {
        "row move count is zero"@
    } else if !has_key::<PaneSurfacePane>(s.panes, mv.pane_id@) {
        "row move unknown pane: "@ + mv.pane_id@
    } else {
        let p = find_by_key::<PaneSurfacePane>(s.panes, mv.pane_id@);
        let top = p.inner_rect.y as int;
        let bottom = sat16(p.inner_rect.y as int, p.inner_rect.height as int);
        if sat16(p.inner_rect.x as int, p.inner_rect.width as int) > s.frame.width || bottom > s.frame.height {
            "pane "@ + p.pane_id + " rect outside frame dimensions ("@ + num(s.frame.width as int) + "x"@ + num(
                s.frame.height as int,
            ) + ")"@
        } else {
            "row move out of pane bounds: src "@ + num(mv.src_y as int) + " dst "@ + num(mv.dst_y as int) + " count "@
                + num(mv.count as int) + " pane ["@ + num(top) + ".."@ + num(bottom) + "]"@
        }
    }
}

fn check_row_move(mv: &PaneRowMove, surface: &PaneSurfaceFrame) -> (r: Result<(), String>)
    ensures
        r is Ok <==> row_move_ok(surface.deep_view(), *mv),
        r matches Err(e) ==> e@ == row_move_error(surface.deep_view(), *mv),
{
    if mv.count == 0 {
        return Err(String::from_str("row move count is zero"));
    }
    let idx = match position_of_key(&surface.panes, &mv.pane_id) {
        Some(i) => i,
        None => {
            let mut msg = String::from_str("row move unknown pane: ");
            msg.append(mv.pane_id.as_str());
            return Err(msg);
        },
    };
    let pane = &surface.panes[idx];
    let pane_top = pane.inner_rect.y;
    let pane_bottom = pane.inner_rect.y.saturating_add(pane.inner_rect.height);
    let pane_right = pane.inner_rect.x.saturating_add(pane.inner_rect.width);
    if pane_right > surface.frame.width || pane_bottom > surface.frame.height {
        let mut msg = String::from_str("pane ");
        msg.append(pane.pane_id.as_str());
        msg.append(" rect outside frame dimensions (");
        push_decimal(&mut msg, surface.frame.width as u64);
        msg.append("x");
        push_decimal(&mut msg, surface.frame.height as u64);
        msg.append(")");
        return Err(msg);
    }
    if mv.src_y < pane_top || mv.src_y.saturating_add(mv.count) > pane_bottom || mv.dst_y < pane_top
        || mv.dst_y.saturating_add(mv.count) > pane_bottom {
        let mut msg = String::from_str("row move out of pane bounds: src ");
        push_decimal(&mut msg, mv.src_y as u64);
        msg.append(" dst ");
        push_decimal(&mut msg, mv.dst_y as u64);
        msg.append(" count ");
        push_decimal(&mut msg, mv.count as u64);
        msg.append(" pane [");
        push_decimal(&mut msg, pane_top as u64);
        msg.append("..");
        push_decimal(&mut msg, pane_bottom as u64);
        msg.append("]");
        return Err(msg);
    }
    Ok(())
}

/// The message of the first row move, from index `i` on, that does not fit.
pub open spec fn row_moves_error(s: PaneSurfaceFrameModel, moves: Seq<PaneRowMove>, i: int) -> Seq<char>
    decreases moves.len() - i,
{
    if i < 0 || i >= moves.len() {
        Seq::empty()
    } else if !row_move_ok(s, moves[i]) {
        row_move_error(s, moves[i])
    } else {
        row_moves_error(s, moves, i + 1)
    }
}

/// The message a span of the frame is refused with.
pub open spec fn span_error(sp: PaneSurfacePatchRow, width: int, height: int) -> Seq<char> {
    let len = sp.cells@.len() as int;
    if len == 0 {
        "span has empty cells"@
    } else if len > 65535 {
        "span cell length overflow"@
    } else {
        "span out of frame bounds: at ("@ + num(sp.x as int) + ", "@ + num(sp.y as int) + ") len "@ + num(len)
            + " frame ("@ + num(width) + "x"@ + num(height) + ")"@
    }
}

/// The message of the first span, from index `i` on, that is empty or does
/// not fit the frame.
pub open spec fn spans_error(spans: Seq<PaneSurfacePatchRow>, width: int, height: int, i: int) -> Seq<char>
    decreases spans.len() - i,
{
    if i < 0 || i >= spans.len() {
        Seq::empty()
    } else if !(spans[i].cells@.len() > 0 && span_in_grid(spans[i], width, height)) {
        span_error(spans[i], width, height)
    } else {
        spans_error(spans, width, height, i + 1)
    }
}

/// The message of the first pane delta, from index `i` on, for a pane the
/// surface does not have.
pub open spec fn pane_refs_error(s: PaneSurfaceFrameModel, panes: Seq<PaneSurfacePaneDelta>, i: int) -> Seq<char>
    decreases panes.len() - i,
{
    if i < 0 || i >= panes.len() {
        Seq::empty()
    } else if !has_key::<PaneSurfacePane>(s.panes, panes[i].pane_id@) {
        "pane delta refers to unknown pane ID: "@ + panes[i].pane_id@
    } else {
        pane_refs_error(s, panes, i + 1)
    }
}

/// The message of the first span, from index `i` on, with a hyperlink index
/// outside the grown table.
pub open spec fn span_links_error(spans: Seq<PaneSurfacePatchRow>, table_len: int, i: int) -> Seq<char>
    decreases spans.len() - i,
{
    if i < 0 || i >= spans.len() {
        Seq::empty()
    } else if !hyperlinks_below(spans[i].cells.deep_view(), table_len) {
        "invalid hyperlink index "@ + num(first_bad_link(spans[i].cells.deep_view(), table_len, 0)) + " in span (table len "@
            + num(table_len) + ")"@
    } else {
        span_links_error(spans, table_len, i + 1)
    }
}

impl ClientShellSurfaceDelta {
    /// The delta continues `s`: same boot, based on its revision, moving
    /// forward; row moves, spans, pane updates, hyperlinks, popup and graphics
    /// all fit the surface and scene.
    pub open spec fn valid_for(&self, s: PaneSurfaceFrameModel, scene: SurfaceGraphicsSceneModel) -> bool {
        let table_len = sat_usize(s.frame.hyperlinks.len() as int, self.appended_hyperlinks@.len() as int);
        &&& s.boot_id == self.boot_id@
        &&& s.surface_revision == self.base_surface_revision
        &&& self.base_surface_revision < self.surface_revision
        &&& s.projection_revision <= self.projection_revision
        &&& forall|i: int| 0 <= i < self.row_moves@.len() ==> row_move_ok(s, #[trigger] self.row_moves@[i])
        &&& forall|i: int| 0 <= i < self.spans@.len() ==> (#[trigger] self.spans@[i]).cells@.len() > 0
            && span_in_grid(self.spans@[i], s.frame.width as int, s.frame.height as int)
        &&& forall|i: int| 0 <= i < self.panes@.len() ==> has_key::<PaneSurfacePane>(s.panes, (#[trigger] self.panes@[i]).pane_id@)
        &&& hyperlink_growth(self.appended_hyperlinks@) <= MAX_FRAME_SIZE
        &&& forall|i: int| 0 <= i < self.spans@.len() ==> hyperlinks_below((#[trigger] self.spans@[i]).cells.deep_view(), table_len)
        &&& popup_delta_ok(self.popup, s.popup)
        &&& graphics_delta_ok(self.graphics, scene)
    }

    /// The message the delta is refused with against `s` and `scene`, by the
    /// first check it fails, in the order `validate` makes them.
    pub open spec fn error_for(&self, s: PaneSurfaceFrameModel, scene: SurfaceGraphicsSceneModel) -> Seq<char> {
        let table_len = sat_usize(s.frame.hyperlinks.len() as int, self.appended_hyperlinks@.len() as int);
        if s.boot_id != self.boot_id@ {
            "surface delta boot_id mismatch: surface "@ + s.boot_id + " != delta "@ + self.boot_id@
        } else if s.surface_revision != self.base_surface_revision {
            "surface delta base revision mismatch: surface "@ + num(s.surface_revision as int) + " != delta base "@ + num(
                self.base_surface_revision as int,
            )
        } else if self.surface_revision <= self.base_surface_revision {
            "surface delta revision does not advance"@
        } else if self.projection_revision < s.projection_revision {
            "surface delta projection revision is non-monotonic"@
        } else if !(forall|i: int| 0 <= i < self.row_moves@.len() ==> row_move_ok(s, #[trigger] self.row_moves@[i])) {
            row_moves_error(s, self.row_moves@, 0)
        } else if !(forall|i: int| 0 <= i < self.spans@.len() ==> (#[trigger] self.spans@[i]).cells@.len() > 0
            && span_in_grid(self.spans@[i], s.frame.width as int, s.frame.height as int)) {
            spans_error(self.spans@, s.frame.width as int, s.frame.height as int, 0)
        } else if !(forall|i: int| 0 <= i < self.panes@.len() ==> has_key::<PaneSurfacePane>(s.panes, (#[trigger] self.panes@[i]).pane_id@)) {
            pane_refs_error(s, self.panes@, 0)
        } else if hyperlink_growth(self.appended_hyperlinks@) > MAX_FRAME_SIZE {
            "hyperlink table growth budget exceeded: "@ + num(hyperlink_growth(self.appended_hyperlinks@)) + " > "@ + num(
                MAX_FRAME_SIZE as int,
            )
        } else if !(forall|i: int| 0 <= i < self.spans@.len() ==> hyperlinks_below((#[trigger] self.spans@[i]).cells.deep_view(), table_len)) {
            span_links_error(self.spans@, table_len, 0)
        } else if !popup_delta_ok(self.popup, s.popup) {
            popup_error(self.popup->0, s.popup)
        } else {
            graphics_error(self.graphics->0, scene)
        }
    }

    /// Checks the delta against the surface and graphics scene it is to be applied to.
    pub fn validate(&self, surface: &PaneSurfaceFrame, graphics_scene: &SurfaceGraphicsScene) -> (r: Result<(), String>)
        ensures
            r is Ok <==> self.valid_for(surface.deep_view(), graphics_scene.deep_view()),
            r matches Err(e) ==> e@ == self.error_for(surface.deep_view(), graphics_scene.deep_view()),
    {
        let ghost s = surface.deep_view();
        if !same_text(&surface.boot_id, &self.boot_id) {
            let mut msg = String::from_str("surface delta boot_id mismatch: surface ");
            msg.append(surface.boot_id.as_str());
            msg.append(" != delta ");
            msg.append(self.boot_id.as_str());
            return Err(msg);
        }
        if surface.surface_revision != self.base_surface_revision {
            let mut msg = String::from_str("surface delta base revision mismatch: surface ");
            push_decimal(&mut msg, surface.surface_revision);
            msg.append(" != delta base ");
            push_decimal(&mut msg, self.base_surface_revision);
            return Err(msg);
        }
        if self.surface_revision <= self.base_surface_revision {
            return Err(String::from_str("surface delta revision does not advance"));
        }
        if self.projection_revision < surface.projection_revision {
            return Err(String::from_str("surface delta projection revision is non-monotonic"));
        }
        let mut i: usize = 0;
        while i < self.row_moves.len()
            invariant
                i <= self.row_moves@.len(),
                s == surface.deep_view(),
                s.boot_id == self.boot_id@,
                s.surface_revision == self.base_surface_revision,
                self.base_surface_revision < self.surface_revision,
                s.projection_revision <= self.projection_revision,
                forall|q: int| 0 <= q < i ==> row_move_ok(s, #[trigger] self.row_moves@[q]),
                row_moves_error(s, self.row_moves@, 0) == row_moves_error(s, self.row_moves@, i as int),
            decreases self.row_moves@.len() - i,
        {
            check_row_move(&self.row_moves[i], surface)?;
            assert(row_moves_error(s, self.row_moves@, i as int) == row_moves_error(s, self.row_moves@, i + 1));
            i += 1;
        }
        let ghost w = s.frame.width as int;
        let ghost h = s.frame.height as int;
        let mut k: usize = 0;
        while k < self.spans.len()
            invariant
                k <= self.spans@.len(),
                s == surface.deep_view(),
                s.boot_id == self.boot_id@,
                s.surface_revision == self.base_surface_revision,
                self.base_surface_revision < self.surface_revision,
                s.projection_revision <= self.projection_revision,
                forall|q: int| 0 <= q < self.row_moves@.len() ==> row_move_ok(s, #[trigger] self.row_moves@[q]),
                w == s.frame.width as int,
                h == s.frame.height as int,
                forall|q: int| 0 <= q < k ==> (#[trigger] self.spans@[q]).cells@.len() > 0
                    && span_in_grid(self.spans@[q], w, h),
                spans_error(self.spans@, w, h, 0) == spans_error(self.spans@, w, h, k as int),
            decreases self.spans@.len() - k,
        {
            let span = &self.spans[k];
            if span.cells.len() == 0 {
                return Err(String::from_str("span has empty cells"));
            }
            if span.cells.len() > 65535 {
                return Err(String::from_str("span cell length overflow"));
            }
            if !check_span_in_grid(span, surface.frame.width, surface.frame.height) {
                let len = span.cells.len() as u16;
                let mut msg = String::from_str("span out of frame bounds: at (");
                push_decimal(&mut msg, span.x as u64);
                msg.append(", ");
                push_decimal(&mut msg, span.y as u64);
                msg.append(") len ");
                push_decimal(&mut msg, len as u64);
                msg.append(" frame (");
                push_decimal(&mut msg, surface.frame.width as u64);
                msg.append("x");
                push_decimal(&mut msg, surface.frame.height as u64);
                msg.append(")");
                return Err(msg);
            }
            assert(spans_error(self.spans@, w, h, k as int) == spans_error(self.spans@, w, h, k + 1));
            k += 1;
        }
        let mut m: usize = 0;
        while m < self.panes.len()
            invariant
                m <= self.panes@.len(),
                s == surface.deep_view(),
                s.boot_id == self.boot_id@,
                s.surface_revision == self.base_surface_revision,
                self.base_surface_revision < self.surface_revision,
                s.projection_revision <= self.projection_revision,
                forall|q: int| 0 <= q < self.row_moves@.len() ==> row_move_ok(s, #[trigger] self.row_moves@[q]),
                forall|q: int| 0 <= q < self.spans@.len() ==> (#[trigger] self.spans@[q]).cells@.len() > 0
                    && span_in_grid(self.spans@[q], s.frame.width as int, s.frame.height as int),
                forall|q: int| 0 <= q < m ==> has_key::<PaneSurfacePane>(s.panes, (#[trigger] self.panes@[q]).pane_id@),
                pane_refs_error(s, self.panes@, 0) == pane_refs_error(s, self.panes@, m as int),
            decreases self.panes@.len() - m,
        {
            if position_of_key(&surface.panes, &self.panes[m].pane_id).is_none() {
                let mut msg = String::from_str("pane delta refers to unknown pane ID: ");
                msg.append(self.panes[m].pane_id.as_str());
                return Err(msg);
            }
            assert(pane_refs_error(s, self.panes@, m as int) == pane_refs_error(s, self.panes@, m + 1));
            m += 1;
        }
        let growth = hyperlink_growth_total(&self.appended_hyperlinks);
        if growth > MAX_FRAME_SIZE as u128 {
            let mut msg = String::from_str("hyperlink table growth budget exceeded: ");
            push_decimal_wide(&mut msg, growth);
            msg.append(" > ");
            push_decimal(&mut msg, MAX_FRAME_SIZE as u64);
            return Err(msg);
        }
        let new_table_len = surface.frame.hyperlinks.len().saturating_add(self.appended_hyperlinks.len());
        let mut q: usize = 0;
        while q < self.spans.len()
            invariant
                q <= self.spans@.len(),
                s == surface.deep_view(),
                s.boot_id == self.boot_id@,
                s.surface_revision == self.base_surface_revision,
                self.base_surface_revision < self.surface_revision,
                s.projection_revision <= self.projection_revision,
                forall|q: int| 0 <= q < self.row_moves@.len() ==> row_move_ok(s, #[trigger] self.row_moves@[q]),
                forall|q: int| 0 <= q < self.spans@.len() ==> (#[trigger] self.spans@[q]).cells@.len() > 0
                    && span_in_grid(self.spans@[q], s.frame.width as int, s.frame.height as int),
                forall|q: int| 0 <= q < self.panes@.len() ==> has_key::<PaneSurfacePane>(s.panes, (#[trigger] self.panes@[q]).pane_id@),
                hyperlink_growth(self.appended_hyperlinks@) <= MAX_FRAME_SIZE,
                new_table_len == sat_usize(s.frame.hyperlinks.len() as int, self.appended_hyperlinks@.len() as int),
                forall|t: int| 0 <= t < q ==> hyperlinks_below((#[trigger] self.spans@[t]).cells.deep_view(), new_table_len as int),
                span_links_error(self.spans@, new_table_len as int, 0) == span_links_error(self.spans@, new_table_len as int, q as int),
            decreases self.spans@.len() - q,
        {
            match bad_link_index(&self.spans[q].cells, new_table_len) {
                Some(idx) => {
                    let mut msg = String::from_str("invalid hyperlink index ");
                    push_decimal(&mut msg, idx as u64);
                    msg.append(" in span (table len ");
                    push_decimal(&mut msg, new_table_len as u64);
                    msg.append(")");
                    return Err(msg);
                },
                None => {},
            }
            assert(span_links_error(self.spans@, new_table_len as int, q as int) == span_links_error(self.spans@, new_table_len as int, q + 1));
            q += 1;
        }
        if let Some(popup_delta) = &self.popup {
            check_popup_delta(popup_delta, &surface.popup)?;
        }
        if let Some(gfx_delta) = &self.graphics {
            check_graphics_delta(gfx_delta, graphics_scene)?;
        }
        Ok(())
    }
}

/// `cells` with the run starting at `start` replaced by `run`.
pub open spec fn write_run(cells: Seq<CellDataModel>, start: int, run: Seq<CellDataModel>) -> Seq<CellDataModel> {
    Seq::new(cells.len(), |k: int| if start <= k < start + run.len() { run[k - start] } else { cells[k] })
}

/// Writes the spans in order into a grid of the given width; a span that
/// would run past the last cell is skipped.
pub open spec fn spans_written(cells: Seq<CellDataModel>, spans: Seq<PaneSurfacePatchRow>, width: int) -> Seq<CellDataModel>
    decreases spans.len(),
{
    if spans.len() == 0 {
        cells
    } else {
        let before = spans_written(cells, spans.drop_last(), width);
        let sp = spans.last();
        let start = sp.y * width + sp.x;
        if start + sp.cells@.len() <= before.len() {
            write_run(before, start, sp.cells.deep_view())
        } else {
            before
        }
    }
}

/// `cells` with the `w` cells at `dst` replaced by the `w` cells at `src`.
pub open spec fn copy_run(cells: Seq<CellDataModel>, src: int, dst: int, w: int) -> Seq<CellDataModel> {
    Seq::new(cells.len(), |k: int| if dst <= k < dst + w { cells[k - dst + src] } else { cells[k] })
}

/// Moving rows up: the first `count` rows of the pane's columns copied from
/// `src` to `dst`, first row first; a copy that does not lie inside the cells
/// is skipped.
pub open spec fn rows_up(cells: Seq<CellDataModel>, width: int, left: int, w: int, src: int, dst: int, count: int) -> Seq<CellDataModel>
    decreases count,
{
    if count <= 0 {
        cells
    } else {
        let before = rows_up(cells, width, left, w, src, dst, count - 1);
        let s = (src + count - 1) * width + left;
        let d = (dst + count - 1) * width + left;
        if d < s && s + w <= before.len() {
            copy_run(before, s, d, w)
        } else {
            before
        }
    }
}

/// Moving rows down: rows `from..count` copied from `src` to `dst`, last row
/// first; a copy that does not lie inside the cells is skipped.
pub open spec fn rows_down(cells: Seq<CellDataModel>, width: int, left: int, w: int, src: int, dst: int, from: int, count: int) -> Seq<CellDataModel>
    decreases count - from,
{
    if from >= count {
        cells
    } else {
        let before = rows_down(cells, width, left, w, src, dst, from + 1, count);
        let s = (src + from) * width + left;
        let d = (dst + from) * width + left;
        if s < d && d + w <= before.len() {
            copy_run(before, s, d, w)
        } else {
            before
        }
    }
}

/// `count` rows of a pane's columns moved from `src` to `dst`.
pub open spec fn moved_rows(cells: Seq<CellDataModel>, width: int, left: int, w: int, src: int, dst: int, count: int) -> Seq<CellDataModel> {
    if dst < src {
        rows_up(cells, width, left, w, src, dst, count)
    } else if dst > src {
        rows_down(cells, width, left, w, src, dst, 0, count)
    } else {
        cells
    }
}

/// One row move, within the columns of the pane it names (none if unknown).
pub open spec fn row_move_applied(cells: Seq<CellDataModel>, panes: Seq<PaneSurfacePaneModel>, width: int, mv: PaneRowMove) -> Seq<CellDataModel> {
    if has_key::<PaneSurfacePane>(panes, mv.pane_id@) {
        let p = find_by_key::<PaneSurfacePane>(panes, mv.pane_id@);
        moved_rows(cells, width, p.inner_rect.x as int, p.inner_rect.width as int, mv.src_y as int, mv.dst_y as int, mv.count as int)
    } else {
        cells
    }
}

/// The row moves applied in order.
pub open spec fn row_moves_applied(cells: Seq<CellDataModel>, panes: Seq<PaneSurfacePaneModel>, width: int, moves: Seq<PaneRowMove>) -> Seq<CellDataModel>
    decreases moves.len(),
{
    if moves.len() == 0 {
        cells
    } else {
        row_move_applied(row_moves_applied(cells, panes, width, moves.drop_last()), panes, width, moves.last())
    }
}

proof fn lemma_cells_view(v: Vec<CellData>)
    ensures
        v.deep_view().len() == v@.len(),
        forall|i: int| 0 <= i < v@.len() ==> #[trigger] v.deep_view()[i] == v@[i].deep_view(),
{
}

proof fn lemma_set_cell(before: Vec<CellData>, after: Vec<CellData>, i: int, v: CellData)
    requires
        0 <= i < before@.len(),
        after@ == before@.update(i, v),
    ensures
        after.deep_view() == before.deep_view().update(i, v.deep_view()),
{
    assert(after.deep_view() =~= before.deep_view().update(i, v.deep_view()));
}

/// Copies `w` cells from `src` to `dst`, as if through a temporary buffer.
fn copy_cells(cells: &mut Vec<CellData>, src: usize, dst: usize, w: usize)
    requires
        src + w <= old(cells)@.len(),
        dst + w <= old(cells)@.len(),
    ensures
        final(cells).deep_view() == copy_run(old(cells).deep_view(), src as int, dst as int, w as int),
        final(cells)@.len() == old(cells)@.len(),
{
    proof {
        lemma_cells_view(*cells);
    }
    let n = cells.len();
    let ghost c0 = cells.deep_view();
    if dst < src {
        let mut k: usize = 0;
        while k < w
            invariant
                k <= w,
                dst < src,
                src + w <= c0.len(),
                dst + w <= c0.len(),
                c0.len() == n,
                cells@.len() == c0.len(),
                cells.deep_view() == Seq::new(c0.len(), |q: int| if dst <= q < dst + k { c0[q - dst + src] } else { c0[q] }),
            decreases w - k,
        {
            let ghost before = *cells;
            proof {
                lemma_cells_view(*cells);
            }
            let v = cells[src + k].duplicate();
            assert(v.deep_view() == cells.deep_view()[src + k]);
            cells.set(dst + k, v);
            proof {
                lemma_set_cell(before, *cells, dst + k, v);
                assert(cells.deep_view() =~= Seq::new(c0.len(), |q: int| if dst <= q < dst + k + 1 { c0[q - dst + src] } else { c0[q] }));
            }
            k += 1;
        }
    } else if src < dst {
        let mut j: usize = w;
        while j > 0
            invariant
                j <= w,
                src < dst,
                src + w <= c0.len(),
                dst + w <= c0.len(),
                c0.len() == n,
                cells@.len() == c0.len(),
                cells.deep_view() == Seq::new(c0.len(), |q: int| if dst + j <= q < dst + w { c0[q - dst + src] } else { c0[q] }),
            decreases j,
        {
            let ghost before = *cells;
            proof {
                lemma_cells_view(*cells);
            }
            let v = cells[src + j - 1].duplicate();
            assert(v.deep_view() == cells.deep_view()[src + j - 1]);
            cells.set(dst + j - 1, v);
            proof {
                lemma_set_cell(before, *cells, dst + j - 1, v);
                assert(cells.deep_view() =~= Seq::new(c0.len(), |q: int| if dst + j - 1 <= q < dst + w { c0[q - dst + src] } else { c0[q] }));
            }
            j -= 1;
        }
    }
    assert(cells.deep_view() =~= copy_run(c0, src as int, dst as int, w as int));
}

/// First cell of `row` in a grid of the given width, offset by `left`.
fn row_start(row: u64, width: u16, left: u16) -> (r: u64)
    requires
        row <= 131070,
    ensures
        r == row * width + left,
        r <= 131071 * 65535,
{
    assert(row * width <= 131070 * 65535) by (nonlinear_arith)
        requires
            row <= 131070,
            width <= 65535,
    ;
    assert(0 <= row * width) by (nonlinear_arith);
    row * (width as u64) + (left as u64)
}

/// Moves `count` rows of the columns `left..left + w` from `src` to `dst`.
fn move_rows(cells: &mut Vec<CellData>, width: u16, left: u16, w: u16, src: u16, dst: u16, count: u16)
    ensures
        final(cells).deep_view() == moved_rows(old(cells).deep_view(), width as int, left as int, w as int, src as int, dst as int, count as int),
        final(cells)@.len() == old(cells)@.len(),
{
    proof {
        lemma_cells_view(*cells);
    }
    let ghost c0 = cells.deep_view();
    if dst < src {
        let mut i: u16 = 0;
        while i < count
            invariant
                i <= count,
                dst < src,
                cells@.len() == c0.len(),
                cells.deep_view() == rows_up(c0, width as int, left as int, w as int, src as int, dst as int, i as int),
            decreases count - i,
        {
            let s = row_start(src as u64 + i as u64, width, left);
            let d = row_start(dst as u64 + i as u64, width, left);
            if d < s && s + (w as u64) <= cells.len() as u64 {
                copy_cells(cells, s as usize, d as usize, w as usize);
            }
            i += 1;
        }
    } else if dst > src {
        let mut i: u16 = count;
        while i > 0
            invariant
                i <= count,
                dst > src,
                cells@.len() == c0.len(),
                cells.deep_view() == rows_down(c0, width as int, left as int, w as int, src as int, dst as int, i as int, count as int),
            decreases i,
        {
            let s = row_start(src as u64 + i as u64 - 1, width, left);
            let d = row_start(dst as u64 + i as u64 - 1, width, left);
            if s < d && d + (w as u64) <= cells.len() as u64 {
                copy_cells(cells, s as usize, d as usize, w as usize);
            }
            i -= 1;
        }
    }
}

/// Index of the cell at column `x` of row `y` in a grid of the given width.
fn cell_index(y: u16, width: u16, x: u16) -> (r: usize)
    ensures
        r == y * width + x,
{
    assert(y * width <= 65535 * 65535) by (nonlinear_arith)
        requires
            y <= 65535,
            width <= 65535,
    ;
    assert(0 <= y * width) by (nonlinear_arith);
    (y as usize) * (width as usize) + (x as usize)
}

/// Writes the spans in order into a grid of the given width.
fn write_spans(cells: &mut Vec<CellData>, spans: &Vec<PaneSurfacePatchRow>, width: u16)
    ensures
        final(cells).deep_view() == spans_written(old(cells).deep_view(), spans@, width as int),
        final(cells)@.len() == old(cells)@.len(),
{
    proof {
        lemma_cells_view(*cells);
    }
    let ghost c0 = cells.deep_view();
    let mut i: usize = 0;
    while i < spans.len()
        invariant
            i <= spans@.len(),
            cells@.len() == c0.len(),
            cells.deep_view() == spans_written(c0, spans@.take(i as int), width as int),
        decreases spans@.len() - i,
    {
        proof {
            assert(spans@.take(i + 1).drop_last() =~= spans@.take(i as int));
            assert(spans@.take(i + 1).last() == spans@[i as int]);
        }
        let span = &spans[i];
        let start = cell_index(span.y, width, span.x);
        proof {
            lemma_cells_view(*cells);
        }
        let ghost b = cells.deep_view();
        let ghost run = span.cells.deep_view();
        let n = cells.len();
        assert(b == spans_written(c0, spans@.take(i + 1).drop_last(), width as int));
        assert(start + span.cells@.len() <= b.len() <==> start + span.cells@.len() <= n);
        if let Some(end) = start.checked_add(span.cells.len()) {
            if end <= n {
                let mut k: usize = 0;
                while k < span.cells.len()
                    invariant
                        k <= span.cells@.len(),
                        start + span.cells@.len() <= b.len(),
                        b.len() == n,
                        run == span.cells.deep_view(),
                        cells@.len() == b.len(),
                        cells.deep_view() == Seq::new(b.len(), |q: int| if start <= q < start + k { run[q - start] } else { b[q] }),
                    decreases span.cells@.len() - k,
                {
                    let ghost before = *cells;
                    let v = span.cells[k].duplicate();
                    cells.set(start + k, v);
                    proof {
                        lemma_set_cell(before, *cells, start + k, v);
                        assert(cells.deep_view() =~= Seq::new(b.len(), |q: int| if start <= q < start + k + 1 { run[q - start] } else { b[q] }));
                    }
                    k += 1;
                }
                assert(cells.deep_view() =~= write_run(b, start as int, run));
            }
        }
        i += 1;
    }
    assert(spans@.take(spans@.len() as int) =~= spans@);
}

/// Index of the first pane with the given ID.
pub open spec fn first_pane_index(panes: Seq<PaneSurfacePaneModel>, k: Seq<char>) -> int {
    choose|i: int| first_with_key::<PaneSurfacePane>(panes, k, i)
}

proof fn lemma_first_pane_index(panes: Seq<PaneSurfacePaneModel>, k: Seq<char>, i: int)
    requires
        first_with_key::<PaneSurfacePane>(panes, k, i),
    ensures
        first_pane_index(panes, k) == i,
{
    let c = first_pane_index(panes, k);
    assert(first_with_key::<PaneSurfacePane>(panes, k, c));
    if c < i {
        assert(PaneSurfacePane::view_key(panes[c]) != k);
    }
    if c > i {
        assert(PaneSurfacePane::view_key(panes[i]) != k);
    }
}

/// Pane updates applied in order, each to the first pane with its ID.
pub open spec fn pane_deltas_applied(panes: Seq<PaneSurfacePaneModel>, ds: Seq<PaneSurfacePaneDelta>) -> Seq<PaneSurfacePaneModel>
    decreases ds.len(),
{
    if ds.len() == 0 {
        panes
    } else {
        let before = pane_deltas_applied(panes, ds.drop_last());
        let d = ds.last();
        if has_key::<PaneSurfacePane>(before, d.pane_id@) {
            let i = first_pane_index(before, d.pane_id@);
            before.update(i, pane_delta_applied(before[i], d))
        } else {
            before
        }
    }
}

fn apply_pane_deltas(panes: &mut Vec<PaneSurfacePane>, ds: &Vec<PaneSurfacePaneDelta>)
    ensures
        final(panes).deep_view() == pane_deltas_applied(old(panes).deep_view(), ds@),
{
    let ghost p0 = panes.deep_view();
    let mut i: usize = 0;
    while i < ds.len()
        invariant
            i <= ds@.len(),
            panes.deep_view() == pane_deltas_applied(p0, ds@.take(i as int)),
        decreases ds@.len() - i,
    {
        proof {
            assert(ds@.take(i + 1).drop_last() =~= ds@.take(i as int));
            assert(ds@.take(i + 1).last() == ds@[i as int]);
        }
        let ghost b = panes.deep_view();
        match position_of_key(panes, &ds[i].pane_id) {
            Some(j) => {
                proof {
                    lemma_first_pane_index(b, ds@[i as int].pane_id@, j as int);
                }
                let mut p = panes[j].duplicate();
                ds[i].duplicate().apply_to(&mut p);
                let ghost before = *panes;
                panes.set(j, p);
                proof {
                    assert(panes.deep_view() =~= b.update(j as int, pane_delta_applied(b[j as int], ds@[i as int])));
                }
            },
            None => {},
        }
        i += 1;
    }
    assert(ds@.take(ds@.len() as int) =~= ds@);
}

/// Appends copies of `links` to `table`.
fn append_links(table: &mut Vec<String>, links: &Vec<String>)
    ensures
        final(table).deep_view() == old(table).deep_view() + links.deep_view(),
{
    let ghost t0 = table.deep_view();
    let mut i: usize = 0;
    while i < links.len()
        invariant
            i <= links@.len(),
            table.deep_view() == t0 + links.deep_view().take(i as int),
        decreases links@.len() - i,
    {
        let ghost before = table.deep_view();
        table.push(links[i].duplicate());
        proof {
            assert(table.deep_view() =~= before.push(links@[i as int]@));
            assert(links.deep_view().take(i + 1) =~= links.deep_view().take(i as int).push(links@[i as int]@));
        }
        i += 1;
    }
    assert(links.deep_view().take(links@.len() as int) =~= links.deep_view());
}

/// The popup after a popup delta: cleared, reseeded, or patched in place.
pub open spec fn popup_applied(popup: Option<ClientShellPopupSurfaceModel>, pd: Option<ClientShellPopupDelta>) -> Option<ClientShellPopupSurfaceModel> {
    match pd {
        None => popup,
        Some(d) => if d.clear {
            None
        } else if d.seed is Some {
            d.seed.deep_view()
        } else {
            match popup {
                None => None,
                Some(p) => Some(ClientShellPopupSurfaceModel {
                    frame: FrameDataModel {
                        cells: spans_written(p.frame.cells, d.spans@, p.frame.width as int),
                        width: p.frame.width,
                        height: p.frame.height,
                        cursor: d.cursor.applied_view(p.frame.cursor),
                        hyperlinks: p.frame.hyperlinks + d.appended_hyperlinks.deep_view(),
                        graphics: p.frame.graphics,
                    },
                    rect: p.rect,
                }),
            }
        },
    }
}

fn apply_popup_delta(popup: &mut Option<Box<ClientShellPopupSurface>>, d: &ClientShellPopupDelta)
    ensures
        final(popup).deep_view() == popup_applied(old(popup).deep_view(), Some(*d)),
{
    if d.clear {
        *popup = None;
    } else if let Some(seed) = &d.seed {
        *popup = Some(seed.duplicate());
    } else {
        let mut current: Option<Box<ClientShellPopupSurface>> = None;
        std::mem::swap(&mut current, popup);
        match current {
            Some(boxed) => {
                let mut p: ClientShellPopupSurface = *boxed;
                append_links(&mut p.frame.hyperlinks, &d.appended_hyperlinks);
                d.cursor.apply_to(&mut p.frame.cursor);
                let width = p.frame.width;
                write_spans(&mut p.frame.cells, &d.spans, width);
                *popup = Some(Box::new(p));
            },
            None => {},
        }
    }
}

/// The asset's key is not among the removed keys.
pub open spec fn asset_kept(removed: Seq<SurfaceGraphicsAssetKeyModel>) -> spec_fn(SurfaceGraphicsAssetModel) -> bool {
    |a: SurfaceGraphicsAssetModel| !removed.contains(a.key)
}

/// The placement matches none of the removed placement keys.
pub open spec fn placement_kept(removed: Seq<SurfaceGraphicsPlacementKey>) -> spec_fn(SurfaceGraphicsPlacementModel) -> bool {
    |p: SurfaceGraphicsPlacementModel| !exists|j: int| 0 <= j < removed.len() && placement_matches(p, #[trigger] removed[j])
}

/// Assets added in order, each unless an asset with its key is already present.
pub open spec fn assets_added(assets: Seq<SurfaceGraphicsAssetModel>, added: Seq<SurfaceGraphicsAssetModel>) -> Seq<SurfaceGraphicsAssetModel>
    decreases added.len(),
{
    if added.len() == 0 {
        assets
    } else {
        let before = assets_added(assets, added.drop_last());
        let a = added.last();
        if exists|j: int| 0 <= j < before.len() && (#[trigger] before[j]).key == a.key {
            before
        } else {
            before.push(a)
        }
    }
}

/// The graphics scene after a graphics delta.
pub open spec fn scene_applied(scene: SurfaceGraphicsSceneModel, gd: Option<SurfaceGraphicsDelta>) -> SurfaceGraphicsSceneModel {
    match gd {
        None => scene,
        Some(g) => SurfaceGraphicsSceneModel {
            assets: assets_added(scene.assets.filter(asset_kept(g.removed_assets.deep_view())), g.added_assets.deep_view()),
            placements: scene.placements.filter(placement_kept(g.removed_placements@)) + g.added_placements.deep_view(),
            retained_assets: g.retained_assets.deep_view(),
        },
    }
}

fn key_listed(keys: &Vec<SurfaceGraphicsAssetKey>, k: &SurfaceGraphicsAssetKey) -> (r: bool)
    ensures
        r == keys.deep_view().contains(k.deep_view()),
{
    let mut i: usize = 0;
    while i < keys.len()
        invariant
            i <= keys@.len(),
            forall|q: int| 0 <= q < i ==> keys.deep_view()[q] != k.deep_view(),
        decreases keys@.len() - i,
    {
        if keys[i].same(k) {
            assert(keys.deep_view()[i as int] == k.deep_view());
            return true;
        }
        i += 1;
    }
    false
}

fn placement_listed(keys: &Vec<SurfaceGraphicsPlacementKey>, p: &SurfaceGraphicsPlacement) -> (r: bool)
    ensures
        r == exists|j: int| 0 <= j < keys@.len() && placement_matches(p.deep_view(), #[trigger] keys@[j]),
{
    let mut i: usize = 0;
    while i < keys.len()
        invariant
            i <= keys@.len(),
            forall|q: int| 0 <= q < i ==> !placement_matches(p.deep_view(), #[trigger] keys@[q]),
        decreases keys@.len() - i,
    {
        if keys[i].asset.same(&p.asset) && keys[i].logical_placement_id == p.logical_placement_id {
            assert(placement_matches(p.deep_view(), keys@[i as int]));
            return true;
        }
        i += 1;
    }
    false
}

fn apply_graphics_delta(scene: &mut SurfaceGraphicsScene, g: &SurfaceGraphicsDelta)
    ensures
        final(scene).deep_view() == scene_applied(old(scene).deep_view(), Some(*g)),
{
    let ghost s0 = scene.deep_view();
    let ghost removed = g.removed_assets.deep_view();
    let mut assets: Vec<SurfaceGraphicsAsset> = Vec::new();
    let mut i: usize = 0;
    while i < scene.assets.len()
        invariant
            i <= scene.assets@.len(),
            s0 == scene.deep_view(),
            removed == g.removed_assets.deep_view(),
            assets.deep_view() == s0.assets.take(i as int).filter(asset_kept(removed)),
        decreases scene.assets@.len() - i,
    {
        proof {
            reveal(Seq::filter);
            assert(s0.assets.take(i + 1).drop_last() =~= s0.assets.take(i as int));
            assert(s0.assets.take(i + 1).last() == s0.assets[i as int]);
        }
        let ghost before = assets.deep_view();
        if !key_listed(&g.removed_assets, &scene.assets[i].key) {
            assets.push(scene.assets[i].duplicate());
            proof {
                assert(assets.deep_view() =~= before.push(s0.assets[i as int]));
            }
        }
        i += 1;
    }
    proof {
        assert(s0.assets.take(s0.assets.len() as int) =~= s0.assets);
    }
    let ghost kept = assets.deep_view();
    let mut a: usize = 0;
    while a < g.added_assets.len()
        invariant
            a <= g.added_assets@.len(),
            assets.deep_view() == assets_added(kept, g.added_assets.deep_view().take(a as int)),
        decreases g.added_assets@.len() - a,
    {
        proof {
            assert(g.added_assets.deep_view().take(a + 1).drop_last() =~= g.added_assets.deep_view().take(a as int));
            assert(g.added_assets.deep_view().take(a + 1).last() == g.added_assets@[a as int].deep_view());
        }
        let ghost before = assets.deep_view();
        let add = &g.added_assets[a];
        let mut present = false;
        let mut j: usize = 0;
        while j < assets.len()
            invariant
                j <= assets@.len(),
                before == assets.deep_view(),
                present == exists|q: int| 0 <= q < j && (#[trigger] before[q]).key == add.key.deep_view(),
            decreases assets@.len() - j,
        {
            if assets[j].key.same(&add.key) {
                assert(before[j as int].key == add.key.deep_view());
                present = true;
            }
            j += 1;
        }
        if !present {
            assets.push(add.duplicate());
            proof {
                assert(assets.deep_view() =~= before.push(add.deep_view()));
            }
        }
        a += 1;
    }
    proof {
        assert(g.added_assets.deep_view().take(g.added_assets@.len() as int) =~= g.added_assets.deep_view());
    }
    let mut placements: Vec<SurfaceGraphicsPlacement> = Vec::new();
    let mut m: usize = 0;
    while m < scene.placements.len()
        invariant
            m <= scene.placements@.len(),
            s0 == scene.deep_view(),
            placements.deep_view() == s0.placements.take(m as int).filter(placement_kept(g.removed_placements@)),
        decreases scene.placements@.len() - m,
    {
        proof {
            reveal(Seq::filter);
            assert(s0.placements.take(m + 1).drop_last() =~= s0.placements.take(m as int));
            assert(s0.placements.take(m + 1).last() == s0.placements[m as int]);
        }
        let ghost before = placements.deep_view();
        if !placement_listed(&g.removed_placements, &scene.placements[m]) {
            placements.push(scene.placements[m].duplicate());
            proof {
                assert(placements.deep_view() =~= before.push(s0.placements[m as int]));
            }
        }
        m += 1;
    }
    proof {
        assert(s0.placements.take(s0.placements.len() as int) =~= s0.placements);
    }
    let ghost kept_placements = placements.deep_view();
    let mut k: usize = 0;
    while k < g.added_placements.len()
        invariant
            k <= g.added_placements@.len(),
            placements.deep_view() == kept_placements + g.added_placements.deep_view().take(k as int),
        decreases g.added_placements@.len() - k,
    {
        let ghost before = placements.deep_view();
        placements.push(g.added_placements[k].duplicate());
        proof {
            assert(placements.deep_view() =~= before.push(g.added_placements@[k as int].deep_view()));
            assert(g.added_placements.deep_view().take(k + 1) =~= g.added_placements.deep_view().take(k as int).push(g.added_placements@[k as int].deep_view()));
        }
        k += 1;
    }
    proof {
        assert(g.added_placements.deep_view().take(g.added_placements@.len() as int) =~= g.added_placements.deep_view());
    }
    scene.assets = assets;
    scene.placements = placements;
    scene.retained_assets = g.retained_assets.duplicate();
}

impl ClientShellSurfaceDelta {
    /// The surface after applying a valid delta: hyperlinks appended,
    /// revisions advanced, row moves then spans written into the cells, pane
    /// updates, splits, cursor and popup applied.
    pub open spec fn applied_surface(&self, s: PaneSurfaceFrameModel) -> PaneSurfaceFrameModel {
        let width = s.frame.width as int;
        PaneSurfaceFrameModel {
            boot_id: s.boot_id,
            projection_revision: self.projection_revision,
            surface_revision: self.surface_revision,
            frame: FrameDataModel {
                cells: spans_written(row_moves_applied(s.frame.cells, s.panes, width, self.row_moves@), self.spans@, width),
                width: s.frame.width,
                height: s.frame.height,
                cursor: self.cursor.applied_view(s.frame.cursor),
                hyperlinks: s.frame.hyperlinks + self.appended_hyperlinks.deep_view(),
                graphics: s.frame.graphics,
            },
            panes: pane_deltas_applied(s.panes, self.panes@),
            splits: match self.splits {
                Some(v) => v.deep_view(),
                None => s.splits,
            },
            popup: popup_applied(s.popup, self.popup),
            graphics: s.graphics,
        }
    }

    /// The graphics scene after applying a valid delta.
    pub open spec fn applied_scene(&self, scene: SurfaceGraphicsSceneModel) -> SurfaceGraphicsSceneModel {
        scene_applied(scene, self.graphics)
    }

    /// Applies the delta to the surface and graphics scene. A refused delta
    /// leaves both unchanged.
    pub fn apply_to(&self, surface: &mut PaneSurfaceFrame, graphics_scene: &mut SurfaceGraphicsScene) -> (r: Result<(), String>)
        ensures
            r is Ok <==> self.valid_for(old(surface).deep_view(), old(graphics_scene).deep_view()),
            r is Ok ==> final(surface).deep_view() == self.applied_surface(old(surface).deep_view())
                && final(graphics_scene).deep_view() == self.applied_scene(old(graphics_scene).deep_view()),
            r is Err ==> *final(surface) == *old(surface) && *final(graphics_scene) == *old(graphics_scene),
            r matches Err(e) ==> e@ == self.error_for(old(surface).deep_view(), old(graphics_scene).deep_view()),
    {
        self.validate(surface, graphics_scene)?;
        let ghost s0 = surface.deep_view();
        append_links(&mut surface.frame.hyperlinks, &self.appended_hyperlinks);
        surface.projection_revision = self.projection_revision;
        surface.surface_revision = self.surface_revision;
        let width = surface.frame.width;
        let mut i: usize = 0;
        while i < self.row_moves.len()
            invariant
                i <= self.row_moves@.len(),
                surface.deep_view().panes == s0.panes,
                width == s0.frame.width,
                surface.deep_view().frame.cells == row_moves_applied(s0.frame.cells, s0.panes, width as int, self.row_moves@.take(i as int)),
                surface.deep_view().frame.width == s0.frame.width,
                surface.deep_view().frame.height == s0.frame.height,
                surface.deep_view().frame.cursor == s0.frame.cursor,
                surface.deep_view().frame.graphics == s0.frame.graphics,
                surface.deep_view().frame.hyperlinks == s0.frame.hyperlinks + self.appended_hyperlinks.deep_view(),
                surface.deep_view().boot_id == s0.boot_id,
                surface.deep_view().projection_revision == self.projection_revision,
                surface.deep_view().surface_revision == self.surface_revision,
                surface.deep_view().splits == s0.splits,
                surface.deep_view().popup == s0.popup,
                surface.deep_view().graphics == s0.graphics,
            decreases self.row_moves@.len() - i,
        {
            proof {
                assert(self.row_moves@.take(i + 1).drop_last() =~= self.row_moves@.take(i as int));
                assert(self.row_moves@.take(i + 1).last() == self.row_moves@[i as int]);
            }
            let mv = &self.row_moves[i];
            match position_of_key(&surface.panes, &mv.pane_id) {
                Some(p) => {
                    let left = surface.panes[p].inner_rect.x;
                    let w = surface.panes[p].inner_rect.width;
                    move_rows(&mut surface.frame.cells, width, left, w, mv.src_y, mv.dst_y, mv.count);
                },
                None => {},
            }
            i += 1;
        }
        proof {
            assert(self.row_moves@.take(self.row_moves@.len() as int) =~= self.row_moves@);
        }
        write_spans(&mut surface.frame.cells, &self.spans, width);
        apply_pane_deltas(&mut surface.panes, &self.panes);
        if let Some(splits) = &self.splits {
            surface.splits = splits.duplicate();
        }
        self.cursor.apply_to(&mut surface.frame.cursor);
        if let Some(popup_delta) = &self.popup {
            apply_popup_delta(&mut surface.popup, popup_delta);
        }
        if let Some(gfx_delta) = &self.graphics {
            apply_graphics_delta(graphics_scene, gfx_delta);
        }
        proof {
            assert(surface.deep_view().frame =~= self.applied_surface(s0).frame);
            assert(surface.deep_view() =~= self.applied_surface(s0));
        }
        Ok(())
    }
}

/// A surface delta is accepted at most once: after it has been applied, the
/// same delta no longer continues the surface it produced.
pub proof fn lemma_surface_delta_not_replayable(
    d: ClientShellSurfaceDelta,
    s: PaneSurfaceFrameModel,
    scene: SurfaceGraphicsSceneModel,
)
    requires
        d.valid_for(s, scene),
    ensures
        !d.valid_for(d.applied_surface(s), d.applied_scene(scene)),
{
}

/// Diff/apply round trip for pane metadata: the update computed between two
/// states of one pane turns the first into the second.
pub proof fn lemma_pane_delta_roundtrip(base: PaneSurfacePaneModel, next: PaneSurfacePaneModel, d: PaneSurfacePaneDelta)
    requires
        base.pane_id == next.pane_id,
        d.is_diff_of(base, next),
    ensures
        pane_delta_applied(base, d) == next,
{
}

/// The cell at column `col` of row `row` in a frame `width` cells wide.
pub open spec fn cell_at(cells: Seq<CellDataModel>, width: int, row: int, col: int) -> CellDataModel {
    cells[row * width + col]
}

/// `b` holds the same cells as `a` outside columns `left..left + w`.
pub open spec fn same_outside_columns(a: Seq<CellDataModel>, b: Seq<CellDataModel>, width: int, left: int, w: int) -> bool {
    &&& a.len() == b.len()
    &&& forall|row: int, col: int|
        0 <= row && 0 <= col < width && !(left <= col < left + w) && row * width + col < a.len()
            ==> #[trigger] cell_at(b, width, row, col) == cell_at(a, width, row, col)
}

proof fn lemma_outside_run(row: int, col: int, r: int, width: int, left: int, w: int)
    requires
        0 <= row,
        0 <= r,
        0 <= col < width,
        0 <= left,
        left + w <= width,
        !(left <= col < left + w),
    ensures
        !(r * width + left <= row * width + col < r * width + left + w),
{
    if row < r {
        assert((r - row) * width >= width) by (nonlinear_arith)
            requires
                r - row >= 1,
                width > 0;
        assert(r * width - row * width == (r - row) * width) by (nonlinear_arith);
    } else if row > r {
        assert((row - r) * width >= width) by (nonlinear_arith)
            requires
                row - r >= 1,
                width > 0;
        assert(row * width - r * width == (row - r) * width) by (nonlinear_arith);
    }
}

proof fn lemma_copy_run_outside(cells: Seq<CellDataModel>, s: int, r: int, width: int, left: int, w: int)
    requires
        0 <= r,
        0 <= left,
        0 <= w,
        left + w <= width,
    ensures
        same_outside_columns(cells, copy_run(cells, s, r * width + left, w), width, left, w),
{
    let out = copy_run(cells, s, r * width + left, w);
    assert forall|row: int, col: int|
        0 <= row && 0 <= col < width && !(left <= col < left + w) && row * width + col < cells.len()
        implies #[trigger] cell_at(out, width, row, col) == cell_at(cells, width, row, col) by {
        lemma_outside_run(row, col, r, width, left, w);
    }
}

proof fn lemma_same_outside_trans(a: Seq<CellDataModel>, b: Seq<CellDataModel>, c: Seq<CellDataModel>, width: int, left: int, w: int)
    requires
        same_outside_columns(a, b, width, left, w),
        same_outside_columns(b, c, width, left, w),
    ensures
        same_outside_columns(a, c, width, left, w),
{
    assert forall|row: int, col: int|
        0 <= row && 0 <= col < width && !(left <= col < left + w) && row * width + col < a.len()
        implies #[trigger] cell_at(c, width, row, col) == cell_at(a, width, row, col) by {
        assert(cell_at(b, width, row, col) == cell_at(a, width, row, col));
    }
}

proof fn lemma_rows_up_outside(cells: Seq<CellDataModel>, width: int, left: int, w: int, src: int, dst: int, count: int)
    requires
        0 <= left,
        0 <= w,
        left + w <= width,
        0 <= src,
        0 <= dst,
    ensures
        same_outside_columns(cells, rows_up(cells, width, left, w, src, dst, count), width, left, w),
    decreases count,
{
    if count <= 0 {
        assert(same_outside_columns(cells, cells, width, left, w));
    } else {
        lemma_rows_up_outside(cells, width, left, w, src, dst, count - 1);
        let before = rows_up(cells, width, left, w, src, dst, count - 1);
        let s = (src + count - 1) * width + left;
        let d = (dst + count - 1) * width + left;
        if d < s && s + w <= before.len() {
            lemma_copy_run_outside(before, s, dst + count - 1, width, left, w);
            lemma_same_outside_trans(cells, before, rows_up(cells, width, left, w, src, dst, count), width, left, w);
        }
    }
}

proof fn lemma_rows_down_outside(cells: Seq<CellDataModel>, width: int, left: int, w: int, src: int, dst: int, from: int, count: int)
    requires
        0 <= left,
        0 <= w,
        left + w <= width,
        0 <= src,
        0 <= dst,
        0 <= from,
    ensures
        same_outside_columns(cells, rows_down(cells, width, left, w, src, dst, from, count), width, left, w),
    decreases count - from,
{
    if from >= count {
        assert(same_outside_columns(cells, cells, width, left, w));
    } else {
        lemma_rows_down_outside(cells, width, left, w, src, dst, from + 1, count);
        let before = rows_down(cells, width, left, w, src, dst, from + 1, count);
        let s = (src + from) * width + left;
        let d = (dst + from) * width + left;
        if s < d && d + w <= before.len() {
            lemma_copy_run_outside(before, s, dst + from, width, left, w);
            lemma_same_outside_trans(cells, before, rows_down(cells, width, left, w, src, dst, from, count), width, left, w);
        }
    }
}

/// A row move stays inside the pane it names: every cell outside the
/// columns of that pane's inner rectangle keeps its content, and a move of
/// one row from `src` to `dst` copies that row's cells within those columns.
pub proof fn lemma_row_move_stays_in_pane(cells: Seq<CellDataModel>, panes: Seq<PaneSurfacePaneModel>, width: int, mv: PaneRowMove)
    requires
        has_key::<PaneSurfacePane>(panes, mv.pane_id@),
        find_by_key::<PaneSurfacePane>(panes, mv.pane_id@).inner_rect.x + find_by_key::<PaneSurfacePane>(
            panes,
            mv.pane_id@,
        ).inner_rect.width <= width,
    ensures
        ({
            let p = find_by_key::<PaneSurfacePane>(panes, mv.pane_id@);
            let left = p.inner_rect.x as int;
            let w = p.inner_rect.width as int;
            let out = row_move_applied(cells, panes, width, mv);
            &&& same_outside_columns(cells, out, width, left, w)
            &&& (mv.count == 1 && mv.src_y != mv.dst_y && (mv.src_y + 1) * width <= cells.len()
                && (mv.dst_y + 1) * width <= cells.len()) ==> forall|i: int| 0 <= i < w
                ==> #[trigger] cell_at(out, width, mv.dst_y as int, left + i) == cell_at(cells, width, mv.src_y as int, left + i)
        }),
{
    let p = find_by_key::<PaneSurfacePane>(panes, mv.pane_id@);
    let left = p.inner_rect.x as int;
    let w = p.inner_rect.width as int;
    let src = mv.src_y as int;
    let dst = mv.dst_y as int;
    let out = row_move_applied(cells, panes, width, mv);
    if dst < src {
        lemma_rows_up_outside(cells, width, left, w, src, dst, mv.count as int);
    } else if dst > src {
        lemma_rows_down_outside(cells, width, left, w, src, dst, 0, mv.count as int);
    } else {
        assert(same_outside_columns(cells, cells, width, left, w));
    }
    if w > 0 && mv.count == 1 && src != dst && (src + 1) * width <= cells.len() && (dst + 1) * width <= cells.len() {
        let s = src * width + left;
        let d = dst * width + left;
        assert(s + w <= cells.len()) by (nonlinear_arith)
            requires
                s == src * width + left,
                left + w <= width,
                (src + 1) * width <= cells.len();
        assert(d + w <= cells.len()) by (nonlinear_arith)
            requires
                d == dst * width + left,
                left + w <= width,
                (dst + 1) * width <= cells.len();
        if dst < src {
            assert(d < s) by (nonlinear_arith)
                requires
                    dst < src,
                    width > 0,
                    s == src * width + left,
                    d == dst * width + left;
            assert(rows_up(cells, width, left, w, src, dst, 0) == cells);
            assert(out == copy_run(cells, s, d, w));
        } else {
            assert(s < d) by (nonlinear_arith)
                requires
                    dst > src,
                    width > 0,
                    s == src * width + left,
                    d == dst * width + left;
            assert(rows_down(cells, width, left, w, src, dst, 1, 1) == cells);
            assert(out == copy_run(cells, s, d, w));
        }
        assert forall|i: int| 0 <= i < w implies #[trigger] cell_at(out, width, dst, left + i) == cell_at(cells, width, src, left + i) by {
            assert(dst * width + (left + i) == d + i);
            assert(src * width + (left + i) == s + i);
        }
    }
}

} // verus!
