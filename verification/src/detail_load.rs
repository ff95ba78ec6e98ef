//! Staged detail-load lifecycle state.

use vstd::prelude::*;

verus! {

/// Where a detail-view load currently stands.
#[derive(Debug, Clone, Copy, PartialEq, Eq, Structural)]
pub enum DetailLoadStage {
    Idle,
    Loading,
    PreviewWhileLoading,
    PreviewOnly,
}

/// Request counter, current stage and whether EXIF metadata is still loading.
#[derive(Debug, Clone, Copy)]
pub struct DetailLoadState {
    pub request_id: u64,
    pub stage: DetailLoadStage,
    pub exif_loading: bool,
}

/// `true` while the full-resolution image has not arrived yet.
pub open spec fn stage_is_loading(stage: DetailLoadStage) -> bool {
    stage == DetailLoadStage::Loading || stage == DetailLoadStage::PreviewWhileLoading
}

/// `true` while an embedded preview stands in for the full image.
pub open spec fn stage_shows_embedded_preview(stage: DetailLoadStage) -> bool {
    stage == DetailLoadStage::PreviewWhileLoading || stage == DetailLoadStage::PreviewOnly
}

impl DetailLoadState {
    /// The idle state with no request issued yet.
    pub fn new() -> (s: Self)
        ensures
            s.request_id == 0,
            s.stage == DetailLoadStage::Idle,
            !s.exif_loading,
    {
        DetailLoadState { request_id: 0, stage: DetailLoadStage::Idle, exif_loading: false }
    }

    /// Starts a new load and returns its request id.
    pub fn begin_request(&mut self) -> (id: u64)
        requires
            old(self).request_id < u64::MAX,
        ensures
            id == old(self).request_id + 1,
            final(self).request_id == id,
            final(self).stage == DetailLoadStage::Loading,
            final(self).exif_loading,
    {
        self.request_id = self.request_id + 1;
        self.stage = DetailLoadStage::Loading;
        self.exif_loading = true;
        self.request_id
    }

    /// Whether a completion tagged `request_id` belongs to the newest load.
    pub fn is_current_request(&self, request_id: u64) -> (b: bool)
        ensures
            b == (request_id == self.request_id),
    {
        request_id == self.request_id
    }

    pub fn is_loading(&self) -> (b: bool)
        ensures
            b == stage_is_loading(self.stage),
    {
        match self.stage {
            DetailLoadStage::Loading | DetailLoadStage::PreviewWhileLoading => true,
            _ => false,
        }
    }

    pub fn shows_embedded_preview(&self) -> (b: bool)
        ensures
            b == stage_shows_embedded_preview(self.stage),
    {
        match self.stage {
            DetailLoadStage::PreviewWhileLoading | DetailLoadStage::PreviewOnly => true,
            _ => false,
        }
    }

    pub fn on_preview_loaded(&mut self)
        ensures
            final(self).stage == DetailLoadStage::PreviewWhileLoading,
            final(self).request_id == old(self).request_id,
            final(self).exif_loading == old(self).exif_loading,
    {
        self.stage = DetailLoadStage::PreviewWhileLoading;
    }

    /// Marks the full image as arrived; returns whether the view should be
    /// reset (no preview was shown before it).
    pub fn on_full_image_loaded(&mut self) -> (reset_view: bool)
        ensures
            reset_view == (old(self).stage == DetailLoadStage::Loading),
            final(self).stage == DetailLoadStage::Idle,
            final(self).request_id == old(self).request_id,
            final(self).exif_loading == old(self).exif_loading,
    {
        let reset_view = match self.stage {
            DetailLoadStage::Loading => true,
            _ => false,
        };
        self.stage = DetailLoadStage::Idle;
        reset_view
    }

    /// The full image failed: keep a shown preview, otherwise go idle.
    pub fn on_full_image_failed(&mut self)
        ensures
            final(self).stage == (if stage_shows_embedded_preview(old(self).stage) {
                DetailLoadStage::PreviewOnly
            } else {
                DetailLoadStage::Idle
            }),
            final(self).request_id == old(self).request_id,
            final(self).exif_loading == old(self).exif_loading,
    {
        self.stage = if self.shows_embedded_preview() {
            DetailLoadStage::PreviewOnly
        } else {
            DetailLoadStage::Idle
        };
    }

    pub fn finish_exif(&mut self)
        ensures
            !final(self).exif_loading,
            final(self).stage == old(self).stage,
            final(self).request_id == old(self).request_id,
    {
        self.exif_loading = false;
    }

    /// Status-bar suffix describing the load stage.
    pub fn load_suffix(&self) -> (s: &'static str)
        ensures
            self.stage == DetailLoadStage::PreviewWhileLoading ==> s@ == "  •  Loading full resolution…"@,
            self.stage == DetailLoadStage::PreviewOnly ==> s@ == "  •  Embedded preview"@,
            (self.stage == DetailLoadStage::Idle || self.stage == DetailLoadStage::Loading)
                ==> s@ == ""@,
    {
        match self.stage {
            DetailLoadStage::PreviewWhileLoading => "  •  Loading full resolution…",
            DetailLoadStage::PreviewOnly => "  •  Embedded preview",
            DetailLoadStage::Idle | DetailLoadStage::Loading => "",
        }
    }

    /// Saving is refused while loading or while only a preview is shown.
    pub fn blocks_save(&self) -> (b: bool)
        ensures
            b == (stage_is_loading(self.stage) || stage_shows_embedded_preview(self.stage)),
    {
        self.is_loading() || self.shows_embedded_preview()
    }
}

} // verus!
