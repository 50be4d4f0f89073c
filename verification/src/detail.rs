//! The detail view: what becomes of the decodes that land, and the zoom.

use vstd::prelude::*;
use crate::effect::{Effect, EffectModel};
use crate::film::FilmPreset;
use crate::library::Thumb;
use crate::lru;
use crate::lru::{CacheKey, DetailKey};
use crate::message::{DetailMono, Point};
use crate::seqs;
use crate::single::Single;
use crate::state;
use crate::state::{AppModel, DetailState, Model, DETAIL_CACHE_CAPACITY};
use crate::text;

verus! {

/// Whether a finished decode is for the frame on screen and the one that was
/// started for it.
pub fn detail_result_is_current(
    selected: Option<&str>,
    inflight: Option<&str>,
    finished: &str,
) -> (r: bool)
    ensures
        r == (text::slice_of(selected) == Some(finished@) && text::slice_of(inflight) == Some(
            finished@,
        )),
{
    text::same_option(selected, Some(finished)) && text::same_option(inflight, Some(finished))
}

/// The zoom from which a picture is worth decoding at full size: twice the
/// whole frame, or the zoom that shows the picture pixel by pixel, if that
/// comes earlier.
pub open spec fn level_up_zoom(one_to_one: Single) -> Single {
    let threshold = Single { bits: 0x4000_0000 };
    if one_to_one.lt(threshold) {
        one_to_one
    } else {
        threshold
    }
}

/// The zoom from which a picture is worth decoding at full size.
pub fn native_level_up_zoom_for(one_to_one: Single) -> (r: Single)
    ensures
        r == level_up_zoom(one_to_one),
{
    let threshold: Single = Single { bits: 0x4000_0000 };
    if one_to_one.less(threshold) {
        one_to_one
    } else {
        threshold
    }
}

/// The thumbnail that a frame has.
pub open spec fn ready_thumb(m: Model, name: Seq<char>) -> Option<u64> {
    match m.tile_at(name) {
        Some(k) => match m.tiles[k].thumb {
            Thumb::Ready(picture) => Some(picture),
            _ => None,
        },
        None => None,
    }
}

impl Model {
    /// The state with an overview cached.
    #[verifier::opaque]
    pub open spec fn stored(
        self,
        dir: Seq<char>,
        preset: FilmPreset,
        name: Seq<char>,
        mono: DetailMono,
    ) -> Model {
        Model {
            detail_cache: lru::inserted(
                self.detail_cache,
                DETAIL_CACHE_CAPACITY as int,
                (dir, preset, name),
                mono,
            ),
            ..self
        }
    }

    /// The state with its zoom held to a cap.
    #[verifier::opaque]
    pub open spec fn zoom_held(self, cap: Single) -> Model {
        if cap.lt(self.detail.zoom) {
            Model { detail: DetailState { zoom: cap, ..self.detail }, ..self }
        } else {
            self
        }
    }

    /// The state with a landed picture on screen. The first picture of a frame
    /// is cached, and the frame's thumbnail stays over it for the crossfade; a
    /// picture that replaces one is the one at full size.
    #[verifier::opaque]
    pub open spec fn landed(
        self,
        name: Seq<char>,
        preset: FilmPreset,
        mono: DetailMono,
        cap: Single,
    ) -> Model {
        let fresh = self.detail.live is None;
        let kept = match self.active {
            Some(dir) if fresh => self.stored(dir, preset, name, mono),
            _ => self,
        };
        let covered = if fresh && ready_thumb(self, name) is Some {
            Model { detail: DetailState { thumb: ready_thumb(self, name), ..kept.detail }, ..kept }
        } else {
            kept
        };
        let shown = covered.installed(mono).zoom_held(cap);
        if fresh {
            shown
        } else {
            Model { detail: DetailState { native_queued: true, ..shown.detail }, ..shown }
        }
    }

    /// The state with a failed decode reported, once for each opened frame.
    #[verifier::opaque]
    pub open spec fn failure_reported(self, name: Seq<char>, reason: Seq<char>) -> Model {
        if self.detail_logged_failure == Some(name) {
            self
        } else {
            Model { detail_logged_failure: Some(name), ..self }.emitting(
                EffectModel::ReportDetailFailure { name, reason },
            )
        }
    }

    /// The state with a current decode shown or reported, and its slot free. At
    /// the first decode of a frame the crossfade starts over.
    #[verifier::opaque]
    pub open spec fn result_taken(
        self,
        name: Seq<char>,
        preset: FilmPreset,
        result: Result<DetailMono, String>,
        cap: Single,
    ) -> Model {
        let after = match result {
            Ok(mono) => self.landed(name, preset, mono, cap),
            Err(reason) => self.failure_reported(name, reason@),
        };
        Model {
            detail: if self.detail.live is None {
                DetailState {
                    thumb_opacity: Single { bits: 0x3f80_0000 },
                    fading: false,
                    ..after.detail
                }
            } else {
                after.detail
            },
            detail_inflight: None,
            ..after
        }
    }

    /// The state after a decode for the detail view finished. One that is no
    /// longer current only frees the slot; one that is current is shown or
    /// reported, and where the zoom has passed that of full size meanwhile, the
    /// decode at full size follows.
    #[verifier::opaque]
    pub open spec fn detail_finished(
        self,
        name: Seq<char>,
        preset: FilmPreset,
        result: Result<DetailMono, String>,
        cap: Single,
        one_to_one: Single,
    ) -> Model {
        if self.selected == Some(name) && self.detail_inflight == Some(name) {
            let free = self.result_taken(name, preset, result, cap);
            if result is Ok && !free.detail.native_queued && free.detail.zoom.ge(
                level_up_zoom(one_to_one),
            ) {
                free.detail_pumped()
            } else {
                free
            }
        } else {
            Model { detail_inflight: None, ..self }.detail_pumped()
        }
    }

    /// The state after a preload finished: its slot is free, and what it
    /// decoded is cached whatever is on screen.
    #[verifier::opaque]
    pub open spec fn preload_finished(
        self,
        dir: Seq<char>,
        name: Seq<char>,
        preset: FilmPreset,
        result: Result<DetailMono, String>,
    ) -> Model {
        let free = Model {
            detail_preload_inflight: seqs::without(self.detail_preload_inflight, (dir, name)),
            ..self
        };
        match result {
            Ok(mono) => free.stored(dir, preset, name, mono),
            Err(_) => free,
        }
    }

    /// The state after the wheel turned.
    #[verifier::opaque]
    pub open spec fn zoomed(self, zoom: Single, pan: Point, one_to_one: Single) -> Model {
        let moved = Model { detail: DetailState { zoom, pan, ..self.detail }, ..self };
        if self.detail_inflight is None && zoom.ge(level_up_zoom(one_to_one))
            && !self.detail.native_queued {
            moved.detail_pumped()
        } else {
            moved
        }
    }

    /// The state after the cursor moved over the picture: while it is grabbed,
    /// the picture follows.
    #[verifier::opaque]
    pub open spec fn cursor_moved(self, cursor: Point, pan: Point) -> Model {
        Model {
            detail: DetailState {
                cursor: Some(cursor),
                pan: if self.detail.panning && self.detail.cursor is Some {
                    pan
                } else {
                    self.detail.pan
                },
                ..self.detail
            },
            ..self
        }
    }

    /// The state after a tick of the crossfade; once the thumbnail cannot be
    /// seen it is dropped.
    #[verifier::opaque]
    pub open spec fn faded(self, opacity: Single) -> Model {
        Model {
            detail: DetailState {
                fading: true,
                thumb_opacity: opacity,
                thumb: if (Single { bits: 0 }).ge(opacity) {
                    None
                } else {
                    self.detail.thumb
                },
                ..self.detail
            },
            ..self
        }
    }

    /// The state with no picture of the open roll left that was decoded so
    /// far, on screen or under way.
    #[verifier::opaque]
    pub open spec fn detail_dropped(self) -> Model {
        Model {
            detail: self.detail.dropped(),
            detail_logged_failure: None,
            detail_inflight: None,
            detail_preload_inflight: Seq::empty(),
            ..self
        }
    }
}

/// Takes every occurrence of a pair out of a list.
fn remove_pair(list: &mut Vec<(String, String)>, dir: &str, name: &str)
    ensures
        state::pair_texts(final(list)@) == seqs::without(
            state::pair_texts(old(list)@),
            (dir@, name@),
        ),
{
    let ghost all = state::pair_texts(list@);
    let ghost test = seqs::other_than((dir@, name@));
    let mut rest: Vec<(String, String)> = Vec::new();
    std::mem::swap(&mut rest, list);
    let mut kept: Vec<(String, String)> = Vec::new();
    let ghost mut k: int = 0;
    proof {
        reveal(Seq::filter);
        assert(all.skip(0) =~= all);
        assert(all.take(0) =~= Seq::<(Seq<char>, Seq<char>)>::empty());
        assert(state::pair_texts(kept@) =~= all.take(0).filter(test));
    }
    while rest.len() > 0
        invariant
            0 <= k <= all.len(),
            test == seqs::other_than((dir@, name@)),
            state::pair_texts(rest@) == all.skip(k),
            state::pair_texts(kept@) == all.take(k).filter(test),
        decreases rest@.len(),
    {
        let ghost before = rest@;
        let ghost held = kept@;
        let item: (String, String) = rest.remove(0);
        proof {
            assert(state::pair_texts(before).len() == all.len() - k);
            assert(state::pair_texts(before)[0] == all.skip(k)[0]);
            assert((item.0@, item.1@) == all[k]);
            seqs::filter_one_more(all, test, k);
            assert forall|i: int| 0 <= i < rest@.len() implies state::pair_texts(rest@)[i]
                == all.skip(k + 1)[i] by {
                assert(state::pair_texts(before)[i + 1] == all.skip(k)[i + 1]);
            }
            assert(state::pair_texts(rest@) =~= all.skip(k + 1));
        }
        if !(text::same_text(item.0.as_str(), dir) && text::same_text(item.1.as_str(), name)) {
            kept.push(item);
            assert(state::pair_texts(kept@) =~= state::pair_texts(held).push((item.0@, item.1@)));
        }
        proof {
            k = k + 1;
        }
    }
    proof {
        assert(state::pair_texts(rest@).len() == all.len() - k);
        assert(all.take(k) =~= all);
    }
    *list = kept;
}

impl AppModel {
    /// Caches an overview.
    fn store(&mut self, dir: &str, preset: FilmPreset, name: &str, mono: DetailMono)
        requires
            old(self).well_formed(),
        ensures
            final(self).well_formed(),
            final(self)@ == old(self)@.stored(dir@, preset, name@, mono),
    {
        reveal(Model::stored);
        let key: DetailKey = DetailKey::new(dir, preset, name);
        let _evicted: Option<DetailMono> = self.detail_cache.insert(key, mono);
    }

    /// Holds the zoom to a cap.
    pub fn reclamp_detail_zoom(&mut self, cap: Single)
        requires
            old(self).well_formed(),
        ensures
            final(self).well_formed(),
            final(self)@ == old(self)@.zoom_held(cap),
            old(self)@.settled() ==> final(self)@.settled(),
    {
        reveal(Model::zoom_held);
        if cap.less(self.detail.zoom) {
            self.detail.zoom = cap;
        }
    }

    /// The thumbnail that a frame has.
    fn thumb_of(&self, name: &str) -> (r: Option<u64>)
        ensures
            r == ready_thumb(self@, name@),
    {
        match state::find_tile(self.tiles.as_slice(), name) {
            Some(k) => {
                assert(self@.tiles[k as int] == self.tiles@[k as int].model());
                match self.tiles[k].thumb {
                    Thumb::Ready(picture) => Some(picture),
                    _ => None,
                }
            },
            None => None,
        }
    }

    /// Puts a landed picture on screen.
    fn land(&mut self, name: &str, preset: FilmPreset, mono: DetailMono, cap: Single)
        requires
            old(self).well_formed(),
        ensures
            final(self).well_formed(),
            final(self)@ == old(self)@.landed(name@, preset, mono, cap),
    {
        reveal(Model::landed);
        let fresh: bool = self.detail.live.is_none();
        let thumb: Option<u64> = self.thumb_of(name);
        if fresh {
            let dir: Option<String> = text::clone_option(&self.active);
            match dir {
                Some(dir) => self.store(dir.as_str(), preset, name, mono),
                None => {},
            }
            if thumb.is_some() {
                self.detail.thumb = thumb;
            }
        }
        self.install(mono);
        self.reclamp_detail_zoom(cap);
        if !fresh {
            self.detail.native_queued = true;
        }
    }

    /// Reports a failed decode, once for each opened frame.
    fn report_failure(&mut self, name: &str, reason: String)
        requires
            old(self).well_formed(),
        ensures
            final(self).well_formed(),
            final(self)@ == old(self)@.failure_reported(name@, reason@),
    {
        reveal(Model::failure_reported);
        if text::same_option(text::as_slice(&self.detail_logged_failure), Some(name)) {
            return;
        }
        self.detail_logged_failure = Some(name.to_owned());
        self.emit(Effect::ReportDetailFailure { name: name.to_owned(), reason });
    }

    /// Shows or reports a current decode, and frees its slot.
    fn take_result(
        &mut self,
        name: &str,
        preset: FilmPreset,
        result: Result<DetailMono, String>,
        cap: Single,
    )
        requires
            old(self).well_formed(),
        ensures
            final(self).well_formed(),
            final(self)@ == old(self)@.result_taken(name@, preset, result, cap),
    {
        reveal(Model::result_taken);
        let fresh: bool = self.detail.live.is_none();
        match result {
            Ok(mono) => self.land(name, preset, mono, cap),
            Err(reason) => self.report_failure(name, reason),
        }
        if fresh {
            self.detail.thumb_opacity = Single { bits: 0x3f80_0000 };
            self.detail.fading = false;
        }
        self.detail_inflight = None;
    }

    /// Acts on a finished decode for the detail view.
    pub(crate) fn handle_detail_ready(
        &mut self,
        name: &str,
        preset: FilmPreset,
        result: Result<DetailMono, String>,
        cap: Single,
        one_to_one: Single,
    )
        requires
            old(self).well_formed(),
        ensures
            final(self).well_formed(),
            final(self)@ == old(self)@.detail_finished(name@, preset, result, cap, one_to_one),
    {
        reveal(Model::detail_finished);
        if !detail_result_is_current(
            text::as_slice(&self.selected),
            text::as_slice(&self.detail_inflight),
            name,
        ) {
            self.detail_inflight = None;
            self.decode_detail_next();
            return;
        }
        let landed: bool = result.is_ok();
        self.take_result(name, preset, result, cap);
        if landed && !self.detail.native_queued && self.detail.zoom.at_least(
            native_level_up_zoom_for(one_to_one),
        ) {
            self.decode_detail_next();
        }
    }

    /// Acts on a finished preload.
    pub(crate) fn handle_detail_preloaded(
        &mut self,
        dir: &str,
        name: &str,
        preset: FilmPreset,
        result: Result<DetailMono, String>,
    )
        requires
            old(self).well_formed(),
        ensures
            final(self).well_formed(),
            final(self)@ == old(self)@.preload_finished(dir@, name@, preset, result),
    {
        reveal(Model::preload_finished);
        remove_pair(&mut self.detail_preload_inflight, dir, name);
        match result {
            Ok(mono) => self.store(dir, preset, name, mono),
            Err(_) => {},
        }
    }

    /// Acts on a turn of the wheel.
    pub(crate) fn zoom_detail(&mut self, zoom: Single, pan: Point, one_to_one: Single)
        requires
            old(self).well_formed(),
        ensures
            final(self).well_formed(),
            final(self)@ == old(self)@.zoomed(zoom, pan, one_to_one),
    {
        reveal(Model::zoomed);
        self.detail.zoom = zoom;
        self.detail.pan = pan;
        if self.detail_inflight.is_none() && zoom.at_least(native_level_up_zoom_for(one_to_one))
            && !self.detail.native_queued {
            self.decode_detail_next();
        }
    }

    /// Acts on a move of the cursor over the picture.
    pub(crate) fn move_cursor(&mut self, cursor: Point, pan: Point)
        requires
            old(self).well_formed(),
        ensures
            final(self).well_formed(),
            final(self)@ == old(self)@.cursor_moved(cursor, pan),
    {
        reveal(Model::cursor_moved);
        if self.detail.panning && self.detail.cursor.is_some() {
            self.detail.pan = pan;
        }
        self.detail.cursor = Some(cursor);
    }

    /// Acts on a tick of the crossfade.
    pub(crate) fn fade(&mut self, opacity: Single)
        requires
            old(self).well_formed(),
        ensures
            final(self).well_formed(),
            final(self)@ == old(self)@.faded(opacity),
    {
        reveal(Model::faded);
        self.detail.fading = true;
        self.detail.thumb_opacity = opacity;
        if (Single { bits: 0 }).at_least(opacity) {
            self.detail.thumb = None;
        }
    }

    /// Drops every picture of the open roll that was decoded so far, on screen
    /// or under way.
    pub(crate) fn drop_detail(&mut self)
        requires
            old(self).well_formed(),
        ensures
            final(self).well_formed(),
            final(self)@ == old(self)@.detail_dropped(),
    {
        reveal(Model::detail_dropped);
        self.detail.drop_picture();
        self.detail_logged_failure = None;
        self.detail_inflight = None;
        self.detail_preload_inflight.clear();
        assert(self@.detail_preload_inflight =~= Seq::<(Seq<char>, Seq<char>)>::empty());
    }

    /// Whether the samples kept under a number are still in use: on screen or
    /// cached.
    pub fn buffer_in_use(&self, buffer: u64) -> (r: bool)
        ensures
            r == (match self@.detail.live {
                Some(live) => live.mono.buffer == buffer,
                None => false,
            } || exists|i: int|
                0 <= i < self@.detail_cache.len() && (#[trigger] self@.detail_cache[i]).1.buffer
                    == buffer),
    {
        match self.detail.live {
            Some(live) => if live.mono.buffer == buffer {
                return true;
            },
            None => {},
        }
        let mut i: usize = 0;
        while i < self.detail_cache.entries.len()
            invariant
                i <= self.detail_cache.entries@.len(),
                match self@.detail.live {
                    Some(live) => live.mono.buffer != buffer,
                    None => true,
                },
                forall|j: int|
                    0 <= j < i ==> (#[trigger] self@.detail_cache[j]).1.buffer != buffer,
            decreases self.detail_cache.entries@.len() - i,
        {
            assert(self@.detail_cache[i as int].1 == self.detail_cache.entries@[i as int].1);
            if self.detail_cache.entries[i].1.buffer == buffer {
                return true;
            }
            i += 1;
        }
        assert(self@.detail_cache.len() == self.detail_cache.entries@.len());
        false
    }
}

} // verus!
