//! Background decodes: which are due, and how many may run at once.

use vstd::prelude::*;
use crate::edit_manifest::EditData;
use crate::effect;
use crate::effect::{Effect, EffectModel};
use crate::film::{BaseConfig, FilmPreset};
use crate::library;
use crate::library::{RollModel, Thumb};
use crate::lru;
use crate::lru::{CacheKey, DetailKey};
use crate::message::DetailMono;
use crate::seqs;
use crate::single::Single;
use crate::state;
use crate::state::{AppModel, DetailState, LiveDetail, Model, TileModel, DETAIL_CACHE_CAPACITY};
use crate::text;

verus! {

/// How many thumbnails, and how many covers, are decoded at once.
pub const MAX_CONCURRENT_THUMBS: usize = 4;

/// How many neighbors of the viewed frame are preloaded at once.
pub const MAX_CONCURRENT_PRELOADS: usize = 2;

/// The long edge of an overview in the detail view.
pub const HI_RES_SIZE: u32 = 2048;

/// The long edge that a picture may have at most.
pub const MAX_TEXTURE_EDGE: u32 = 8192;

/// How much of a limit is left.
pub open spec fn room(limit: int, used: int) -> int {
    if used >= limit {
        0
    } else {
        limit - used
    }
}

/// The test of being a frame whose thumbnail waits to be decoded.
pub open spec fn thumb_waits(inflight: Seq<Seq<char>>) -> spec_fn(TileModel) -> bool {
    |t: TileModel| t.thumb == Thumb::Loading && !inflight.contains(t.name)
}

/// The test of being a roll whose cover waits to be decoded.
pub open spec fn cover_waits(inflight: Seq<Seq<char>>) -> spec_fn(RollModel) -> bool {
    |r: RollModel| r.thumb == Thumb::Loading && !inflight.contains(r.dir) && r.cover is Some
}

/// The names of frames.
pub open spec fn tile_names(tiles: Seq<TileModel>) -> Seq<Seq<char>> {
    tiles.map_values(|t: TileModel| t.name)
}

/// The directories of rolls.
pub open spec fn roll_dirs(rolls: Seq<RollModel>) -> Seq<Seq<char>> {
    rolls.map_values(|r: RollModel| r.dir)
}

/// The decode of a frame's thumbnail, with the edits as they are now.
pub open spec fn thumb_job(m: Model, dir: Seq<char>, name: Seq<char>) -> EffectModel {
    EffectModel::DecodeThumbnail {
        dir,
        name,
        tone: m.roll.edits_of(name).tone(),
        crop: m.roll.edits_of(name).crop,
        rotation: (m.roll.edits_of(name).rotation % 4) as u8,
        preset: m.roll.film(),
        base: m.roll.base_state(),
    }
}

/// The decodes of the thumbnails of frames.
pub open spec fn thumb_jobs(m: Model, dir: Seq<char>, names: Seq<Seq<char>>) -> Seq<EffectModel> {
    names.map_values(|n: Seq<char>| thumb_job(m, dir, n))
}

/// The decode of a roll's cover.
pub open spec fn cover_job(roll: RollModel) -> EffectModel {
    EffectModel::DecodeCover { dir: roll.dir, name: roll.cover.unwrap(), preset: roll.preset }
}

/// The decodes of the covers of rolls.
pub open spec fn cover_jobs(rolls: Seq<RollModel>) -> Seq<EffectModel> {
    rolls.map_values(|r: RollModel| cover_job(r))
}

/// The test of being a frame that is neither cached nor being preloaded.
pub open spec fn preload_due(m: Model, dir: Seq<char>) -> spec_fn(Seq<char>) -> bool {
    |n: Seq<char>|
        !lru::holds(m.detail_cache, (dir, m.roll.film(), n))
            && !m.detail_preload_inflight.contains((dir, n))
}

/// The names of the frames before and behind a place.
pub open spec fn neighbors(tiles: Seq<TileModel>, k: int) -> Seq<Seq<char>> {
    let before = if k >= 1 {
        seq![tiles[k - 1].name]
    } else {
        Seq::empty()
    };
    let behind = if k + 1 < tiles.len() {
        seq![tiles[k + 1].name]
    } else {
        Seq::empty()
    };
    before + behind
}

/// The preloads of frames.
pub open spec fn preload_jobs(m: Model, dir: Seq<char>, names: Seq<Seq<char>>) -> Seq<EffectModel> {
    names.map_values(
        |n: Seq<char>|
            EffectModel::PreloadDetail {
                dir,
                name: n,
                preset: m.roll.film(),
                base: m.roll.base_state(),
            },
    )
}

/// Names as being of a roll.
pub open spec fn of_roll(dir: Seq<char>, names: Seq<Seq<char>>) -> Seq<(Seq<char>, Seq<char>)> {
    names.map_values(|n: Seq<char>| (dir, n))
}

impl Model {
    /// The frames whose thumbnails are to be decoded next: those that wait, as
    /// many as there is room for.
    pub open spec fn next_thumbs(self) -> Seq<Seq<char>> {
        tile_names(
            seqs::at_most(
                self.tiles.filter(thumb_waits(self.thumb_inflight)),
                room(MAX_CONCURRENT_THUMBS as int, self.thumb_inflight.len() as int),
            ),
        )
    }

    /// The state with the next thumbnails being decoded.
    #[verifier::opaque]
    pub open spec fn thumbs_pumped(self) -> Model {
        match self.active {
            Some(dir) => Model {
                thumb_inflight: self.thumb_inflight + self.next_thumbs(),
                effects: self.effects + thumb_jobs(self, dir, self.next_thumbs()),
                ..self
            },
            None => self,
        }
    }

    /// The rolls whose covers are to be decoded next.
    pub open spec fn next_covers(self) -> Seq<RollModel> {
        seqs::at_most(
            self.rolls.filter(cover_waits(self.cover_inflight)),
            room(MAX_CONCURRENT_THUMBS as int, self.cover_inflight.len() as int),
        )
    }

    /// The state with the next covers being decoded.
    #[verifier::opaque]
    pub open spec fn covers_pumped(self) -> Model {
        Model {
            cover_inflight: self.cover_inflight + roll_dirs(self.next_covers()),
            effects: self.effects + cover_jobs(self.next_covers()),
            ..self
        }
    }

    /// The neighbors of a place that are to be preloaded next.
    pub open spec fn next_preloads(self, dir: Seq<char>, k: int) -> Seq<Seq<char>> {
        seqs::at_most(
            neighbors(self.tiles, k).filter(preload_due(self, dir)),
            room(MAX_CONCURRENT_PRELOADS as int, self.detail_preload_inflight.len() as int),
        )
    }

    /// The state with the neighbors of a frame being preloaded.
    #[verifier::opaque]
    pub open spec fn neighbors_pumped(self, name: Seq<char>) -> Model {
        match (self.active, self.tile_at(name)) {
            (Some(dir), Some(k)) => Model {
                detail_preload_inflight: self.detail_preload_inflight + of_roll(
                    dir,
                    self.next_preloads(dir, k),
                ),
                effects: self.effects + preload_jobs(self, dir, self.next_preloads(dir, k)),
                ..self
            },
            _ => self,
        }
    }

    /// The state with a picture on screen; one that is as large as the source
    /// needs no decode at full size.
    #[verifier::opaque]
    pub open spec fn installed(self, mono: DetailMono) -> Model {
        Model {
            detail: DetailState {
                live: Some(LiveDetail { image_id: self.next_image_id, mono }),
                native_queued: self.detail.native_queued || mono.src_long_edge <= HI_RES_SIZE,
                ..self.detail
            },
            next_image_id: self.next_image_id.wrapping_add(1),
            ..self
        }
    }

    /// The cached overview of the frame in the detail view.
    pub open spec fn cached_overview(self) -> Option<DetailMono> {
        match (self.active, self.selected) {
            (Some(dir), Some(name)) => {
                let key = (dir, self.roll.film(), name);
                if lru::holds(self.detail_cache, key) {
                    Some(self.detail_cache[lru::position(self.detail_cache, key)].1)
                } else {
                    None
                }
            },
            _ => None,
        }
    }

    /// The state with the frame in the detail view being decoded.
    #[verifier::opaque]
    pub open spec fn detail_requested(self, name: Seq<char>, cap: u32) -> Model {
        let busy = Model { detail_inflight: Some(name), ..self };
        match self.active {
            Some(dir) => busy.emitting(
                EffectModel::DecodeDetail {
                    dir,
                    name,
                    cap,
                    preset: self.roll.film(),
                    base: self.roll.base_state(),
                },
            ),
            None => busy,
        }
    }

    /// The state with the detail view's next decode under way, if one is due
    /// and none runs: first the overview, which may be served from the cache,
    /// then once the picture at full size.
    #[verifier::opaque]
    pub open spec fn detail_pumped(self) -> Model {
        match (self.detail_inflight, self.selected) {
            (None, Some(name)) => if self.detail.live is None {
                match (self.cached_overview(), self.active) {
                    (Some(mono), Some(dir)) => Model {
                        detail_cache: lru::touched(
                            self.detail_cache,
                            (dir, self.roll.film(), name),
                        ),
                        ..self
                    }.installed(mono).emitting(EffectModel::ReclampZoom),
                    _ => self.detail_requested(name, HI_RES_SIZE),
                }
            } else if !self.detail.native_queued {
                self.detail_requested(name, MAX_TEXTURE_EDGE)
            } else {
                self
            },
            _ => self,
        }
    }
}

impl AppModel {
    /// The frames whose thumbnails are to be decoded next.
    fn pending_thumbs(&self) -> (r: Vec<String>)
        ensures
            text::texts(r@) == self@.next_thumbs(),
    {
        let mut out: Vec<String> = Vec::new();
        let used: usize = self.thumb_inflight.len();
        let capacity: usize = MAX_CONCURRENT_THUMBS.saturating_sub(used);
        let ghost tiles = self@.tiles;
        let ghost test = thumb_waits(self@.thumb_inflight);
        proof {
            reveal(Seq::filter);
            assert(tiles.take(0) =~= Seq::<TileModel>::empty());
            assert(text::texts(out@) =~= tile_names(
                seqs::at_most(tiles.take(0).filter(test), capacity as int),
            ));
        }
        let mut i: usize = 0;
        while i < self.tiles.len()
            invariant
                i <= self.tiles@.len(),
                tiles == self@.tiles,
                test == thumb_waits(self@.thumb_inflight),
                text::texts(out@) == tile_names(
                    seqs::at_most(tiles.take(i as int).filter(test), capacity as int),
                ),
            decreases self.tiles@.len() - i,
        {
            let ghost found = tiles.take(i as int).filter(test);
            let ghost held = out@;
            proof {
                assert(tiles[i as int] == self.tiles@[i as int].model());
                seqs::filter_one_more(tiles, test, i as int);
            }
            if self.tiles[i].thumb == Thumb::Loading && !text::holds_name(
                self.thumb_inflight.as_slice(),
                self.tiles[i].name.as_str(),
            ) {
                assert(text::texts(held).len() == out@.len());
                if out.len() < capacity {
                    out.push(self.tiles[i].name.clone());
                    proof {
                        assert(found.len() < capacity);
                        assert(text::texts(out@) =~= text::texts(held).push(tiles[i as int].name));
                        assert(text::texts(out@) =~= tile_names(found.push(tiles[i as int])));
                    }
                } else {
                    proof {
                        assert(found.len() >= capacity);
                        assert(found.push(tiles[i as int]).take(capacity as int) =~= found.take(
                            capacity as int,
                        ));
                        assert(found.take(found.len() as int) =~= found);
                    }
                }
            }
            i += 1;
        }
        assert(tiles.take(i as int) =~= tiles);
        out
    }

    /// Starts decoding waiting thumbnails, as many as there is room for. A
    /// frame that is being decoded is never started again.
    pub(crate) fn decode_next(&mut self)
        requires
            old(self).well_formed(),
        ensures
            final(self).well_formed(),
            final(self)@ == old(self)@.thumbs_pumped(),
    {
        reveal(Model::thumbs_pumped);
        let dir: String = match &self.active {
            Some(dir) => dir.clone(),
            None => {
                return;
            },
        };
        let pending: Vec<String> = self.pending_thumbs();
        let preset: FilmPreset = self.roll.preset();
        let base: BaseConfig = self.roll.base_config();
        let ghost before = self@;
        let ghost names = before.next_thumbs();
        proof {
            assert(before.thumb_inflight + names.take(0) =~= before.thumb_inflight);
            assert(before.effects + thumb_jobs(before, dir@, names.take(0)) =~= before.effects);
        }
        let mut i: usize = 0;
        while i < pending.len()
            invariant
                self.well_formed(),
                i <= pending@.len(),
                text::texts(pending@) == names,
                preset == before.roll.film(),
                base == before.roll.base_state(),
                self@ == (Model {
                    thumb_inflight: before.thumb_inflight + names.take(i as int),
                    effects: before.effects + thumb_jobs(before, dir@, names.take(i as int)),
                    ..before
                }),
            decreases pending@.len() - i,
        {
            let name: &String = &pending[i];
            let edits: EditData = self.roll.edit_data(name.as_str());
            let tone = self.roll.tone(name.as_str());
            let e: Effect = Effect::DecodeThumbnail {
                dir: dir.clone(),
                name: name.clone(),
                tone,
                crop: edits.crop,
                rotation: edits.rotation % 4,
                preset,
                base,
            };
            proof {
                assert(text::texts(pending@)[i as int] == name@);
                assert(e.model() == thumb_job(before, dir@, names[i as int]));
                assert(names.take(i + 1) =~= names.take(i as int).push(names[i as int]));
                assert(thumb_jobs(before, dir@, names.take(i + 1)) =~= thumb_jobs(
                    before,
                    dir@,
                    names.take(i as int),
                ).push(thumb_job(before, dir@, names[i as int])));
            }
            let ghost held = self.thumb_inflight@;
            self.emit(e);
            self.thumb_inflight.push(name.clone());
            proof {
                assert(text::texts(self.thumb_inflight@) =~= text::texts(held).push(name@));
                assert(self@.thumb_inflight =~= before.thumb_inflight + names.take(i + 1));
                assert(self@.effects =~= before.effects + thumb_jobs(
                    before,
                    dir@,
                    names.take(i + 1),
                ));
            }
            i += 1;
        }
        assert(names.take(i as int) =~= names);
    }

    /// The places of the rolls whose covers are to be decoded next.
    fn pending_covers(&self) -> (r: Vec<usize>)
        ensures
            forall|j: int| 0 <= j < r@.len() ==> (#[trigger] r@[j]) < self.rolls@.len(),
            r@.map_values(|p: usize| self@.rolls[p as int]) == self@.next_covers(),
            forall|j: int|
                0 <= j < r@.len() ==> self.rolls@[#[trigger] r@[j] as int].cover is Some,
    {
        let mut out: Vec<usize> = Vec::new();
        let used: usize = self.cover_inflight.len();
        let capacity: usize = MAX_CONCURRENT_THUMBS.saturating_sub(used);
        let ghost rolls = self@.rolls;
        let ghost test = cover_waits(self@.cover_inflight);
        proof {
            reveal(Seq::filter);
            assert(rolls.take(0) =~= Seq::<RollModel>::empty());
            assert(out@.map_values(|p: usize| rolls[p as int]) =~= seqs::at_most(
                rolls.take(0).filter(test),
                capacity as int,
            ));
        }
        let mut i: usize = 0;
        while i < self.rolls.len()
            invariant
                i <= self.rolls@.len(),
                rolls == self@.rolls,
                test == cover_waits(self@.cover_inflight),
                forall|j: int| 0 <= j < out@.len() ==> (#[trigger] out@[j]) < self.rolls@.len(),
                forall|j: int|
                    0 <= j < out@.len() ==> self.rolls@[#[trigger] out@[j] as int].cover is Some,
                out@.map_values(|p: usize| rolls[p as int]) == seqs::at_most(
                    rolls.take(i as int).filter(test),
                    capacity as int,
                ),
            decreases self.rolls@.len() - i,
        {
            let ghost found = rolls.take(i as int).filter(test);
            let ghost held = out@;
            let ghost look = |p: usize| rolls[p as int];
            proof {
                assert(rolls[i as int] == self.rolls@[i as int].model());
                seqs::filter_one_more(rolls, test, i as int);
                assert(held.map_values(look).len() == held.len());
            }
            if self.rolls[i].thumb == Thumb::Loading && self.rolls[i].cover.is_some()
                && !text::holds_name(
                self.cover_inflight.as_slice(),
                self.rolls[i].dir.as_str(),
            ) {
                if out.len() < capacity {
                    out.push(i);
                    proof {
                        assert(found.len() < capacity);
                        assert(out@.map_values(look) =~= held.map_values(look).push(
                            rolls[i as int],
                        ));
                    }
                } else {
                    proof {
                        assert(found.len() >= capacity);
                        assert(found.push(rolls[i as int]).take(capacity as int) =~= found.take(
                            capacity as int,
                        ));
                        assert(found.take(found.len() as int) =~= found);
                    }
                }
            }
            i += 1;
        }
        assert(rolls.take(i as int) =~= rolls);
        out
    }

    /// Starts decoding waiting covers, as many as there is room for.
    pub(crate) fn decode_covers(&mut self)
        requires
            old(self).well_formed(),
        ensures
            final(self).well_formed(),
            final(self)@ == old(self)@.covers_pumped(),
    {
        reveal(Model::covers_pumped);
        let pending: Vec<usize> = self.pending_covers();
        let ghost before = self@;
        let ghost next = before.next_covers();
        proof {
            assert forall|j: int| 0 <= j < pending@.len() implies before.rolls[#[trigger] pending@[j] as int].cover
                is Some by {
                assert(before.rolls[pending@[j] as int] == self.rolls@[pending@[j] as int].model());
            }
            assert(before.cover_inflight + roll_dirs(next.take(0)) =~= before.cover_inflight);
            assert(before.effects + cover_jobs(next.take(0)) =~= before.effects);
        }
        let mut i: usize = 0;
        while i < pending.len()
            invariant
                self.well_formed(),
                i <= pending@.len(),
                pending@.map_values(|p: usize| before.rolls[p as int]) == next,
                forall|j: int|
                    0 <= j < pending@.len() ==> (#[trigger] pending@[j]) < before.rolls.len(),
                forall|j: int|
                    0 <= j < pending@.len() ==> before.rolls[#[trigger] pending@[j] as int].cover
                        is Some,
                self@ == (Model {
                    cover_inflight: before.cover_inflight + roll_dirs(next.take(i as int)),
                    effects: before.effects + cover_jobs(next.take(i as int)),
                    ..before
                }),
            decreases pending@.len() - i,
        {
            let p: usize = pending[i];
            assert(self@.rolls.len() == self.rolls@.len());
            assert(before.rolls[p as int] == self.rolls@[p as int].model());
            let dir: String = self.rolls[p].dir.clone();
            proof {
                assert(pending@.map_values(|p: usize| before.rolls[p as int])[i as int]
                    == before.rolls[p as int]);
                assert(next[i as int] == self.rolls@[p as int].model());
                assert(next.take(i + 1) =~= next.take(i as int).push(next[i as int]));
                assert(cover_jobs(next.take(i + 1)) =~= cover_jobs(next.take(i as int)).push(
                    cover_job(next[i as int]),
                ));
                assert(roll_dirs(next.take(i + 1)) =~= roll_dirs(next.take(i as int)).push(
                    next[i as int].dir,
                ));
            }
            let name: String = match &self.rolls[p].cover {
                Some(name) => name.clone(),
                None => String::new(),
            };
            let e: Effect = Effect::DecodeCover {
                dir: dir.clone(),
                name,
                preset: self.rolls[p].preset,
            };
            assert(e.model() == cover_job(next[i as int]));
            let ghost held = self.cover_inflight@;
            self.emit(e);
            self.cover_inflight.push(dir);
            proof {
                assert(text::texts(self.cover_inflight@) =~= text::texts(held).push(dir@));
                assert(self@.cover_inflight =~= before.cover_inflight + roll_dirs(
                    next.take(i + 1),
                ));
                assert(self@.effects =~= before.effects + cover_jobs(next.take(i + 1)));
            }
            i += 1;
        }
        assert(next.take(i as int) =~= next);
    }

    /// The neighbors of a place that are to be preloaded next.
    fn pending_preloads(&self, dir: &str, k: usize) -> (r: Vec<String>)
        requires
            self.well_formed(),
            k < self.tiles@.len(),
        ensures
            text::texts(r@) == self@.next_preloads(dir@, k as int),
    {
        let mut all: Vec<String> = Vec::new();
        if k >= 1 {
            all.push(self.tiles[k - 1].name.clone());
        }
        let count: usize = self.tiles.len();
        if k < count - 1 {
            all.push(self.tiles[k + 1].name.clone());
        }
        let ghost near = neighbors(self@.tiles, k as int);
        assert(text::texts(all@) =~= near);
        let used: usize = self.detail_preload_inflight.len();
        let capacity: usize = MAX_CONCURRENT_PRELOADS.saturating_sub(used);
        let preset: FilmPreset = self.roll.preset();
        let ghost test = preload_due(self@, dir@);
        let mut out: Vec<String> = Vec::new();
        proof {
            reveal(Seq::filter);
            assert(near.take(0) =~= Seq::<Seq<char>>::empty());
            assert(text::texts(out@) =~= seqs::at_most(near.take(0).filter(test), capacity as int));
        }
        let mut i: usize = 0;
        while i < all.len()
            invariant
                self.well_formed(),
                i <= all@.len(),
                text::texts(all@) == near,
                preset == self@.roll.film(),
                test == preload_due(self@, dir@),
                text::texts(out@) == seqs::at_most(
                    near.take(i as int).filter(test),
                    capacity as int,
                ),
            decreases all@.len() - i,
        {
            let ghost found = near.take(i as int).filter(test);
            let ghost held = out@;
            let name: &String = &all[i];
            proof {
                assert(text::texts(all@)[i as int] == name@);
                seqs::filter_one_more(near, test, i as int);
                assert(text::texts(held).len() == held.len());
            }
            let key: DetailKey = DetailKey::new(dir, preset, name.as_str());
            if !self.detail_cache.contains(&key) && !self.preloading(dir, name.as_str()) {
                if out.len() < capacity {
                    out.push(name.clone());
                    proof {
                        assert(found.len() < capacity);
                        assert(text::texts(out@) =~= text::texts(held).push(name@));
                    }
                } else {
                    proof {
                        assert(found.len() >= capacity);
                        assert(found.push(name@).take(capacity as int) =~= found.take(
                            capacity as int,
                        ));
                        assert(found.take(found.len() as int) =~= found);
                    }
                }
            }
            i += 1;
        }
        assert(near.take(i as int) =~= near);
        out
    }

    /// Whether a frame of a roll is being preloaded.
    fn preloading(&self, dir: &str, name: &str) -> (r: bool)
        ensures
            r == self@.detail_preload_inflight.contains((dir@, name@)),
    {
        let mut i: usize = 0;
        while i < self.detail_preload_inflight.len()
            invariant
                i <= self.detail_preload_inflight@.len(),
                forall|j: int|
                    0 <= j < i ==> #[trigger] self@.detail_preload_inflight[j] != (dir@, name@),
            decreases self.detail_preload_inflight@.len() - i,
        {
            if text::same_text(self.detail_preload_inflight[i].0.as_str(), dir)
                && text::same_text(self.detail_preload_inflight[i].1.as_str(), name) {
                assert(self@.detail_preload_inflight[i as int] == (dir@, name@));
                return true;
            }
            assert(self@.detail_preload_inflight[i as int] != (dir@, name@));
            i += 1;
        }
        assert(self@.detail_preload_inflight.len() == self.detail_preload_inflight@.len());
        false
    }

    /// Preloads the frames before and behind one, so that paging to them is
    /// instant. Frames that are cached or being preloaded are left out.
    pub(crate) fn preload_detail_neighbors(&mut self, name: &str)
        requires
            old(self).well_formed(),
        ensures
            final(self).well_formed(),
            final(self)@ == old(self)@.neighbors_pumped(name@),
    {
        reveal(Model::neighbors_pumped);
        let dir: String = match &self.active {
            Some(dir) => dir.clone(),
            None => {
                return;
            },
        };
        let k: usize = match state::find_tile(self.tiles.as_slice(), name) {
            Some(k) => k,
            None => {
                return;
            },
        };
        let pending: Vec<String> = self.pending_preloads(dir.as_str(), k);
        let preset: FilmPreset = self.roll.preset();
        let base: BaseConfig = self.roll.base_config();
        let ghost before = self@;
        let ghost names = before.next_preloads(dir@, k as int);
        proof {
            assert(before.detail_preload_inflight + of_roll(dir@, names.take(0))
                =~= before.detail_preload_inflight);
            assert(before.effects + preload_jobs(before, dir@, names.take(0)) =~= before.effects);
        }
        let mut i: usize = 0;
        while i < pending.len()
            invariant
                self.well_formed(),
                i <= pending@.len(),
                text::texts(pending@) == names,
                preset == before.roll.film(),
                base == before.roll.base_state(),
                self@ == (Model {
                    detail_preload_inflight: before.detail_preload_inflight + of_roll(
                        dir@,
                        names.take(i as int),
                    ),
                    effects: before.effects + preload_jobs(before, dir@, names.take(i as int)),
                    ..before
                }),
            decreases pending@.len() - i,
        {
            let n: &String = &pending[i];
            let e: Effect = Effect::PreloadDetail {
                dir: dir.clone(),
                name: n.clone(),
                preset,
                base,
            };
            proof {
                assert(text::texts(pending@)[i as int] == n@);
                assert(names.take(i + 1) =~= names.take(i as int).push(n@));
                assert(preload_jobs(before, dir@, names.take(i + 1)) =~= preload_jobs(
                    before,
                    dir@,
                    names.take(i as int),
                ).push(e.model()));
                assert(of_roll(dir@, names.take(i + 1)) =~= of_roll(
                    dir@,
                    names.take(i as int),
                ).push((dir@, n@)));
            }
            let ghost held = self.detail_preload_inflight@;
            self.emit(e);
            self.detail_preload_inflight.push((dir.clone(), n.clone()));
            proof {
                assert(state::pair_texts(self.detail_preload_inflight@) =~= state::pair_texts(
                    held,
                ).push((dir@, n@)));
                assert(self@.detail_preload_inflight =~= before.detail_preload_inflight + of_roll(
                    dir@,
                    names.take(i + 1),
                ));
                assert(self@.effects =~= before.effects + preload_jobs(
                    before,
                    dir@,
                    names.take(i + 1),
                ));
            }
            i += 1;
        }
        assert(names.take(i as int) =~= names);
    }

    /// Puts a picture on screen.
    pub(crate) fn install(&mut self, mono: DetailMono)
        requires
            old(self).well_formed(),
        ensures
            final(self).well_formed(),
            final(self)@ == old(self)@.installed(mono),
    {
        reveal(Model::installed);
        self.detail.live = Some(LiveDetail { image_id: self.next_image_id, mono });
        if mono.src_long_edge <= HI_RES_SIZE {
            self.detail.native_queued = true;
        }
        self.next_image_id = self.next_image_id.wrapping_add(1);
    }

    /// Asks for the frame in the detail view to be decoded.
    fn request_detail(&mut self, name: String, cap: u32)
        requires
            old(self).well_formed(),
        ensures
            final(self).well_formed(),
            final(self)@ == old(self)@.detail_requested(name@, cap),
    {
        reveal(Model::detail_requested);
        let preset: FilmPreset = self.roll.preset();
        let base: BaseConfig = self.roll.base_config();
        self.detail_inflight = Some(name.clone());
        match &self.active {
            Some(dir) => {
                let e: Effect = Effect::DecodeDetail {
                    dir: dir.clone(),
                    name,
                    cap,
                    preset,
                    base,
                };
                self.emit(e);
            },
            None => {},
        }
    }

    /// Takes the cached overview of the frame in the detail view, which counts
    /// as a use of it.
    fn take_cached_overview(&mut self, name: &str) -> (r: Option<DetailMono>)
        requires
            old(self).well_formed(),
            old(self)@.selected == Some(name@),
        ensures
            final(self).well_formed(),
            r == old(self)@.cached_overview(),
            final(self)@ == (match (r, old(self)@.active) {
                (Some(_), Some(dir)) => Model {
                    detail_cache: lru::touched(
                        old(self)@.detail_cache,
                        (dir, old(self)@.roll.film(), name@),
                    ),
                    ..old(self)@
                },
                _ => old(self)@,
            }),
    {
        let dir: String = match &self.active {
            Some(dir) => dir.clone(),
            None => {
                return None;
            },
        };
        let key: DetailKey = DetailKey::new(dir.as_str(), self.roll.preset(), name);
        match self.detail_cache.get(&key) {
            Some(mono) => Some(*mono),
            None => None,
        }
    }

    /// Starts the detail view's next decode, if one is due and none runs.
    pub(crate) fn decode_detail_next(&mut self)
        requires
            old(self).well_formed(),
        ensures
            final(self).well_formed(),
            final(self)@ == old(self)@.detail_pumped(),
    {
        reveal(Model::detail_pumped);
        if self.detail_inflight.is_some() {
            return;
        }
        let name: String = match &self.selected {
            Some(name) => name.clone(),
            None => {
                return;
            },
        };
        if self.detail.live.is_none() {
            match self.take_cached_overview(name.as_str()) {
                Some(mono) => {
                    self.install(mono);
                    self.emit(Effect::ReclampZoom);
                },
                None => self.request_detail(name, HI_RES_SIZE),
            }
        } else if !self.detail.native_queued {
            self.request_detail(name, MAX_TEXTURE_EDGE);
        }
    }
}

} // verus!
