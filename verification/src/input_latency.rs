//! How long input takes to reach the screen. Times are nanoseconds of a clock that never goes back.

use vstd::prelude::*;
use std::collections::{HashMap, VecDeque};

use crate::layout::SessionId;
use crate::order;
use crate::order::stable_number_order;
use crate::text::text_eq;

verus! {

/// How many samples are kept.
pub const SAMPLE_WINDOW: usize = 256;

/// After how many samples a report is due.
pub const REPORT_EVERY: u64 = 16;

/// How long to wait between two reports on drawing: 800 milliseconds.
pub const RENDER_REPORT_AFTER: u64 = 800_000_000;

/// `a + b`, or the greatest number where that is greater.
pub open spec fn plus(a: u64, b: u64) -> u64 {
    if a + b <= u64::MAX {
        (a + b) as u64
    } else {
        u64::MAX
    }
}

fn sum(a: u64, b: u64) -> (r: u64)
    ensures
        r == plus(a, b),
{
    a.saturating_add(b)
}

/// The time from `from` to `to`; none where `from` is later.
pub open spec fn since(to: u64, from: u64) -> u64 {
    if to >= from {
        (to - from) as u64
    } else {
        0
    }
}

fn duration_since(to: u64, from: u64) -> (r: u64)
    ensures
        r == since(to, from),
{
    if to >= from {
        to - from
    } else {
        0
    }
}

/// What drawing one frame took.
#[derive(Clone, Copy, Debug, PartialEq, Eq, Structural)]
pub struct MetalFrameStats {
    /// Drawing commands.
    pub command_count: u64,
    /// Glyphs.
    pub glyph_count: u64,
    /// Glyphs found in the atlas.
    pub atlas_hits: u64,
    /// Glyphs not found in the atlas.
    pub atlas_misses: u64,
    /// How often the atlas was emptied.
    pub atlas_resets: u64,
    /// Time spent on glyphs.
    pub raster_time: u64,
    /// Glyphs made in the background.
    pub background_raster_jobs: u64,
    /// Time spent on those.
    pub background_raster_time: u64,
    /// Glyphs made while drawing.
    pub synchronous_raster_jobs: u64,
    /// Time spent on those.
    pub synchronous_raster_time: u64,
    /// Glyphs still to be made.
    pub pending_rasters: u64,
    /// Images sent to the graphics card.
    pub image_uploads: u64,
    /// Their bytes.
    pub image_upload_bytes: u64,
    /// Time spent on them.
    pub image_upload_time: u64,
    /// Draw calls.
    pub draw_calls: u64,
}

/// What was drawn since the last report.
#[derive(Clone, Copy, Debug, PartialEq, Eq, Structural)]
pub struct RenderInterval {
    /// Snapshots received.
    pub snapshots: u64,
    /// Revisions passed over between snapshots.
    pub skipped_revisions: u64,
    /// Preparations.
    pub preparations: u64,
    /// Preparations found in the cache.
    pub preparation_cache_hits: u64,
    /// Frames.
    pub frames: u64,
    /// Drawing commands.
    pub commands: u64,
    /// Glyphs.
    pub glyphs: u64,
    /// Glyphs found in the atlas.
    pub atlas_hits: u64,
    /// Glyphs not found in the atlas.
    pub atlas_misses: u64,
    /// How often the atlas was emptied.
    pub atlas_resets: u64,
    /// Time spent on glyphs.
    pub raster_time: u64,
    /// Glyphs made in the background.
    pub background_raster_jobs: u64,
    /// Time spent on those.
    pub background_raster_time: u64,
    /// Glyphs made while drawing.
    pub synchronous_raster_jobs: u64,
    /// Time spent on those.
    pub synchronous_raster_time: u64,
    /// The most glyphs that were still to be made.
    pub pending_rasters_peak: u64,
    /// Images sent to the graphics card.
    pub image_uploads: u64,
    /// Their bytes.
    pub image_upload_bytes: u64,
    /// Time spent on them.
    pub image_upload_time: u64,
    /// Draw calls.
    pub draw_calls: u64,
}

/// An interval in which nothing happened.
pub open spec fn no_interval() -> RenderInterval {
    RenderInterval {
        snapshots: 0,
        skipped_revisions: 0,
        preparations: 0,
        preparation_cache_hits: 0,
        frames: 0,
        commands: 0,
        glyphs: 0,
        atlas_hits: 0,
        atlas_misses: 0,
        atlas_resets: 0,
        raster_time: 0,
        background_raster_jobs: 0,
        background_raster_time: 0,
        synchronous_raster_jobs: 0,
        synchronous_raster_time: 0,
        pending_rasters_peak: 0,
        image_uploads: 0,
        image_upload_bytes: 0,
        image_upload_time: 0,
        draw_calls: 0,
    }
}

/// An interval with one frame more.
pub open spec fn with_frame(r: RenderInterval, s: MetalFrameStats) -> RenderInterval {
    RenderInterval {
        frames: plus(r.frames, 1),
        commands: plus(r.commands, s.command_count),
        glyphs: plus(r.glyphs, s.glyph_count),
        atlas_hits: plus(r.atlas_hits, s.atlas_hits),
        atlas_misses: plus(r.atlas_misses, s.atlas_misses),
        atlas_resets: plus(r.atlas_resets, s.atlas_resets),
        raster_time: plus(r.raster_time, s.raster_time),
        background_raster_jobs: plus(r.background_raster_jobs, s.background_raster_jobs),
        background_raster_time: plus(r.background_raster_time, s.background_raster_time),
        synchronous_raster_jobs: plus(r.synchronous_raster_jobs, s.synchronous_raster_jobs),
        synchronous_raster_time: plus(r.synchronous_raster_time, s.synchronous_raster_time),
        pending_rasters_peak: if s.pending_rasters > r.pending_rasters_peak {
            s.pending_rasters
        } else {
            r.pending_rasters_peak
        },
        image_uploads: plus(r.image_uploads, s.image_uploads),
        image_upload_bytes: plus(r.image_upload_bytes, s.image_upload_bytes),
        image_upload_time: plus(r.image_upload_time, s.image_upload_time),
        draw_calls: plus(r.draw_calls, s.draw_calls),
        ..r
    }
}

impl RenderInterval {
    /// An interval in which nothing happened.
    pub fn empty() -> (r: RenderInterval)
        ensures
            r == no_interval(),
    {
        RenderInterval {
            snapshots: 0,
            skipped_revisions: 0,
            preparations: 0,
            preparation_cache_hits: 0,
            frames: 0,
            commands: 0,
            glyphs: 0,
            atlas_hits: 0,
            atlas_misses: 0,
            atlas_resets: 0,
            raster_time: 0,
            background_raster_jobs: 0,
            background_raster_time: 0,
            synchronous_raster_jobs: 0,
            synchronous_raster_time: 0,
            pending_rasters_peak: 0,
            image_uploads: 0,
            image_upload_bytes: 0,
            image_upload_time: 0,
            draw_calls: 0,
        }
    }

    fn add_frame(self, s: MetalFrameStats) -> (r: RenderInterval)
        ensures
            r == with_frame(self, s),
    {
        RenderInterval {
            snapshots: self.snapshots,
            skipped_revisions: self.skipped_revisions,
            preparations: self.preparations,
            preparation_cache_hits: self.preparation_cache_hits,
            frames: sum(self.frames, 1),
            commands: sum(self.commands, s.command_count),
            glyphs: sum(self.glyphs, s.glyph_count),
            atlas_hits: sum(self.atlas_hits, s.atlas_hits),
            atlas_misses: sum(self.atlas_misses, s.atlas_misses),
            atlas_resets: sum(self.atlas_resets, s.atlas_resets),
            raster_time: sum(self.raster_time, s.raster_time),
            background_raster_jobs: sum(self.background_raster_jobs, s.background_raster_jobs),
            background_raster_time: sum(self.background_raster_time, s.background_raster_time),
            synchronous_raster_jobs: sum(self.synchronous_raster_jobs, s.synchronous_raster_jobs),
            synchronous_raster_time: sum(self.synchronous_raster_time, s.synchronous_raster_time),
            pending_rasters_peak: if s.pending_rasters > self.pending_rasters_peak {
                s.pending_rasters
            } else {
                self.pending_rasters_peak
            },
            image_uploads: sum(self.image_uploads, s.image_uploads),
            image_upload_bytes: sum(self.image_upload_bytes, s.image_upload_bytes),
            image_upload_time: sum(self.image_upload_time, s.image_upload_time),
            draw_calls: sum(self.draw_calls, s.draw_calls),
        }
    }
}

/// Input that no snapshot has answered yet.
#[derive(Clone, Copy, Debug, PartialEq, Eq, Structural)]
pub struct PendingInput {
    /// Its number.
    pub sequence: u64,
    /// When it came.
    pub input_at: u64,
}

/// Input that a snapshot has answered and no frame has shown yet.
#[derive(Clone, Copy, Debug, PartialEq, Eq, Structural)]
pub struct ReadyInput {
    /// Its number.
    pub sequence: u64,
    /// When it came.
    pub input_at: u64,
    /// When the snapshot came.
    pub snapshot_at: u64,
}

/// How long one input took.
#[derive(Clone, Copy, Debug, PartialEq, Eq, Structural)]
pub struct LatencySample {
    /// From the input to the snapshot.
    pub input_to_snapshot: u64,
    /// From the snapshot to the frame.
    pub snapshot_to_metal: u64,
    /// From the input to the frame.
    pub end_to_end: u64,
}

/// `s` with `x` behind it, of which the last `SAMPLE_WINDOW` are kept.
pub open spec fn kept<T>(s: Seq<T>, x: T) -> Seq<T> {
    if s.len() + 1 > SAMPLE_WINDOW {
        s.push(x).skip(1)
    } else {
        s.push(x)
    }
}

/// Takes in a sample; the oldest leaves where there are too many.
pub fn push_sample<T>(samples: &mut VecDeque<T>, sample: T)
    ensures
        final(samples)@ == kept(old(samples)@, sample),
{
    samples.push_back(sample);
    if samples.len() > SAMPLE_WINDOW {
        let _ = samples.pop_front();
        assert(samples@ =~= old(samples)@.push(sample).skip(1));
    }
}

/// A window that is not overfull stays so.
pub proof fn the_window_stays_bounded<T>(s: Seq<T>, x: T)
    requires
        s.len() <= SAMPLE_WINDOW,
    ensures
        kept(s, x).len() <= SAMPLE_WINDOW,
        kept(s, x).last() == x,
{
}

/// The samples in ascending order.
pub open spec fn ascending(samples: Seq<u64>) -> Seq<u64> {
    order::stable_order(samples, order::by_number(), samples.len() as int).map_values(
        |i: int| samples[i],
    )
}

/// Which of `len` ascending samples a percentile asks for.
pub open spec fn rank(len: int, percentile: int) -> int {
    let last = if len == 0 {
        0
    } else {
        len - 1
    };
    let product = if last * percentile > usize::MAX {
        usize::MAX as int
    } else {
        last * percentile
    };
    product / 100
}

/// The sample at the rank that a percentile asks for; zero where there is none.
pub open spec fn percentile_of(samples: Seq<u64>, percentile: int) -> u64 {
    let at = rank(samples.len() as int, percentile);
    if at < samples.len() {
        ascending(samples)[at]
    } else {
        0
    }
}

/// The sample at the rank that a percentile asks for; zero where there is none.
pub fn percentile(samples: &Vec<u64>, percent: usize) -> (r: u64)
    ensures
        r == percentile_of(samples@, percent as int),
{
    let order: Vec<usize> = stable_number_order(samples);
    let ghost places = order::positions(order@);
    let last: usize = if samples.len() == 0 {
        0
    } else {
        samples.len() - 1
    };
    proof {
        assert(0 <= last * percent) by (nonlinear_arith);
    }
    let product: usize = match last.checked_mul(percent) {
        Some(v) => v,
        None => usize::MAX,
    };
    let at: usize = product / 100;
    if at < samples.len() {
        assert(places[at as int] == order@[at as int]);
        samples[order[at]]
    } else {
        0
    }
}

/// A percentile of some samples is one of them.
pub proof fn a_percentile_is_a_sample(samples: Seq<u64>, p: int)
    requires
        samples.len() > 0,
        0 <= p <= 100,
    ensures
        samples.contains(percentile_of(samples, p)),
{
    let n = samples.len() as int;
    let at = rank(n, p);
    rank_in_range(n, p);
    order::a_stable_order_is_a_permutation(samples, order::by_number(), n);
    let order = order::stable_order(samples, order::by_number(), n);
    assert(samples[order[at]] == percentile_of(samples, p));
}

proof fn rank_in_range(n: int, p: int)
    requires
        n > 0,
        0 <= p <= 100,
    ensures
        0 <= rank(n, p) < n,
{
    assert(0 <= (n - 1) * p <= (n - 1) * 100) by (nonlinear_arith)
        requires
            n > 0,
            0 <= p <= 100,
    ;
}

/// A higher percentile is not a lower value.
pub proof fn percentiles_ascend(samples: Seq<u64>, p: int, q: int)
    requires
        0 <= p <= q <= 100,
    ensures
        percentile_of(samples, p) <= percentile_of(samples, q),
{
    let n = samples.len() as int;
    if n > 0 {
        rank_in_range(n, p);
        rank_in_range(n, q);
        assert((n - 1) * p <= (n - 1) * q) by (nonlinear_arith)
            requires
                n > 0,
                p <= q,
        ;
        let a = rank(n, p);
        let b = rank(n, q);
        let order = order::stable_order(samples, order::by_number(), n);
        order::numbers_are_ordered();
        order::a_stable_order_is_a_permutation(samples, order::by_number(), n);
        assert(percentile_of(samples, p) == samples[order[a]]);
        assert(percentile_of(samples, q) == samples[order[b]]);
        if a < b {
            order::a_stable_order_is_sorted(samples, order::by_number(), n, a, b);
        }
    }
}

/// Whether a variable of the environment switches something on: it is there, holds something, and
/// not a zero.
pub open spec fn switched_on(value: Option<Seq<char>>) -> bool {
    value matches Some(v) && v.len() > 0 && v != "0"@
}

/// Whether a variable of the environment switches something on.
pub fn is_switched_on(value: &Option<String>) -> (r: bool)
    ensures
        r == switched_on(
            match *value {
                Some(v) => Some(v@),
                None => None,
            },
        ),
{
    match value {
        Some(v) => !v.as_str().is_empty() && !text_eq(v.as_str(), "0"),
        None => false,
    }
}

/// The measurements so far.
pub struct LatencyState {
    /// Whether input is measured.
    pub input_enabled: bool,
    /// Whether drawing is measured.
    pub render_enabled: bool,
    /// Input that no snapshot has answered yet, oldest first, by session.
    pub pending: HashMap<SessionId, VecDeque<PendingInput>>,
    /// Input that no frame has shown yet, oldest first, by session.
    pub ready: HashMap<SessionId, VecDeque<ReadyInput>>,
    /// How long inputs took, oldest first.
    pub samples: VecDeque<LatencySample>,
    /// How long preparations took, oldest first.
    pub prepare_samples: VecDeque<u64>,
    /// How long drawing took, oldest first.
    pub metal_samples: VecDeque<u64>,
    /// How many inputs were measured.
    pub total_samples: u64,
    /// How many had been when the last report was made.
    pub reported_samples: u64,
    /// When the last report on drawing was made.
    pub render_report_at: u64,
    /// What was drawn since.
    pub render: RenderInterval,
    /// The last revision of each session.
    pub last_snapshot_revision: HashMap<SessionId, u64>,
}

/// The lists of a map as sequences.
pub open spec fn lists<T>(t: Map<u128, VecDeque<T>>) -> Map<u128, Seq<T>> {
    Map::new(|k: u128| t.contains_key(k), |k: u128| t[k]@)
}

/// The list of a session; empty where it has none.
pub open spec fn list_of<T>(t: Map<u128, Seq<T>>, id: u128) -> Seq<T> {
    if t.contains_key(id) {
        t[id]
    } else {
        seq![]
    }
}

/// The map with `list` for the session; an empty one is not kept.
pub open spec fn with_list<T>(t: Map<u128, Seq<T>>, id: u128, list: Seq<T>) -> Map<u128, Seq<T>> {
    if list.len() == 0 {
        t.remove(id)
    } else {
        t.insert(id, list)
    }
}

/// How many inputs at the front a snapshot answers.
pub open spec fn answered(pending: Seq<PendingInput>, last: u64) -> int
    decreases pending.len(),
{
    if pending.len() == 0 || pending[0].sequence > last {
        0
    } else {
        1 + answered(pending.skip(1), last)
    }
}

/// How many inputs at the front a frame shows.
pub open spec fn shown(ready: Seq<ReadyInput>, last: u64) -> int
    decreases ready.len(),
{
    if ready.len() == 0 || ready[0].sequence > last {
        0
    } else {
        1 + shown(ready.skip(1), last)
    }
}

/// Answered inputs, with the time of the snapshot.
pub open spec fn answered_at(inputs: Seq<PendingInput>, at: u64) -> Seq<ReadyInput> {
    inputs.map_values(
        |p: PendingInput|
            ReadyInput { sequence: p.sequence, input_at: p.input_at, snapshot_at: at },
    )
}

/// How long an input took that a frame at `at` shows.
pub open spec fn sample_of(r: ReadyInput, at: u64) -> LatencySample {
    LatencySample {
        input_to_snapshot: since(r.snapshot_at, r.input_at),
        snapshot_to_metal: since(at, r.snapshot_at),
        end_to_end: since(at, r.input_at),
    }
}

/// The samples with those of the shown inputs behind them.
pub open spec fn with_samples(
    samples: Seq<LatencySample>,
    inputs: Seq<ReadyInput>,
    at: u64,
) -> Seq<LatencySample>
    decreases inputs.len(),
{
    if inputs.len() == 0 {
        samples
    } else {
        kept(with_samples(samples, inputs.drop_last(), at), sample_of(inputs.last(), at))
    }
}

/// The inputs without that of the given number.
pub open spec fn without(inputs: Seq<PendingInput>, sequence: u64) -> Seq<PendingInput>
    decreases inputs.len(),
{
    if inputs.len() == 0 {
        seq![]
    } else {
        let rest = without(inputs.drop_last(), sequence);
        if inputs.last().sequence == sequence {
            rest
        } else {
            rest.push(inputs.last())
        }
    }
}

/// The middle and the high end of some times.
#[derive(Clone, Copy, Debug, PartialEq, Eq, Structural)]
pub struct Quantiles {
    /// The fiftieth percentile.
    pub p50: u64,
    /// The ninety-fifth percentile.
    pub p95: u64,
}

/// The middle and the high end of some times.
pub open spec fn quantiles_of(samples: Seq<u64>) -> Quantiles {
    Quantiles { p50: percentile_of(samples, 50), p95: percentile_of(samples, 95) }
}

fn quantiles(samples: &Vec<u64>) -> (r: Quantiles)
    ensures
        r == quantiles_of(samples@),
{
    Quantiles { p50: percentile(samples, 50), p95: percentile(samples, 95) }
}

fn window_quantiles(samples: &VecDeque<u64>) -> (r: Quantiles)
    ensures
        r == quantiles_of(samples@),
{
    let mut list: Vec<u64> = Vec::new();
    let mut i: usize = 0;
    while i < samples.len()
        invariant
            i <= samples@.len(),
            list@ == samples@.take(i as int),
        decreases samples@.len() - i,
    {
        list.push(samples[i]);
        assert(list@ =~= samples@.take(i + 1));
        i = i + 1;
    }
    assert(list@ =~= samples@);
    quantiles(&list)
}

/// A report on input.
#[derive(Clone, Copy, Debug, PartialEq, Eq, Structural)]
pub struct InputReport {
    /// How many samples it rests on.
    pub samples: usize,
    /// From the input to the snapshot.
    pub input_to_snapshot: Quantiles,
    /// From the snapshot to the frame.
    pub snapshot_to_metal: Quantiles,
    /// Preparations.
    pub prepare: Quantiles,
    /// Drawing.
    pub metal: Quantiles,
    /// From the input to the frame.
    pub end_to_end: Quantiles,
}

/// A report on drawing.
#[derive(Clone, Copy, Debug, PartialEq, Eq, Structural)]
pub struct RenderReport {
    /// How long the interval was.
    pub elapsed: u64,
    /// What was drawn in it.
    pub interval: RenderInterval,
    /// Preparations.
    pub prepare: Quantiles,
    /// Drawing.
    pub metal: Quantiles,
}

/// The first parts of the samples.
pub open spec fn snapshot_times(samples: Seq<LatencySample>) -> Seq<u64> {
    samples.map_values(|s: LatencySample| s.input_to_snapshot)
}

/// The second parts of the samples.
pub open spec fn metal_times(samples: Seq<LatencySample>) -> Seq<u64> {
    samples.map_values(|s: LatencySample| s.snapshot_to_metal)
}

/// The whole of the samples.
pub open spec fn whole_times(samples: Seq<LatencySample>) -> Seq<u64> {
    samples.map_values(|s: LatencySample| s.end_to_end)
}

impl LatencyState {
    /// The waiting inputs of each session.
    pub open spec fn waiting(&self) -> Map<u128, Seq<PendingInput>> {
        lists(self.pending@)
    }

    /// The answered inputs of each session.
    pub open spec fn answered(&self) -> Map<u128, Seq<ReadyInput>> {
        lists(self.ready@)
    }

    /// No input, no sample, nothing drawn.
    pub fn new(input_enabled: bool, render_enabled: bool, now: u64) -> (r: LatencyState)
        ensures
            r.input_enabled == input_enabled,
            r.render_enabled == render_enabled,
            r.waiting() == Map::<u128, Seq<PendingInput>>::empty(),
            r.answered() == Map::<u128, Seq<ReadyInput>>::empty(),
            r.samples@.len() == 0,
            r.prepare_samples@.len() == 0,
            r.metal_samples@.len() == 0,
            r.total_samples == 0,
            r.reported_samples == 0,
            r.render_report_at == now,
            r.render == no_interval(),
            r.last_snapshot_revision@ == Map::<u128, u64>::empty(),
    {
        let r: LatencyState = LatencyState {
            input_enabled,
            render_enabled,
            pending: HashMap::new(),
            ready: HashMap::new(),
            samples: VecDeque::new(),
            prepare_samples: VecDeque::new(),
            metal_samples: VecDeque::new(),
            total_samples: 0,
            reported_samples: 0,
            render_report_at: now,
            render: RenderInterval::empty(),
            last_snapshot_revision: HashMap::new(),
        };
        assert(r.waiting() =~= Map::<u128, Seq<PendingInput>>::empty());
        assert(r.answered() =~= Map::<u128, Seq<ReadyInput>>::empty());
        r
    }

    /// Nothing but the lists of input and their samples differs.
    pub open spec fn same_drawing(&self, other: LatencyState) -> bool {
        &&& self.input_enabled == other.input_enabled
        &&& self.render_enabled == other.render_enabled
        &&& self.prepare_samples == other.prepare_samples
        &&& self.reported_samples == other.reported_samples
        &&& self.render_report_at == other.render_report_at
    }

    /// Takes in an input.
    pub fn record_input(&mut self, id: SessionId, sequence: u64, now: u64)
        ensures
            final(self).waiting() == if old(self).input_enabled {
                old(self).waiting().insert(
                    id,
                    list_of(old(self).waiting(), id).push(
                        PendingInput { sequence, input_at: now },
                    ),
                )
            } else {
                old(self).waiting()
            },
            final(self).same_drawing(*old(self)),
            final(self).ready == old(self).ready,
            final(self).samples == old(self).samples,
            final(self).metal_samples == old(self).metal_samples,
            final(self).total_samples == old(self).total_samples,
            final(self).render == old(self).render,
            final(self).last_snapshot_revision == old(self).last_snapshot_revision,
    {
        if !self.input_enabled {
            return ;
        }
        let ghost before = self.waiting();
        let mut inputs: VecDeque<PendingInput> = match self.pending.remove(&id) {
            Some(list) => list,
            None => VecDeque::new(),
        };
        let input: PendingInput = PendingInput { sequence, input_at: now };
        assert(inputs@ =~= list_of(before, id));
        inputs.push_back(input);
        let ghost want = list_of(before, id).push(input);
        self.pending.insert(id, inputs);
        assert(self.waiting() =~= before.insert(id, want));
    }

    /// Forgets an input that was not sent.
    pub fn discard_input(&mut self, id: SessionId, sequence: u64)
        ensures
            final(self).waiting() == if old(self).input_enabled && old(self).waiting().contains_key(
                id,
            ) {
                old(self).waiting().insert(id, without(old(self).waiting()[id], sequence))
            } else {
                old(self).waiting()
            },
            final(self).same_drawing(*old(self)),
            final(self).ready == old(self).ready,
            final(self).samples == old(self).samples,
            final(self).metal_samples == old(self).metal_samples,
            final(self).total_samples == old(self).total_samples,
            final(self).render == old(self).render,
            final(self).last_snapshot_revision == old(self).last_snapshot_revision,
    {
        if !self.input_enabled {
            return ;
        }
        let ghost before = self.waiting();
        match self.pending.remove(&id) {
            Some(list) => {
                let mut left: VecDeque<PendingInput> = VecDeque::new();
                let mut i: usize = 0;
                assert(list@.take(0) =~= seq![]);
                while i < list.len()
                    invariant
                        i <= list@.len(),
                        left@ == without(list@.take(i as int), sequence),
                    decreases list@.len() - i,
                {
                    assert(list@.take(i + 1).drop_last() =~= list@.take(i as int));
                    if list[i].sequence != sequence {
                        left.push_back(list[i]);
                    }
                    i = i + 1;
                }
                assert(list@.take(i as int) =~= list@);
                assert(before[id] == list@);
                self.pending.insert(id, left);
                assert(self.waiting() =~= before.insert(id, without(before[id], sequence)));
            },
            None => {
                assert(self.waiting() =~= before);
            },
        }
    }

    /// The interval after a snapshot.
    pub open spec fn interval_after_snapshot(&self, id: u128, revision: u64) -> RenderInterval {
        if self.render_enabled {
            let known = self.last_snapshot_revision@;
            RenderInterval {
                snapshots: plus(self.render.snapshots, 1),
                skipped_revisions: if known.contains_key(id) {
                    plus(self.render.skipped_revisions, since(since(revision, known[id]), 1))
                } else {
                    self.render.skipped_revisions
                },
                ..self.render
            }
        } else {
            self.render
        }
    }

    /// Takes in a snapshot: the inputs it answers go from the waiting to the answered ones.
    pub fn record_snapshot(&mut self, id: SessionId, last_input: u64, revision: u64, now: u64)
        ensures
            final(self).render == old(self).interval_after_snapshot(id, revision),
            final(self).last_snapshot_revision@ == if old(self).render_enabled {
                old(self).last_snapshot_revision@.insert(id, revision)
            } else {
                old(self).last_snapshot_revision@
            },
            ({
                let list = list_of(old(self).waiting(), id);
                let n = answered(list, last_input);
                let moved = answered_at(list.take(n), now);
                if old(self).input_enabled && old(self).waiting().contains_key(id) {
                    &&& final(self).waiting() == with_list(old(self).waiting(), id, list.skip(n))
                    &&& final(self).answered() == if n == 0 {
                        old(self).answered()
                    } else {
                        old(self).answered().insert(
                            id,
                            list_of(old(self).answered(), id) + moved,
                        )
                    }
                } else {
                    &&& final(self).waiting() == old(self).waiting()
                    &&& final(self).answered() == old(self).answered()
                }
            }),
            final(self).same_drawing(*old(self)),
            final(self).samples == old(self).samples,
            final(self).metal_samples == old(self).metal_samples,
            final(self).total_samples == old(self).total_samples,
    {
        if self.render_enabled {
            let skipped: u64 = match self.last_snapshot_revision.get(&id) {
                Some(previous) => sum(
                    self.render.skipped_revisions,
                    duration_since(duration_since(revision, *previous), 1),
                ),
                None => self.render.skipped_revisions,
            };
            self.last_snapshot_revision.insert(id, revision);
            self.render.snapshots = sum(self.render.snapshots, 1);
            self.render.skipped_revisions = skipped;
        }
        if !self.input_enabled {
            return ;
        }
        let ghost before = self.waiting();
        let ghost had = self.answered();
        match self.pending.remove(&id) {
            None => {
                assert(self.waiting() =~= before);
            },
            Some(mut list) => {
                assert(before[id] == list@);
                let mut n: usize = 0;
                let mut moved: VecDeque<ReadyInput> = VecDeque::new();
                assert(list@.skip(0) =~= list@);
                assert(moved@ =~= answered_at(list@.take(0), now));
                while n < list.len() && list[n].sequence <= last_input
                    invariant
                        n <= list@.len(),
                        moved@ == answered_at(list@.take(n as int), now),
                        answered(list@, last_input) == n + answered(
                            list@.skip(n as int),
                            last_input,
                        ),
                    ensures
                        n <= list@.len(),
                        moved@ == answered_at(list@.take(n as int), now),
                        answered(list@, last_input) == n,
                    decreases list@.len() - n,
                {
                    let p: PendingInput = list[n];
                    moved.push_back(
                        ReadyInput { sequence: p.sequence, input_at: p.input_at, snapshot_at: now },
                    );
                    assert(list@.skip(n as int).skip(1) =~= list@.skip(n + 1));
                    assert(moved@ =~= answered_at(list@.take(n + 1), now));
                    n = n + 1;
                }
                let ghost all = list@;
                let left: VecDeque<PendingInput> = list.split_off(n);
                assert(left@ =~= all.skip(n as int));
                if left.len() > 0 {
                    self.pending.insert(id, left);
                }
                assert(self.waiting() =~= with_list(before, id, all.skip(n as int)));
                if n > 0 {
                    let mut ready: VecDeque<ReadyInput> = match self.ready.remove(&id) {
                        Some(r) => r,
                        None => VecDeque::new(),
                    };
                    assert(ready@ =~= list_of(had, id));
                    let ghost want = ready@ + moved@;
                    ready.append(&mut moved);
                    assert(ready@ =~= want);
                    self.ready.insert(id, ready);
                    assert(self.answered() =~= had.insert(id, want));
                }
            },
        }
    }

    /// Takes in how long a preparation took.
    pub fn record_prepare(&mut self, elapsed: u64, cache_hit: bool)
        ensures
            final(self).prepare_samples@ == kept(old(self).prepare_samples@, elapsed),
            final(self).render == if old(self).render_enabled {
                RenderInterval {
                    preparations: plus(old(self).render.preparations, 1),
                    preparation_cache_hits: plus(
                        old(self).render.preparation_cache_hits,
                        if cache_hit {
                            1
                        } else {
                            0
                        },
                    ),
                    ..old(self).render
                }
            } else {
                old(self).render
            },
            final(self).input_enabled == old(self).input_enabled,
            final(self).render_enabled == old(self).render_enabled,
            final(self).pending == old(self).pending,
            final(self).ready == old(self).ready,
            final(self).samples == old(self).samples,
            final(self).metal_samples == old(self).metal_samples,
            final(self).total_samples == old(self).total_samples,
            final(self).reported_samples == old(self).reported_samples,
            final(self).render_report_at == old(self).render_report_at,
            final(self).last_snapshot_revision == old(self).last_snapshot_revision,
    {
        push_sample(&mut self.prepare_samples, elapsed);
        if self.render_enabled {
            self.render.preparations = sum(self.render.preparations, 1);
            self.render.preparation_cache_hits = sum(
                self.render.preparation_cache_hits,
                if cache_hit {
                    1
                } else {
                    0
                },
            );
        }
    }

    /// Takes in a frame: each input that it shows becomes a sample.
    pub fn record_metal(
        &mut self,
        id: SessionId,
        last_input: u64,
        elapsed: u64,
        stats: MetalFrameStats,
        now: u64,
    )
        ensures
            final(self).metal_samples@ == kept(old(self).metal_samples@, elapsed),
            final(self).render == if old(self).render_enabled {
                with_frame(old(self).render, stats)
            } else {
                old(self).render
            },
            ({
                let list = list_of(old(self).answered(), id);
                let n = shown(list, last_input);
                if old(self).input_enabled && old(self).answered().contains_key(id) {
                    &&& final(self).answered() == with_list(old(self).answered(), id, list.skip(n))
                    &&& final(self).samples@ == with_samples(
                        old(self).samples@,
                        list.take(n),
                        now,
                    )
                    &&& final(self).total_samples == plus(old(self).total_samples, n as u64)
                } else {
                    &&& final(self).answered() == old(self).answered()
                    &&& final(self).samples@ == old(self).samples@
                    &&& final(self).total_samples == old(self).total_samples
                }
            }),
            final(self).same_drawing(*old(self)),
            final(self).pending == old(self).pending,
            final(self).last_snapshot_revision == old(self).last_snapshot_revision,
    {
        push_sample(&mut self.metal_samples, elapsed);
        if self.render_enabled {
            self.render = self.render.add_frame(stats);
        }
        if !self.input_enabled {
            return ;
        }
        let ghost before = self.answered();
        let ghost start = self.samples@;
        let ghost total = self.total_samples;
        match self.ready.remove(&id) {
            None => {
                assert(self.answered() =~= before);
            },
            Some(mut list) => {
                assert(before[id] == list@);
                let ghost middle = *self;
                let mut n: usize = 0;
                assert(list@.skip(0) =~= list@);
                assert(list@.take(0) =~= seq![]);
                while n < list.len() && list[n].sequence <= last_input
                    invariant
                        n <= list@.len(),
                        self.samples@ == with_samples(start, list@.take(n as int), now),
                        self.total_samples == plus(total, n as u64),
                        shown(list@, last_input) == n + shown(list@.skip(n as int), last_input),
                        self.ready == middle.ready,
                        self.pending == middle.pending,
                        self.metal_samples == middle.metal_samples,
                        self.render == middle.render,
                        self.last_snapshot_revision == middle.last_snapshot_revision,
                        self.same_drawing(middle),
                    ensures
                        n <= list@.len(),
                        self.samples@ == with_samples(start, list@.take(n as int), now),
                        self.total_samples == plus(total, n as u64),
                        shown(list@, last_input) == n,
                        self.ready == middle.ready,
                        self.pending == middle.pending,
                        self.metal_samples == middle.metal_samples,
                        self.render == middle.render,
                        self.last_snapshot_revision == middle.last_snapshot_revision,
                        self.same_drawing(middle),
                    decreases list@.len() - n,
                {
                    let r: ReadyInput = list[n];
                    let sample: LatencySample = LatencySample {
                        input_to_snapshot: duration_since(r.snapshot_at, r.input_at),
                        snapshot_to_metal: duration_since(now, r.snapshot_at),
                        end_to_end: duration_since(now, r.input_at),
                    };
                    push_sample(&mut self.samples, sample);
                    self.total_samples = sum(self.total_samples, 1);
                    assert(list@.skip(n as int).skip(1) =~= list@.skip(n + 1));
                    assert(list@.take(n + 1).drop_last() =~= list@.take(n as int));
                    assert(sample == sample_of(list@[n as int], now));
                    n = n + 1;
                }
                let ghost all = list@;
                let left: VecDeque<ReadyInput> = list.split_off(n);
                assert(left@ =~= all.skip(n as int));
                if left.len() > 0 {
                    self.ready.insert(id, left);
                }
                assert(self.answered() =~= with_list(before, id, all.skip(n as int)));
            },
        }
    }

    /// The report on drawing that is due at `now`: none too early, and none where nothing happened.
    pub open spec fn render_report(&self, now: u64) -> Option<RenderReport> {
        let elapsed = since(now, self.render_report_at);
        if !self.render_enabled || elapsed < RENDER_REPORT_AFTER || (self.render.snapshots == 0
            && self.render.preparations == 0 && self.render.frames == 0) {
            None
        } else {
            Some(
                RenderReport {
                    elapsed,
                    interval: self.render,
                    prepare: quantiles_of(self.prepare_samples@),
                    metal: quantiles_of(self.metal_samples@),
                },
            )
        }
    }

    /// The report on input that is due.
    pub open spec fn input_report(&self) -> Option<InputReport> {
        if self.input_enabled && self.total_samples >= self.reported_samples + REPORT_EVERY {
            Some(
                InputReport {
                    samples: self.samples@.len() as usize,
                    input_to_snapshot: quantiles_of(snapshot_times(self.samples@)),
                    snapshot_to_metal: quantiles_of(metal_times(self.samples@)),
                    prepare: quantiles_of(self.prepare_samples@),
                    metal: quantiles_of(self.metal_samples@),
                    end_to_end: quantiles_of(whole_times(self.samples@)),
                },
            )
        } else {
            None
        }
    }

    /// The reports that are due. One on drawing begins a new interval, and so does the time for one
    /// where nothing happened.
    pub fn report_if_due(&mut self, now: u64) -> (r: (Option<RenderReport>, Option<InputReport>))
        ensures
            r.0 == old(self).render_report(now),
            r.1 == old(self).input_report(),
            ({
                let due = old(self).render_enabled && since(now, old(self).render_report_at)
                    >= RENDER_REPORT_AFTER;
                &&& final(self).render == if due {
                    no_interval()
                } else {
                    old(self).render
                }
                &&& final(self).render_report_at == if due {
                    now
                } else {
                    old(self).render_report_at
                }
            }),
            final(self).reported_samples == if r.1 is Some {
                old(self).total_samples
            } else {
                old(self).reported_samples
            },
            final(self).input_enabled == old(self).input_enabled,
            final(self).render_enabled == old(self).render_enabled,
            final(self).pending == old(self).pending,
            final(self).ready == old(self).ready,
            final(self).samples == old(self).samples,
            final(self).prepare_samples == old(self).prepare_samples,
            final(self).metal_samples == old(self).metal_samples,
            final(self).total_samples == old(self).total_samples,
            final(self).last_snapshot_revision == old(self).last_snapshot_revision,
    {
        let mut drawing: Option<RenderReport> = None;
        let elapsed: u64 = duration_since(now, self.render_report_at);
        if self.render_enabled && elapsed >= RENDER_REPORT_AFTER {
            let interval: RenderInterval = self.render;
            self.render = RenderInterval::empty();
            self.render_report_at = now;
            if !(interval.snapshots == 0 && interval.preparations == 0 && interval.frames == 0) {
                drawing = Some(
                    RenderReport {
                        elapsed,
                        interval,
                        prepare: window_quantiles(&self.prepare_samples),
                        metal: window_quantiles(&self.metal_samples),
                    },
                );
            }
        }
        let mut input: Option<InputReport> = None;
        if self.input_enabled && self.total_samples >= self.reported_samples && self.total_samples
            - self.reported_samples >= REPORT_EVERY {
            self.reported_samples = self.total_samples;
            let mut first: Vec<u64> = Vec::new();
            let mut second: Vec<u64> = Vec::new();
            let mut whole: Vec<u64> = Vec::new();
            let mut i: usize = 0;
            while i < self.samples.len()
                invariant
                    i <= self.samples@.len(),
                    first@ == snapshot_times(self.samples@.take(i as int)),
                    second@ == metal_times(self.samples@.take(i as int)),
                    whole@ == whole_times(self.samples@.take(i as int)),
                decreases self.samples@.len() - i,
            {
                let s: LatencySample = self.samples[i];
                first.push(s.input_to_snapshot);
                second.push(s.snapshot_to_metal);
                whole.push(s.end_to_end);
                assert(first@ =~= snapshot_times(self.samples@.take(i + 1)));
                assert(second@ =~= metal_times(self.samples@.take(i + 1)));
                assert(whole@ =~= whole_times(self.samples@.take(i + 1)));
                i = i + 1;
            }
            assert(self.samples@.take(i as int) =~= self.samples@);
            input = Some(
                InputReport {
                    samples: self.samples.len(),
                    input_to_snapshot: quantiles(&first),
                    snapshot_to_metal: quantiles(&second),
                    prepare: window_quantiles(&self.prepare_samples),
                    metal: window_quantiles(&self.metal_samples),
                    end_to_end: quantiles(&whole),
                },
            );
        }
        (drawing, input)
    }
}

/// The samples of inputs never overfill the window.
pub proof fn samples_stay_bounded(samples: Seq<LatencySample>, inputs: Seq<ReadyInput>, at: u64)
    requires
        samples.len() <= SAMPLE_WINDOW,
    ensures
        with_samples(samples, inputs, at).len() <= SAMPLE_WINDOW,
    decreases inputs.len(),
{
    if inputs.len() > 0 {
        samples_stay_bounded(samples, inputs.drop_last(), at);
    }
}

/// An input that is answered and then shown is measured as long as the two steps together, where
/// the clock went forward.
pub proof fn the_parts_make_up_the_whole(r: ReadyInput, at: u64)
    requires
        r.input_at <= r.snapshot_at <= at,
    ensures
        sample_of(r, at).end_to_end == sample_of(r, at).input_to_snapshot + sample_of(
            r,
            at,
        ).snapshot_to_metal,
{
}

/// Counters add up and stop at the greatest number; a time that runs backwards counts as none.
pub proof fn counters_add_up_and_stop(a: u64, b: u64)
    ensures
        a + b <= 0xffff_ffff_ffff_ffff ==> plus(a, b) == a + b,
        a + b > 0xffff_ffff_ffff_ffff ==> plus(a, b) == 0xffff_ffff_ffff_ffff,
        b <= a ==> since(a, b) + b == a,
        b > a ==> since(a, b) == 0,
{
}

/// Nothing has been counted at the start of an interval, and a frame is then all that was counted.
pub proof fn an_interval_starts_at_nothing(s: MetalFrameStats)
    ensures
        with_frame(no_interval(), s).frames == 1,
        with_frame(no_interval(), s).commands == s.command_count,
        with_frame(no_interval(), s).glyphs == s.glyph_count,
        with_frame(no_interval(), s).atlas_hits == s.atlas_hits,
        with_frame(no_interval(), s).atlas_misses == s.atlas_misses,
        with_frame(no_interval(), s).atlas_resets == s.atlas_resets,
        with_frame(no_interval(), s).raster_time == s.raster_time,
        with_frame(no_interval(), s).background_raster_jobs == s.background_raster_jobs,
        with_frame(no_interval(), s).background_raster_time == s.background_raster_time,
        with_frame(no_interval(), s).synchronous_raster_jobs == s.synchronous_raster_jobs,
        with_frame(no_interval(), s).synchronous_raster_time == s.synchronous_raster_time,
        with_frame(no_interval(), s).pending_rasters_peak == s.pending_rasters,
        with_frame(no_interval(), s).image_uploads == s.image_uploads,
        with_frame(no_interval(), s).image_upload_bytes == s.image_upload_bytes,
        with_frame(no_interval(), s).image_upload_time == s.image_upload_time,
        with_frame(no_interval(), s).draw_calls == s.draw_calls,
        no_interval().snapshots == 0,
        no_interval().skipped_revisions == 0,
        no_interval().preparations == 0,
        no_interval().preparation_cache_hits == 0,
{
}

/// A frame adds to what was counted before it; of the work that waits the most is kept, and what is not
/// counted by frames stays.
pub proof fn a_frame_adds_to_the_interval(r: RenderInterval, s: MetalFrameStats)
    ensures
        with_frame(r, s).frames == plus(r.frames, 1),
        with_frame(r, s).commands == plus(r.commands, s.command_count),
        with_frame(r, s).glyphs == plus(r.glyphs, s.glyph_count),
        with_frame(r, s).atlas_hits == plus(r.atlas_hits, s.atlas_hits),
        with_frame(r, s).atlas_misses == plus(r.atlas_misses, s.atlas_misses),
        with_frame(r, s).atlas_resets == plus(r.atlas_resets, s.atlas_resets),
        with_frame(r, s).raster_time == plus(r.raster_time, s.raster_time),
        with_frame(r, s).background_raster_jobs == plus(
            r.background_raster_jobs,
            s.background_raster_jobs,
        ),
        with_frame(r, s).background_raster_time == plus(
            r.background_raster_time,
            s.background_raster_time,
        ),
        with_frame(r, s).synchronous_raster_jobs == plus(
            r.synchronous_raster_jobs,
            s.synchronous_raster_jobs,
        ),
        with_frame(r, s).synchronous_raster_time == plus(
            r.synchronous_raster_time,
            s.synchronous_raster_time,
        ),
        with_frame(r, s).image_uploads == plus(r.image_uploads, s.image_uploads),
        with_frame(r, s).image_upload_bytes == plus(r.image_upload_bytes, s.image_upload_bytes),
        with_frame(r, s).image_upload_time == plus(r.image_upload_time, s.image_upload_time),
        with_frame(r, s).draw_calls == plus(r.draw_calls, s.draw_calls),
        with_frame(r, s).pending_rasters_peak >= r.pending_rasters_peak,
        with_frame(r, s).pending_rasters_peak >= s.pending_rasters,
        with_frame(r, s).pending_rasters_peak == r.pending_rasters_peak || with_frame(
            r,
            s,
        ).pending_rasters_peak == s.pending_rasters,
        with_frame(r, s).snapshots == r.snapshots,
        with_frame(r, s).skipped_revisions == r.skipped_revisions,
        with_frame(r, s).preparations == r.preparations,
        with_frame(r, s).preparation_cache_hits == r.preparation_cache_hits,
{
}

/// The last 256 samples are kept: a new one comes last, and the oldest leaves where there were as many.
pub proof fn the_last_samples_are_kept<T>(s: Seq<T>, x: T)
    requires
        s.len() <= 256,
    ensures
        s.len() < 256 ==> kept(s, x) == s.push(x),
        s.len() == 256 ==> kept(s, x) == s.skip(1).push(x),
{
    if s.len() == 256 {
        assert(s.push(x).skip(1) =~= s.skip(1).push(x));
    }
}

/// Samples in ascending order are the same samples, the smaller ones first.
pub proof fn samples_ascend(samples: Seq<u64>, p: int, q: int, i: int)
    requires
        0 <= p < q < samples.len(),
        0 <= i < samples.len(),
    ensures
        ascending(samples).len() == samples.len(),
        ascending(samples)[p] <= ascending(samples)[q],
        ascending(samples).contains(samples[i]),
{
    let n = samples.len() as int;
    order::numbers_are_ordered();
    order::a_stable_order_is_a_permutation(samples, order::by_number(), n);
    order::a_stable_order_is_sorted(samples, order::by_number(), n, p, q);
    order::a_permutation_reaches(samples, order::by_number(), n, i);
    let places = order::stable_order(samples, order::by_number(), n);
    assert(0 <= places[p] < n && 0 <= places[q] < n);
    let w = choose|w: int| 0 <= w < n && places[w] == i;
    assert(ascending(samples)[w] == samples[i]);
    assert(order::by_number()(samples[places[p]], samples[places[q]]));
}

/// A percentile is the sample that stands as far up as it says: the first at 0, the last at 100. Without
/// samples it is none.
pub proof fn a_percentile_stands_as_far_up_as_it_says(samples: Seq<u64>, p: int)
    requires
        0 <= p <= 100,
        samples.len() * 100 <= usize::MAX,
    ensures
        samples.len() == 0 ==> percentile_of(samples, p) == 0,
        samples.len() > 0 ==> percentile_of(samples, p) == ascending(samples)[((samples.len() - 1)
            * p) / 100],
        samples.len() > 0 ==> percentile_of(samples, 0) == ascending(samples)[0],
        samples.len() > 0 ==> percentile_of(samples, 100) == ascending(samples)[samples.len() - 1],
{
    if samples.len() > 0 {
        let last = samples.len() - 1;
        assert(last * p <= last * 100) by (nonlinear_arith)
            requires
                0 <= last,
                p <= 100,
        ;
        assert(0 <= last * p) by (nonlinear_arith)
            requires
                0 <= last,
                0 <= p,
        ;
        assert(last * 0 == 0);
        assert((last * p) / 100 <= last);
    }
}

/// Measuring is switched on by any value but an empty one and a zero.
pub proof fn measuring_is_switched_on(value: Seq<char>)
    ensures
        !switched_on(None),
        !switched_on(Some(seq![])),
        !switched_on(Some(seq!['0'])),
        value.len() > 0 && value != seq!['0'] ==> switched_on(Some(value)),
{
    reveal_strlit("0");
    assert("0"@ =~= seq!['0']);
}

/// A list that is put in can be read back, the others stay, and an empty one takes no room.
pub proof fn a_list_can_be_read_back<T>(
    t: Map<u128, Seq<T>>,
    id: u128,
    list: Seq<T>,
    other: u128,
)
    ensures
        list_of(with_list(t, id, list), id) == list,
        other != id ==> list_of(with_list(t, id, list), other) == list_of(t, other),
        other != id ==> (with_list(t, id, list).contains_key(other) <==> t.contains_key(other)),
        with_list(t, id, list).contains_key(id) <==> list.len() > 0,
        !t.contains_key(id) ==> list_of(t, id).len() == 0,
{
    if list.len() == 0 {
        assert(list =~= seq![]);
    }
}

/// The lists are those of the table.
pub proof fn lists_are_those_of_the_table<T>(t: Map<u128, VecDeque<T>>, id: u128)
    ensures
        lists(t).contains_key(id) <==> t.contains_key(id),
        t.contains_key(id) ==> lists(t)[id] == t[id]@,
{
}

/// A snapshot answers the inputs in front up to its last one, and those alone; a frame shows them in the
/// same way.
pub proof fn inputs_in_front_are_answered(
    pending: Seq<PendingInput>,
    ready: Seq<ReadyInput>,
    last: u64,
    n: int,
    m: int,
)
    ensures
        0 <= n <= pending.len() && (forall|i: int|
            0 <= i < n ==> (#[trigger] pending[i]).sequence <= last) && (n < pending.len()
            ==> pending[n].sequence > last) ==> answered(pending, last) == n,
        0 <= m <= ready.len() && (forall|i: int|
            0 <= i < m ==> (#[trigger] ready[i]).sequence <= last) && (m < ready.len()
            ==> ready[m].sequence > last) ==> shown(ready, last) == m,
{
    if 0 <= n <= pending.len() && (forall|i: int|
        0 <= i < n ==> (#[trigger] pending[i]).sequence <= last) && (n < pending.len()
        ==> pending[n].sequence > last) {
        answered_in_front(pending, last, n);
    }
    if 0 <= m <= ready.len() && (forall|i: int|
        0 <= i < m ==> (#[trigger] ready[i]).sequence <= last) && (m < ready.len()
        ==> ready[m].sequence > last) {
        shown_in_front(ready, last, m);
    }
}

proof fn answered_in_front(pending: Seq<PendingInput>, last: u64, n: int)
    requires
        0 <= n <= pending.len(),
        forall|i: int| 0 <= i < n ==> (#[trigger] pending[i]).sequence <= last,
        n < pending.len() ==> pending[n].sequence > last,
    ensures
        answered(pending, last) == n,
    decreases n,
{
    if n > 0 {
        let rest = pending.skip(1);
        assert(pending[0].sequence <= last);
        assert forall|i: int| 0 <= i < n - 1 implies (#[trigger] rest[i]).sequence <= last by {
            assert(rest[i] == pending[i + 1]);
        }
        answered_in_front(rest, last, n - 1);
    }
}

proof fn shown_in_front(ready: Seq<ReadyInput>, last: u64, n: int)
    requires
        0 <= n <= ready.len(),
        forall|i: int| 0 <= i < n ==> (#[trigger] ready[i]).sequence <= last,
        n < ready.len() ==> ready[n].sequence > last,
    ensures
        shown(ready, last) == n,
    decreases n,
{
    if n > 0 {
        let rest = ready.skip(1);
        assert(ready[0].sequence <= last);
        assert forall|i: int| 0 <= i < n - 1 implies (#[trigger] rest[i]).sequence <= last by {
            assert(rest[i] == ready[i + 1]);
        }
        shown_in_front(rest, last, n - 1);
    }
}

/// An answered input keeps its number and its time, and gets the time of the answer.
pub proof fn an_answered_input_keeps_its_time(inputs: Seq<PendingInput>, at: u64, k: int)
    requires
        0 <= k < inputs.len(),
    ensures
        answered_at(inputs, at).len() == inputs.len(),
        answered_at(inputs, at)[k].sequence == inputs[k].sequence,
        answered_at(inputs, at)[k].input_at == inputs[k].input_at,
        answered_at(inputs, at)[k].snapshot_at == at,
{
}

/// A sample holds the three times that lie between the input, the snapshot and the frame; samples come in
/// the order of the inputs.
pub proof fn a_sample_holds_three_times(
    samples: Seq<LatencySample>,
    inputs: Seq<ReadyInput>,
    r: ReadyInput,
    at: u64,
)
    ensures
        r.input_at <= r.snapshot_at ==> sample_of(r, at).input_to_snapshot + r.input_at
            == r.snapshot_at,
        r.snapshot_at <= at ==> sample_of(r, at).snapshot_to_metal + r.snapshot_at == at,
        r.input_at <= at ==> sample_of(r, at).end_to_end + r.input_at == at,
        with_samples(samples, seq![], at) == samples,
        with_samples(samples, inputs.push(r), at) == kept(
            with_samples(samples, inputs, at),
            sample_of(r, at),
        ),
{
    assert(inputs.push(r).drop_last() =~= inputs);
    assert(inputs.push(r).last() == r);
}

/// An input that is taken back leaves the list; the others stay, in order.
pub proof fn an_input_taken_back_leaves_the_list(inputs: Seq<PendingInput>, sequence: u64)
    ensures
        without(inputs, sequence) == inputs.filter(|p: PendingInput| p.sequence != sequence),
    decreases inputs.len(),
{
    reveal(Seq::filter);
    if inputs.len() > 0 {
        an_input_taken_back_leaves_the_list(inputs.drop_last(), sequence);
    }
}

/// The middle and the upper end of the samples are reported: the 50th and the 95th percentile.
pub proof fn the_middle_and_the_upper_end_are_reported(samples: Seq<u64>)
    ensures
        quantiles_of(samples).p50 == percentile_of(samples, 50),
        quantiles_of(samples).p95 == percentile_of(samples, 95),
{
}

/// Each of the three times is taken from the samples in order.
pub proof fn times_are_taken_in_order(samples: Seq<LatencySample>, k: int)
    requires
        0 <= k < samples.len(),
    ensures
        snapshot_times(samples).len() == samples.len(),
        metal_times(samples).len() == samples.len(),
        whole_times(samples).len() == samples.len(),
        snapshot_times(samples)[k] == samples[k].input_to_snapshot,
        metal_times(samples)[k] == samples[k].snapshot_to_metal,
        whole_times(samples)[k] == samples[k].end_to_end,
{
}

/// A snapshot is counted while drawing is measured, and so are the revisions between it and the last one
/// of its session; nothing else of the interval changes.
pub proof fn skipped_revisions_are_counted(s: LatencyState, id: u128, revision: u64)
    ensures
        !s.render_enabled ==> s.interval_after_snapshot(id, revision) == s.render,
        s.render_enabled ==> s.interval_after_snapshot(id, revision).snapshots == plus(
            s.render.snapshots,
            1,
        ),
        s.render_enabled && !s.last_snapshot_revision@.contains_key(id)
            ==> s.interval_after_snapshot(id, revision).skipped_revisions
            == s.render.skipped_revisions,
        s.render_enabled && s.last_snapshot_revision@.contains_key(id)
            && s.last_snapshot_revision@[id] < revision ==> s.interval_after_snapshot(
            id,
            revision,
        ).skipped_revisions == plus(
            s.render.skipped_revisions,
            (revision - s.last_snapshot_revision@[id] - 1) as u64,
        ),
        s.render_enabled && s.last_snapshot_revision@.contains_key(id)
            && s.last_snapshot_revision@[id] >= revision ==> s.interval_after_snapshot(
            id,
            revision,
        ).skipped_revisions == s.render.skipped_revisions,
        s.interval_after_snapshot(id, revision) == (RenderInterval {
            snapshots: s.interval_after_snapshot(id, revision).snapshots,
            skipped_revisions: s.interval_after_snapshot(id, revision).skipped_revisions,
            ..s.render
        }),
{
}

/// Drawing is reported while it is measured, at most every 800 milliseconds, and only where something was
/// done; the report holds what was counted.
pub proof fn drawing_is_reported_now_and_then(s: LatencyState, now: u64)
    ensures
        s.render_report(now) is Some <==> s.render_enabled && now - s.render_report_at
            >= 800_000_000 && (s.render.snapshots > 0 || s.render.preparations > 0
            || s.render.frames > 0),
        s.render_report(now) matches Some(r) ==> r.elapsed == now - s.render_report_at && r.interval
            == s.render && r.prepare == quantiles_of(s.prepare_samples@) && r.metal
            == quantiles_of(s.metal_samples@),
{
}

/// Input is reported while it is measured, after every 16 samples.
pub proof fn input_is_reported_after_enough_samples(s: LatencyState)
    ensures
        s.input_report() is Some <==> s.input_enabled && s.total_samples - s.reported_samples >= 16,
        s.input_report() matches Some(r) ==> r.input_to_snapshot == quantiles_of(
            snapshot_times(s.samples@),
        ) && r.snapshot_to_metal == quantiles_of(metal_times(s.samples@)) && r.end_to_end
            == quantiles_of(whole_times(s.samples@)) && r.prepare == quantiles_of(
            s.prepare_samples@,
        ) && r.metal == quantiles_of(s.metal_samples@) && (s.samples@.len() <= usize::MAX
            ==> r.samples == s.samples@.len()),
{
}

/// The waiting and the answered inputs are those of the tables, and drawing is the same where none of its
/// parts changed.
pub proof fn inputs_are_those_of_the_tables(s: LatencyState, o: LatencyState)
    ensures
        s.waiting() == lists(s.pending@),
        s.answered() == lists(s.ready@),
        s.same_drawing(o) ==> s.input_enabled == o.input_enabled && s.render_enabled
            == o.render_enabled && s.prepare_samples == o.prepare_samples && s.reported_samples
            == o.reported_samples && s.render_report_at == o.render_report_at,
{
}

} // verus!
