//! The chaos game as a state machine on integers.
//!
//! The caller owns the working points and moves them; the game decides which
//! point is moved next, which map moves it, which histogram bin a landing
//! belongs to, and counts the hits. A landing that escaped the plane changes
//! nothing but the step count, so the same point is tried again on its next
//! turn.

use rand::Rng;
use vstd::arithmetic::div_mod::{
    lemma_fundamental_div_mod_converse_div, lemma_fundamental_div_mod_converse_mod,
    lemma_small_mod,
};
use vstd::prelude::*;

use crate::flame_2d::Flame;
use crate::pixels::{black, lemma_packed_layout, pack_pixels, packed, Pixel};
use crate::seeds::SEED_COUNT;

verus! {

/// The time a render runs for when nothing else is asked, in milliseconds.
pub const DEFAULT_TIME_BUDGET_MS: u64 = 60000;

/// Why a render was refused before it began.
#[derive(Clone, Copy, Debug, PartialEq, Eq)]
pub enum ConfigError {
    /// The flame has no map to choose from.
    NoTransforms,
    /// The flame's maps and colours are not equally many.
    ColorCountMismatch,
    /// The image is zero pixels wide.
    ZeroWidth,
    /// The image is zero pixels high.
    ZeroHeight,
    /// The histogram would have more bins than the machine can index.
    TooManyBins,
}

/// The first fault of a configuration, if it has one.
pub open spec fn config_fault(width: nat, height: nat, transforms: nat, colors: nat) -> Option<
    ConfigError,
> {
    if transforms == 0 {
        Some(ConfigError::NoTransforms)
    } else if colors != transforms {
        Some(ConfigError::ColorCountMismatch)
    } else if width == 0 {
        Some(ConfigError::ZeroWidth)
    } else if height == 0 {
        Some(ConfigError::ZeroHeight)
    } else if width * height > usize::MAX {
        Some(ConfigError::TooManyBins)
    } else {
        None
    }
}

impl ConfigError {
    /// The text shown to the user for this fault.
    pub open spec fn spec_message(self) -> Seq<char> {
        match self {
            ConfigError::NoTransforms => "the flame has no transforms"@,
            ConfigError::ColorCountMismatch => "the flame's transforms and colors differ in number"@,
            ConfigError::ZeroWidth => "the image width is zero"@,
            ConfigError::ZeroHeight => "the image height is zero"@,
            ConfigError::TooManyBins => "the image has too many pixels"@,
        }
    }

    /// A sentence that says what was wrong.
    pub fn message(&self) -> (text: String)
        ensures
            text@ == self.spec_message(),
    {
        match self {
            ConfigError::NoTransforms => "the flame has no transforms".to_owned(),
            ConfigError::ColorCountMismatch => {
                "the flame's transforms and colors differ in number".to_owned()
            },
            ConfigError::ZeroWidth => "the image width is zero".to_owned(),
            ConfigError::ZeroHeight => "the image height is zero".to_owned(),
            ConfigError::TooManyBins => "the image has too many pixels".to_owned(),
        }
    }
}

/// Where a moved point came down, as the caller found it.
#[derive(Clone, Copy, Debug, PartialEq, Eq)]
pub enum Landing {
    /// A coordinate left the plane: its absolute value is above one.
    Escaped,
    /// The point is on the plane. `bx` and `by` are its distances from the
    /// plane's lower corner, counted in whole bins: each coordinate is moved
    /// up by one, divided by the bin's extent and cut to an integer.
    Inside { bx: u64, by: u64 },
}

/// What a step did.
#[derive(Clone, Copy, Debug, PartialEq, Eq)]
pub enum Outcome {
    /// The landing escaped. The point stays where it was.
    Retried,
    /// The hit was counted in `bin`. The point moves to where it landed.
    Plotted { bin: usize },
    /// The landing is on the plane's far edge and has no bin. Nothing was
    /// counted; the point still moves to where it landed.
    Dropped,
}

impl Outcome {
    /// Whether the caller moves the point to where it landed: it does unless
    /// the landing escaped.
    pub fn moves_point(self) -> (moved: bool)
        ensures
            moved <==> self != Outcome::Retried,
    {
        match self {
            Outcome::Retried => false,
            Outcome::Plotted { .. } => true,
            Outcome::Dropped => true,
        }
    }

    /// The bin that gained a hit, if one did. The caller adds the colour of
    /// the map that moved the point to what that bin has gathered.
    pub fn bin(self) -> (hit: Option<usize>)
        ensures
            hit == match self {
                Outcome::Plotted { bin } => Some(bin),
                _ => None,
            },
    {
        match self {
            Outcome::Plotted { bin } => Some(bin),
            _ => None,
        }
    }
}

/// How long a render may run: a time in milliseconds and, where one is set,
/// a number of steps.
#[derive(Clone, Copy, Debug, PartialEq, Eq)]
pub struct Budget {
    pub time_ms: u64,
    pub max_iterations: Option<u64>,
}

impl Budget {
    /// Whether a render that has taken `iterations` steps in `elapsed_ms`
    /// milliseconds may take another: it has time left, and steps left where
    /// they are counted.
    pub open spec fn allows(self, iterations: nat, elapsed_ms: nat) -> bool {
        &&& elapsed_ms < self.time_ms
        &&& match self.max_iterations {
            Some(limit) => iterations < limit,
            None => true,
        }
    }

    /// The budget of a render that was given none: a minute, with no limit
    /// on the steps.
    pub fn timed() -> (budget: Budget)
        ensures
            budget == (Budget { time_ms: DEFAULT_TIME_BUDGET_MS, max_iterations: None }),
    {
        Budget { time_ms: DEFAULT_TIME_BUDGET_MS, max_iterations: None }
    }

    /// A budget of `limit` steps, however long they take.
    pub fn counted(limit: u64) -> (budget: Budget)
        ensures
            budget == (Budget { time_ms: u64::MAX, max_iterations: Some(limit) }),
    {
        Budget { time_ms: u64::MAX, max_iterations: Some(limit) }
    }
}

/// All the hits of a histogram together.
pub open spec fn total_hits(hits: Seq<u64>) -> nat
    decreases hits.len(),
{
    if hits.len() == 0 {
        0
    } else {
        total_hits(hits.drop_last()) + hits.last() as nat
    }
}

/// A game as contracts see it.
pub struct GameState {
    pub width: nat,
    pub height: nat,
    pub transforms: nat,
    pub hits: Seq<u64>,
    pub iterations: nat,
}

impl GameState {
    /// What holds of every game: the histogram has a bin for each pixel,
    /// there is a map to choose, and the bins together were hit no more
    /// often than steps were taken.
    pub open spec fn valid(self) -> bool {
        &&& self.width >= 1
        &&& self.height >= 1
        &&& self.transforms >= 1
        &&& self.hits.len() == self.width * self.height
        &&& total_hits(self.hits) <= self.iterations
    }

    /// The bin of a landing: its column plus the image width times its row,
    /// where that is a bin of the histogram.
    pub open spec fn bin_of(self, landing: Landing) -> Option<int> {
        match landing {
            Landing::Escaped => None,
            Landing::Inside { bx, by } => {
                if bx + self.width * by < self.hits.len() {
                    Some(bx + self.width * by)
                } else {
                    None
                }
            },
        }
    }

    /// What a step reports for a landing.
    pub open spec fn outcome(self, landing: Landing) -> Outcome {
        match landing {
            Landing::Escaped => Outcome::Retried,
            Landing::Inside { .. } => match self.bin_of(landing) {
                Some(bin) => Outcome::Plotted { bin: bin as usize },
                None => Outcome::Dropped,
            },
        }
    }

    /// The game after a step: one more step taken, and one more hit in the
    /// landing's bin if it has one.
    pub open spec fn after(self, landing: Landing) -> GameState {
        GameState {
            hits: match self.bin_of(landing) {
                Some(bin) => self.hits.update(bin, (self.hits[bin] + 1) as u64),
                None => self.hits,
            },
            iterations: self.iterations + 1,
            ..self
        }
    }

    /// The pixels that are shown for the given tones: each bin's own, but
    /// black for a bin that was never hit.
    pub open spec fn shown(self, tones: Seq<Pixel>) -> Seq<Pixel> {
        Seq::new(
            tones.len(),
            |i: int|
                if 0 <= i < self.hits.len() && self.hits[i] == 0 {
                    black()
                } else {
                    tones[i]
                },
        )
    }
}

/// The map that a random draw selects among `count`: the draw's remainder.
pub open spec fn selected(raw: u32, count: nat) -> nat
    recommends
        count > 0,
{
    raw as nat % count
}

/// Which of `count` maps the draw `raw` selects. Every map is selected by
/// some draw, and each by as many draws as any other, to within one.
pub fn select_transform(raw: u32, count: usize) -> (index: usize)
    requires
        count > 0,
    ensures
        index == selected(raw, count as nat),
        index < count,
{
    raw as usize % count
}

/// One draw from the thread's generator, `rand::thread_rng()`, taken with
/// `Rng::gen::<u32>()`. Nothing is known of the value: two draws may differ
/// or agree. The generator seeds itself from the system on its first use and
/// stops the program if the system gives it no seed.
#[verifier::external_body]
fn random_u32() -> (raw: u32) {
    rand::thread_rng().gen::<u32>()
}

/// One render's histogram and step count.
pub struct ChaosGame {
    width: u32,
    height: u32,
    transforms: usize,
    hits: Vec<u64>,
    iterations: u64,
}

impl View for ChaosGame {
    type V = GameState;

    closed spec fn view(&self) -> GameState {
        GameState {
            width: self.width as nat,
            height: self.height as nat,
            transforms: self.transforms as nat,
            hits: self.hits@,
            iterations: self.iterations as nat,
        }
    }
}

impl ChaosGame {
    /// The game's state is one that `new` and `step` can have produced.
    pub open spec fn wf(&self) -> bool {
        self@.valid()
    }

    /// A game for an image of `width` by `height` pixels and a flame of
    /// `transforms` maps and `colors` colours, every bin empty. The
    /// configuration is refused for its first fault.
    pub fn new(width: u32, height: u32, transforms: usize, colors: usize) -> (result: Result<
        ChaosGame,
        ConfigError,
    >)
        ensures
            match config_fault(width as nat, height as nat, transforms as nat, colors as nat) {
                Some(fault) => result == Err::<ChaosGame, ConfigError>(fault),
                None => result.is_ok(),
            },
            result matches Ok(game) ==> {
                &&& game.wf()
                &&& game@.width == width
                &&& game@.height == height
                &&& game@.transforms == transforms
                &&& game@.iterations == 0
                &&& game@.hits == Seq::new((width * height) as nat, |i: int| 0u64)
            },
    {
        if transforms == 0 {
            return Err(ConfigError::NoTransforms);
        }
        if colors != transforms {
            return Err(ConfigError::ColorCountMismatch);
        }
        if width == 0 {
            return Err(ConfigError::ZeroWidth);
        }
        if height == 0 {
            return Err(ConfigError::ZeroHeight);
        }
        assert(width * height <= u64::MAX) by (nonlinear_arith)
            requires
                width <= u32::MAX,
                height <= u32::MAX,
        ;
        let wide: u64 = width as u64 * height as u64;
        if wide > usize::MAX as u64 {
            return Err(ConfigError::TooManyBins);
        }
        let bins: usize = wide as usize;
        let mut hits: Vec<u64> = Vec::new();
        let mut i: usize = 0;
        while i < bins
            invariant
                i <= bins,
                hits@ == Seq::new(i as nat, |k: int| 0u64),
            decreases bins - i,
        {
            hits.push(0);
            i = i + 1;
            assert(hits@ =~= Seq::new(i as nat, |k: int| 0u64));
        }
        proof {
            lemma_unhit_total(hits@);
        }
        Ok(ChaosGame { width, height, transforms, hits, iterations: 0 })
    }

    /// A game for the given flame: `new` with the flame's own counts.
    pub fn for_flame<T, C>(flame: &Flame<T, C>, width: u32, height: u32) -> (result: Result<
        ChaosGame,
        ConfigError,
    >)
        ensures
            match config_fault(
                width as nat,
                height as nat,
                flame.transforms@.len(),
                flame.colors@.len(),
            ) {
                Some(fault) => result == Err::<ChaosGame, ConfigError>(fault),
                None => result.is_ok(),
            },
            flame.transforms@.len() == 0 ==> result == Err::<ChaosGame, ConfigError>(
                ConfigError::NoTransforms,
            ),
            result matches Ok(game) ==> {
                &&& game.wf()
                &&& flame.wf()
                &&& game@.width == width
                &&& game@.height == height
                &&& game@.transforms == flame.transforms@.len()
                &&& game@.iterations == 0
                &&& game@.hits == Seq::new((width * height) as nat, |i: int| 0u64)
            },
    {
        ChaosGame::new(width, height, flame.transforms.len(), flame.colors.len())
    }

    /// The image width in pixels.
    pub fn width(&self) -> (w: u32)
        ensures
            w == self@.width,
    {
        self.width
    }

    /// The image height in pixels.
    pub fn height(&self) -> (h: u32)
        ensures
            h == self@.height,
    {
        self.height
    }

    /// How many maps there are to choose from.
    pub fn transforms(&self) -> (n: usize)
        ensures
            n == self@.transforms,
    {
        self.transforms
    }

    /// How many steps were taken.
    pub fn iterations(&self) -> (n: u64)
        ensures
            n == self@.iterations,
    {
        self.iterations
    }

    /// How many bins the histogram has.
    pub fn bins(&self) -> (n: usize)
        ensures
            n == self@.hits.len(),
    {
        self.hits.len()
    }

    /// The hit count of one bin.
    pub fn hits(&self, bin: usize) -> (count: Option<u64>)
        ensures
            count == if bin < self@.hits.len() {
                Some(self@.hits[bin as int])
            } else {
                None
            },
    {
        if bin < self.hits.len() {
            Some(self.hits[bin])
        } else {
            None
        }
    }

    /// The working point whose turn it is: the points take turns in order,
    /// escaped landings included.
    pub fn next_point(&self) -> (index: usize)
        ensures
            index == self@.iterations % SEED_COUNT as nat,
            index < SEED_COUNT,
    {
        (self.iterations % SEED_COUNT as u64) as usize
    }

    /// Draws the map for this step at random. Whatever is drawn, it is one
    /// of the flame's maps.
    pub fn pick_transform(&self) -> (index: usize)
        requires
            self.wf(),
        ensures
            index < self@.transforms,
    {
        let raw: u32 = random_u32();
        select_transform(raw, self.transforms)
    }

    /// Whether another step can be counted.
    pub fn can_step(&self) -> (room: bool)
        ensures
            room <==> self@.iterations < u64::MAX,
    {
        self.iterations < u64::MAX
    }

    /// Takes one step: counts it, and counts a hit in the landing's bin if
    /// it has one. An escaped landing leaves every bin as it was.
    pub fn step(&mut self, landing: Landing) -> (outcome: Outcome)
        requires
            old(self).wf(),
            old(self)@.iterations < u64::MAX,
        ensures
            final(self).wf(),
            final(self)@ == old(self)@.after(landing),
            outcome == old(self)@.outcome(landing),
            landing == Landing::Escaped ==> final(self)@.hits == old(self)@.hits,
    {
        let ghost before = self@;
        let found = self.bin_index(landing);
        self.iterations = self.iterations + 1;
        match found {
            Some(bin) => {
                let count: u64 = self.hits[bin];
                proof {
                    lemma_bin_within_total(before.hits, bin as int);
                    lemma_total_after_hit(before.hits, bin as int, (count + 1) as u64);
                }
                self.hits.set(bin, count + 1);
                Outcome::Plotted { bin }
            },
            None => {
                match landing {
                    Landing::Escaped => Outcome::Retried,
                    Landing::Inside { .. } => Outcome::Dropped,
                }
            },
        }
    }

    /// The bin that a landing belongs to, if it has one.
    pub fn bin_index(&self, landing: Landing) -> (found: Option<usize>)
        requires
            self.wf(),
        ensures
            found matches Some(bin) ==> self@.bin_of(landing) == Some(bin as int) && bin
                < self@.hits.len(),
            found.is_none() <==> self@.bin_of(landing).is_none(),
    {
        match landing {
            Landing::Escaped => None,
            Landing::Inside { bx, by } => {
                let bins: usize = self.hits.len();
                if by >= self.height as u64 {
                    proof {
                        lemma_row_past_end(self@.width, self@.height, by as nat);
                    }
                    None
                } else {
                    proof {
                        lemma_row_start(self@.width, self@.height, by as nat);
                    }
                    let row_start: u64 = self.width as u64 * by;
                    if bx >= bins as u64 - row_start {
                        None
                    } else {
                        Some((bx + row_start) as usize)
                    }
                }
            },
        }
    }

    /// The largest hit count of the image.
    pub fn max_hits(&self) -> (most: u64)
        requires
            self.wf(),
        ensures
            forall|i: int| 0 <= i < self@.hits.len() ==> #[trigger] self@.hits[i] <= most,
            exists|i: int| 0 <= i < self@.hits.len() && #[trigger] self@.hits[i] == most,
            most <= self@.iterations,
    {
        assert(self@.hits.len() >= 1) by (nonlinear_arith)
            requires
                self@.width >= 1,
                self@.height >= 1,
                self@.hits.len() == self@.width * self@.height,
        ;
        proof {
            assert forall|i: int| 0 <= i < self@.hits.len() implies #[trigger] self@.hits[i]
                <= self@.iterations by {
                lemma_bin_within_total(self@.hits, i);
            }
        }
        let mut most: u64 = self.hits[0];
        let mut i: usize = 1;
        while i < self.hits.len()
            invariant
                1 <= i <= self.hits@.len(),
                forall|k: int| 0 <= k < i ==> #[trigger] self.hits@[k] <= most,
                exists|k: int| 0 <= k < i && #[trigger] self.hits@[k] == most,
            decreases self.hits@.len() - i,
        {
            if self.hits[i] > most {
                most = self.hits[i];
            }
            i = i + 1;
        }
        most
    }

    /// Whether the render goes on after `elapsed_ms` milliseconds: the budget
    /// allows another step and the step count has room for it.
    pub fn keep_looping(&self, budget: &Budget, elapsed_ms: u64) -> (go_on: bool)
        ensures
            go_on <==> budget.allows(self@.iterations, elapsed_ms as nat) && self@.iterations
                < u64::MAX,
    {
        let in_count = match budget.max_iterations {
            Some(limit) => self.iterations < limit,
            None => true,
        };
        elapsed_ms < budget.time_ms && in_count && self.iterations < u64::MAX
    }

    /// The image's pixel buffer, from one tone for each bin in the bins'
    /// order: row after row from the top, each row from the left, three
    /// bytes a pixel. A bin that was never hit is black whatever its tone.
    /// Tones that are not as many as the bins give nothing.
    pub fn finish(&self, tones: &Vec<Pixel>) -> (buffer: Option<Vec<u8>>)
        requires
            self.wf(),
        ensures
            buffer.is_some() <==> tones@.len() == self@.hits.len(),
            buffer matches Some(bytes) ==> bytes@ == packed(self@.shown(tones@)) && bytes@.len()
                == 3 * self@.width * self@.height,
    {
        if tones.len() != self.hits.len() {
            return None;
        }
        let mut shown: Vec<Pixel> = Vec::new();
        let mut i: usize = 0;
        while i < tones.len()
            invariant
                i <= tones@.len(),
                tones@.len() == self.hits@.len(),
                shown@.len() == i,
                forall|k: int| 0 <= k < i ==> shown@[k] == self@.shown(tones@)[k],
            decreases tones@.len() - i,
        {
            if self.hits[i] == 0 {
                shown.push(Pixel { r: 0, g: 0, b: 0 });
            } else {
                shown.push(tones[i]);
            }
            i = i + 1;
        }
        assert(shown@ =~= self@.shown(tones@));
        let bytes = pack_pixels(&shown);
        assert(3 * (self@.width * self@.height) == 3 * self@.width * self@.height)
            by (nonlinear_arith);
        Some(bytes)
    }
}

/// A row at or past the image's height starts at or past the histogram's end.
proof fn lemma_row_past_end(width: nat, height: nat, by: nat)
    requires
        by >= height,
    ensures
        width * by >= width * height,
{
    assert(width * by >= width * height) by (nonlinear_arith)
        requires
            by >= height,
    ;
}

/// A row of the image starts a whole row before the histogram's end.
proof fn lemma_row_start(width: nat, height: nat, by: nat)
    requires
        by < height,
    ensures
        width * by + width <= width * height,
{
    assert(width * by + width <= width * height) by (nonlinear_arith)
        requires
            by + 1 <= height,
    ;
}

/// A histogram whose bins are all empty has no hits.
pub proof fn lemma_unhit_total(hits: Seq<u64>)
    requires
        forall|i: int| 0 <= i < hits.len() ==> hits[i] == 0,
    ensures
        total_hits(hits) == 0,
    decreases hits.len(),
{
    if hits.len() > 0 {
        lemma_unhit_total(hits.drop_last());
    }
}

/// No bin holds more hits than all the bins together.
pub proof fn lemma_bin_within_total(hits: Seq<u64>, bin: int)
    requires
        0 <= bin < hits.len(),
    ensures
        hits[bin] <= total_hits(hits),
    decreases hits.len(),
{
    if bin < hits.len() - 1 {
        lemma_bin_within_total(hits.drop_last(), bin);
    }
}

/// Changing one bin changes the total by as much as the bin.
pub proof fn lemma_total_after_hit(hits: Seq<u64>, bin: int, count: u64)
    requires
        0 <= bin < hits.len(),
    ensures
        total_hits(hits.update(bin, count)) == total_hits(hits) - hits[bin] + count,
    decreases hits.len(),
{
    let changed = hits.update(bin, count);
    if bin < hits.len() - 1 {
        lemma_total_after_hit(hits.drop_last(), bin, count);
        assert(changed.drop_last() =~= hits.drop_last().update(bin, count));
    } else {
        assert(changed.drop_last() =~= hits.drop_last());
    }
}

/// The histogram is laid out row by row: a landing in column `bx` and row
/// `by` of the image is counted in the bin of that column and row, and no
/// two places of the image share a bin.
pub proof fn lemma_bin_is_row_major(state: GameState, bx: u64, by: u64)
    requires
        state.valid(),
        bx < state.width,
        by < state.height,
    ensures
        state.bin_of(Landing::Inside { bx, by }) == Some(bx + state.width * by),
        (bx + state.width * by) % (state.width as int) == bx,
        (bx + state.width * by) / (state.width as int) == by,
{
    let width: int = state.width as int;
    lemma_row_start(state.width, state.height, by as nat);
    assert(by * width == width * by) by (nonlinear_arith);
    lemma_fundamental_div_mod_converse_mod(bx + width * by, width, by as int, bx as int);
    lemma_fundamental_div_mod_converse_div(bx + width * by, width, by as int, bx as int);
}

/// A step keeps a game valid, counts itself, and changes no bin but the
/// landing's own, which gains one hit: the bins together gain one hit where
/// the landing has a bin and none where it has not.
pub proof fn lemma_step_counts_one_hit(state: GameState, landing: Landing)
    requires
        state.valid(),
        state.iterations < u64::MAX,
    ensures
        state.after(landing).valid(),
        state.after(landing).iterations == state.iterations + 1,
        state.after(landing).hits.len() == state.hits.len(),
        forall|i: int|
            0 <= i < state.hits.len() ==> #[trigger] state.after(landing).hits[i] == if Some(i)
                == state.bin_of(landing) {
                state.hits[i] + 1
            } else {
                state.hits[i] as int
            },
        total_hits(state.after(landing).hits) == total_hits(state.hits) + if state.bin_of(
            landing,
        ).is_some() {
            1nat
        } else {
            0nat
        },
{
    match landing {
        Landing::Escaped => {},
        Landing::Inside { bx, by } => {
            assert(state.width * by >= 0) by (nonlinear_arith)
                requires
                    state.width >= 0,
                    by >= 0,
            ;
            if let Some(bin) = state.bin_of(landing) {
                lemma_bin_within_total(state.hits, bin);
                lemma_total_after_hit(state.hits, bin, (state.hits[bin] + 1) as u64);
            }
        },
    }
}

/// A landing that escaped the plane is never counted: the histogram after
/// the step is the histogram before it, and the caller leaves the point
/// where it was.
pub proof fn lemma_escape_changes_no_bin(state: GameState)
    ensures
        state.after(Landing::Escaped).hits == state.hits,
        state.outcome(Landing::Escaped) == Outcome::Retried,
        forall|landing: Landing|
            landing != Landing::Escaped ==> #[trigger] state.outcome(landing) != Outcome::Retried,
{
}

/// Every map of a flame can be drawn: each has a draw that selects it.
pub proof fn lemma_every_transform_can_be_drawn(index: nat, count: nat)
    requires
        index < count,
        index <= u32::MAX,
    ensures
        selected(index as u32, count) == index,
{
    lemma_small_mod(index, count);
}

/// A bin that was never hit is black in the finished image, whatever tone
/// it was given: its three bytes are zero.
pub proof fn lemma_unhit_bin_is_black(state: GameState, tones: Seq<Pixel>, bin: int)
    requires
        tones.len() == state.hits.len(),
        0 <= bin < state.hits.len(),
        state.hits[bin] == 0,
    ensures
        packed(state.shown(tones))[3 * bin] == 0,
        packed(state.shown(tones))[3 * bin + 1] == 0,
        packed(state.shown(tones))[3 * bin + 2] == 0,
{
    lemma_packed_layout(state.shown(tones), bin);
}

} // verus!
