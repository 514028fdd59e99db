use vstd::prelude::*;

use crate::frame::TermColour;
use crate::state::{
    colour_at, colour_index, shade, SimulationColour, ALLOW_COLOUR_FLICKER, ALLOW_DENSITY_FLICKER,
    MICROS_PER_SECOND, SMOKE_DISSIPATION_RATE, SMOKE_MAX_DENSITY,
    SMOKE_TOTAL_DENSITY_PROBABILITY_START,
};

verus! {

/// The smoke in one cell: a density for each colour, in declaration order.
#[derive(Clone, Copy, Debug, PartialEq, Eq)]
pub struct SmokeTile {
    pub colour_densities: [u64; 8],
}

/// The density lost by every colour of every cell over `dt` microseconds.
pub open spec fn decay_amount(dt: u64) -> int {
    (dt as int) * (SMOKE_DISSIPATION_RATE as int) / (MICROS_PER_SECOND as int)
}

/// The sum of the first `n` densities.
pub open spec fn density_sum(ds: Seq<u64>, n: int) -> int
    decreases n,
{
    if n <= 0 {
        0
    } else {
        density_sum(ds, n - 1) + ds[n - 1]
    }
}

/// The total density of a cell.
pub open spec fn total_density(ds: Seq<u64>) -> int {
    density_sum(ds, 8)
}

/// The colour that a weighted draw picks: walking the colours in order from
/// `i`, the first whose density exceeds what is left of the draw.
pub open spec fn weighted_pick(ds: Seq<u64>, draw: int, i: int) -> Option<SimulationColour>
    decreases 8 - i,
{
    if i >= 8 || i < 0 {
        None
    } else if draw < ds[i] {
        Some(colour_at(i))
    } else {
        weighted_pick(ds, draw - ds[i], i + 1)
    }
}

/// `c` is the densest colour, and the first such in declaration order.
pub open spec fn is_densest(ds: Seq<u64>, c: SimulationColour) -> bool {
    &&& forall|j: int| 0 <= j < 8 ==> #[trigger] ds[j] <= ds[colour_index(c)]
    &&& forall|j: int| 0 <= j < colour_index(c) ==> #[trigger] ds[j] < ds[colour_index(c)]
}

/// Whether a cell with total density `total` blinks out, for a draw that is
/// uniform below `SMOKE_TOTAL_DENSITY_PROBABILITY_START`: it does with
/// probability `1 - total / SMOKE_TOTAL_DENSITY_PROBABILITY_START`, and a
/// cell without smoke never does.
pub open spec fn blinks(total: int, draw: int) -> bool {
    total != 0 && draw + total < SMOKE_TOTAL_DENSITY_PROBABILITY_START
}

/// `d` thinned by `decay_amount(dt)`, down to zero at least.
pub open spec fn decayed_density(d: u64, dt: u64) -> u64 {
    if d >= decay_amount(dt) {
        (d - decay_amount(dt)) as u64
    } else {
        0
    }
}

/// The densities `ds` after `dt` microseconds of decay.
pub open spec fn decayed(ds: Seq<u64>, dt: u64) -> Seq<u64> {
    ds.map_values(|d: u64| decayed_density(d, dt))
}

/// The densities `ds` after taking in `amount` of `colour`.
pub open spec fn absorbed(ds: Seq<u64>, colour: SimulationColour, amount: u64) -> Seq<u64> {
    let i = colour_index(colour);
    let d = ds[i] + amount;
    ds.update(i, if d <= SMOKE_MAX_DENSITY { d as u64 } else { SMOKE_MAX_DENSITY })
}

/// The draws suit a cell of total density `total`.
pub open spec fn draws_in_range(total: int, colour_draw: int, blink_draw: int) -> bool {
    &&& (total > 0 ==> 0 <= colour_draw < total)
    &&& 0 <= blink_draw < SMOKE_TOTAL_DENSITY_PROBABILITY_START
}

/// The colour presented by a cell for the given draws.
pub open spec fn presented_colour(ds: Seq<u64>, colour_draw: int) -> Option<SimulationColour> {
    if ALLOW_COLOUR_FLICKER {
        weighted_pick(ds, colour_draw, 0)
    } else {
        Some(choose|c: SimulationColour| is_densest(ds, c))
    }
}

/// The background of a cell with the smoke `ds`, for the given draws: black
/// when the cell blinks out, presents no colour or has no smoke, else the dark
/// shade of the presented colour.
pub open spec fn smoke_background(ds: Seq<u64>, colour_draw: int, blink_draw: int) -> TermColour {
    let total = total_density(ds);
    let blink = ALLOW_DENSITY_FLICKER && blinks(total, blink_draw);
    match presented_colour(ds, colour_draw) {
        Some(c) => if blink || total == 0 { TermColour::Black } else { shade(c, true) },
        None => TermColour::Black,
    }
}

impl SmokeTile {
    /// Every density is at most `SMOKE_MAX_DENSITY`.
    pub open spec fn wf(&self) -> bool {
        forall|i: int| 0 <= i < 8 ==> #[trigger] self.colour_densities@[i] <= SMOKE_MAX_DENSITY
    }

    /// A cell without smoke.
    pub fn new() -> (tile: Self)
        ensures
            tile.wf(),
            forall|i: int| 0 <= i < 8 ==> #[trigger] tile.colour_densities@[i] == 0,
    {
        SmokeTile { colour_densities: [0u64; 8] }
    }

    /// Thins every colour by `decay_amount(dt)`, down to zero at least.
    pub fn decay(&mut self, dt: u64)
        requires
            old(self).wf(),
        ensures
            final(self).wf(),
            final(self).colour_densities@ == decayed(old(self).colour_densities@, dt),
            forall|i: int|
                0 <= i < 8 ==> #[trigger] final(self).colour_densities@[i] as int == if old(
                    self,
                ).colour_densities@[i] >= decay_amount(dt) {
                    old(self).colour_densities@[i] - decay_amount(dt)
                } else {
                    0
                },
    {
        let amount: u128 = (dt as u128) * (SMOKE_DISSIPATION_RATE as u128) / (MICROS_PER_SECOND as u128);
        let mut i: usize = 0;
        while i < 8
            invariant
                i <= 8,
                amount == decay_amount(dt),
                forall|j: int| 0 <= j < 8 ==> #[trigger] self.colour_densities@[j] <= SMOKE_MAX_DENSITY,
                forall|j: int|
                    i <= j < 8 ==> #[trigger] self.colour_densities@[j] == old(self).colour_densities@[j],
                forall|j: int|
                    0 <= j < i ==> #[trigger] self.colour_densities@[j] as int == if old(
                        self,
                    ).colour_densities@[j] >= decay_amount(dt) {
                        old(self).colour_densities@[j] - decay_amount(dt)
                    } else {
                        0
                    },
            decreases 8 - i,
        {
            let d = self.colour_densities[i];
            let next: u64 = if (d as u128) >= amount {
                d - (amount as u64)
            } else {
                0
            };
            self.colour_densities[i] = next;
            i = i + 1;
        }
        assert(self.colour_densities@ =~= decayed(old(self).colour_densities@, dt));
    }

    /// Adds `amount` of `colour`, up to `SMOKE_MAX_DENSITY` at most.
    pub fn absorb(&mut self, colour: SimulationColour, amount: u64)
        requires
            old(self).wf(),
        ensures
            final(self).wf(),
            final(self).colour_densities@ == absorbed(old(self).colour_densities@, colour, amount),
            final(self).colour_densities@[colour_index(colour)] as int == if old(
                self,
            ).colour_densities@[colour_index(colour)] + amount <= SMOKE_MAX_DENSITY {
                old(self).colour_densities@[colour_index(colour)] + amount
            } else {
                SMOKE_MAX_DENSITY as int
            },
            forall|j: int|
                0 <= j < 8 && j != colour_index(colour) ==> #[trigger] final(self).colour_densities@[j]
                    == old(self).colour_densities@[j],
    {
        let i = colour.index();
        let d = self.colour_densities[i];
        let next: u64 = if amount <= SMOKE_MAX_DENSITY - d {
            d + amount
        } else {
            SMOKE_MAX_DENSITY
        };
        self.colour_densities[i] = next;
        assert(self.colour_densities@ =~= absorbed(old(self).colour_densities@, colour, amount));
    }

    /// The sum of the densities of all colours.
    pub fn total_density(&self) -> (total: u64)
        requires
            self.wf(),
        ensures
            total == total_density(self.colour_densities@),
            total <= 8 * SMOKE_MAX_DENSITY,
    {
        let mut total: u64 = 0;
        let mut i: usize = 0;
        while i < 8
            invariant
                i <= 8,
                self.wf(),
                total == density_sum(self.colour_densities@, i as int),
                total <= i * SMOKE_MAX_DENSITY,
            decreases 8 - i,
        {
            total = total + self.colour_densities[i];
            i = i + 1;
        }
        total
    }

    /// Picks a colour at random, weighted by density, for a `draw` below the
    /// total density: walking the colours in order, the first whose density
    /// exceeds what is left of the draw.
    pub fn choose_weighted_colour(&self, draw: u64) -> (c: Option<SimulationColour>)
        ensures
            c == weighted_pick(self.colour_densities@, draw as int, 0),
    {
        let mut chooser: u64 = draw;
        let mut i: usize = 0;
        while i < 8
            invariant
                i <= 8,
                weighted_pick(self.colour_densities@, draw as int, 0) == weighted_pick(
                    self.colour_densities@,
                    chooser as int,
                    i as int,
                ),
            decreases 8 - i,
        {
            let d = self.colour_densities[i];
            if chooser < d {
                return Some(SimulationColour::from_index(i));
            }
            chooser = chooser - d;
            i = i + 1;
        }
        None
    }

    /// The densest colour, the first in declaration order among equals.
    pub fn densest_colour(&self) -> (c: SimulationColour)
        ensures
            is_densest(self.colour_densities@, c),
    {
        let mut best: usize = 0;
        let mut i: usize = 1;
        while i < 8
            invariant
                1 <= i <= 8,
                best < i,
                forall|j: int| 0 <= j < i ==> #[trigger] self.colour_densities@[j] <= self.colour_densities@[best as int],
                forall|j: int| 0 <= j < best ==> #[trigger] self.colour_densities@[j] < self.colour_densities@[best as int],
            decreases 8 - i,
        {
            if self.colour_densities[i] > self.colour_densities[best] {
                best = i;
            }
            i = i + 1;
        }
        SimulationColour::from_index(best)
    }
}

/// Whether a cell of total density `total` blinks out for `draw`, a value
/// uniform below `SMOKE_TOTAL_DENSITY_PROBABILITY_START`.
pub fn presented_colour_is_blinked_out(total: u64, draw: u64) -> (blink: bool)
    requires
        draw < SMOKE_TOTAL_DENSITY_PROBABILITY_START,
    ensures
        blink == blinks(total as int, draw as int),
{
    total != 0 && total < SMOKE_TOTAL_DENSITY_PROBABILITY_START - draw
}

/// The background a cell of smoke shows for the given draws.
pub fn composite_smoke(tile: &SmokeTile, colour_draw: u64, blink_draw: u64) -> (c: TermColour)
    requires
        tile.wf(),
        draws_in_range(total_density(tile.colour_densities@), colour_draw as int, blink_draw as int),
    ensures
        c == smoke_background(tile.colour_densities@, colour_draw as int, blink_draw as int),
{
    let total = tile.total_density();
    let chosen: Option<SimulationColour> = if ALLOW_COLOUR_FLICKER {
        tile.choose_weighted_colour(colour_draw)
    } else {
        let c = tile.densest_colour();
        proof {
            lemma_densest_unique(tile.colour_densities@, c);
        }
        Some(c)
    };
    let blink = if ALLOW_DENSITY_FLICKER {
        presented_colour_is_blinked_out(total, blink_draw)
    } else {
        false
    };
    match chosen {
        Some(c) => if blink || total == 0 {
            TermColour::Black
        } else {
            crate::state::simulation_colour_to_crossterm_colour(c, true)
        },
        None => TermColour::Black,
    }
}

proof fn lemma_densest_unique(ds: Seq<u64>, c: SimulationColour)
    requires
        is_densest(ds, c),
    ensures
        (choose|d: SimulationColour| is_densest(ds, d)) == c,
{
    let d = choose|d: SimulationColour| is_densest(ds, d);
    assert(is_densest(ds, d));
    assert(colour_index(d) == colour_index(c)) by {
        if colour_index(d) < colour_index(c) {
            assert(ds[colour_index(d)] < ds[colour_index(c)]);
        } else if colour_index(c) < colour_index(d) {
            assert(ds[colour_index(c)] < ds[colour_index(d)]);
        }
    }
}

} // verus!
