use vstd::prelude::*;

use crate::error::LifeError;
use crate::kernel::{evaluate_range, fits, next_ages, next_cells};
use crate::rules::{Params, RuleTable};

verus! {

/// The abstract state of an engine: its parameters, the current generation's cell states
/// and ages, and how many generations have been computed.
pub struct LifeView {
    pub params: Params,
    pub cells: Seq<u32>,
    pub ages: Seq<u32>,
    pub generation: nat,
}

impl LifeView {
    /// Both buffers fill a grid with no zero side.
    pub open spec fn valid(self) -> bool {
        &&& self.params.width > 0
        &&& self.params.height > 0
        &&& fits(self.params, self.cells)
        &&& self.ages.len() == self.cells.len()
    }

    /// The state one generation later.
    pub open spec fn advanced(self) -> LifeView {
        LifeView {
            params: self.params,
            cells: next_cells(self.params, self.cells),
            ages: next_ages(self.params, self.cells, self.ages),
            generation: self.generation + 1,
        }
    }

    /// The state `n` generations later.
    pub open spec fn run(self, n: nat) -> LifeView
        decreases n,
    {
        if n == 0 {
            self
        } else {
            self.run((n - 1) as nat).advanced()
        }
    }

    /// The state right after construction from `params` and initial `cells`: all ages zero.
    pub open spec fn initial(params: Params, cells: Seq<u32>) -> LifeView {
        LifeView { params, cells, ages: Seq::new(cells.len(), |i: int| 0u32), generation: 0 }
    }
}

/// A copy of one generation, taken by `Life::read_current`.
pub struct Snapshot {
    pub width: u32,
    pub height: u32,
    pub cells: Vec<u32>,
    pub ages: Vec<u32>,
}

/// A Life-like automaton on a bounded grid, double-buffered.
///
/// `cells`/`ages` hold the current generation; `spare_cells`/`spare_ages` receive the next
/// one, after which the two pairs trade places.
pub struct Life {
    params: Params,
    cells: Vec<u32>,
    ages: Vec<u32>,
    spare_cells: Vec<u32>,
    spare_ages: Vec<u32>,
    generation: u64,
}

impl View for Life {
    type V = LifeView;

    closed spec fn view(&self) -> LifeView {
        LifeView {
            params: self.params,
            cells: self.cells@,
            ages: self.ages@,
            generation: self.generation as nat,
        }
    }
}

fn copy_buffer(v: &Vec<u32>) -> (r: Vec<u32>)
    ensures
        r@ == v@,
{
    let mut r: Vec<u32> = Vec::with_capacity(v.len());
    let mut i: usize = 0;
    while i < v.len()
        invariant
            i <= v@.len(),
            r@ == v@.subrange(0, i as int),
        decreases v@.len() - i,
    {
        r.push(v[i]);
        i = i + 1;
    }
    assert(r@ =~= v@);
    r
}

impl Life {
    /// The buffers agree in size with each other and with the grid.
    pub closed spec fn wf(&self) -> bool {
        &&& self@.valid()
        &&& self.spare_cells@.len() == self.cells@.len()
        &&& self.spare_ages@.len() == self.cells@.len()
    }

    /// Builds an engine over the initial `data`, stored row-major, with all ages zero.
    ///
    /// Fails with `InvalidGridSize` when a side is zero or `data` does not fill the grid.
    pub fn new(data: Vec<u32>, params: Params) -> (r: Result<Life, LifeError>)
        ensures
            r is Err <==> (params.width == 0 || params.height == 0 || !fits(params, data@)),
            r is Err ==> r == Err::<Life, LifeError>(LifeError::InvalidGridSize),
            r matches Ok(life) ==> life.wf() && life@ == LifeView::initial(params, data@),
    {
        assert(params.width as u64 * params.height as u64 <= u64::MAX) by (nonlinear_arith)
            requires
                params.width <= u32::MAX,
                params.height <= u32::MAX,
        ;
        if params.width == 0 || params.height == 0
            || data.len() as u64 != params.width as u64 * params.height as u64 {
            return Err(LifeError::InvalidGridSize);
        }
        let n = data.len();
        let ages: Vec<u32> = vec![0; n];
        let spare_cells: Vec<u32> = vec![0; n];
        let spare_ages: Vec<u32> = vec![0; n];
        let life = Life { params, cells: data, ages, spare_cells, spare_ages, generation: 0 };
        assert(life@.ages =~= LifeView::initial(params, life.cells@).ages);
        Ok(life)
    }

    /// Builds an engine from raw configuration values.
    ///
    /// Rule arrays of a length other than nine give `InvalidRuleTableSize`; otherwise a bad
    /// grid gives `InvalidGridSize`, as in `new`.
    pub fn construct(
        width: u32,
        height: u32,
        lifetime_cap: u32,
        alive_rules: &[u32],
        dead_rules: &[u32],
        initial_cells: Vec<u32>,
    ) -> (r: Result<Life, LifeError>)
        ensures
            (alive_rules@.len() != 9 || dead_rules@.len() != 9) ==> r == Err::<
                Life,
                LifeError,
            >(LifeError::InvalidRuleTableSize),
            (alive_rules@.len() == 9 && dead_rules@.len() == 9) ==> {
                &&& r is Err <==> (width == 0 || height == 0 || initial_cells@.len() != width
                    * height)
                &&& r is Err ==> r == Err::<Life, LifeError>(LifeError::InvalidGridSize)
            },
            r matches Ok(life) ==> {
                &&& life.wf()
                &&& life@.params.width == width
                &&& life@.params.height == height
                &&& life@.params.lifetime == lifetime_cap
                &&& RuleTable::decoded(alive_rules@, dead_rules@, life@.params.rules)
                &&& life@ == LifeView::initial(life@.params, initial_cells@)
            },
    {
        match Params::from_slices(width, height, lifetime_cap, alive_rules, dead_rules) {
            Ok(params) => Life::new(initial_cells, params),
            Err(e) => Err(e),
        }
    }

    /// Computes one generation: every cell is evaluated against the current buffers into the
    /// spare ones, which then become current. The evaluation runs in-process and cannot fail.
    pub fn step(&mut self)
        requires
            old(self).wf(),
            old(self)@.generation < u64::MAX,
        ensures
            final(self).wf(),
            final(self)@ == old(self)@.advanced(),
    {
        let n = self.cells.len();
        evaluate_range(
            &self.params,
            &self.cells,
            &self.ages,
            &mut self.spare_cells,
            &mut self.spare_ages,
            0,
            n,
        );
        assert(self.spare_cells@ =~= next_cells(self.params, self.cells@));
        assert(self.spare_ages@ =~= next_ages(self.params, self.cells@, self.ages@));
        std::mem::swap(&mut self.cells, &mut self.spare_cells);
        std::mem::swap(&mut self.ages, &mut self.spare_ages);
        self.generation = self.generation + 1;
    }

    /// A copy of the current generation.
    pub fn read_current(&self) -> (s: Snapshot)
        ensures
            s.width == self@.params.width,
            s.height == self@.params.height,
            s.cells@ == self@.cells,
            s.ages@ == self@.ages,
    {
        Snapshot {
            width: self.params.width,
            height: self.params.height,
            cells: copy_buffer(&self.cells),
            ages: copy_buffer(&self.ages),
        }
    }

    pub fn params(&self) -> (p: Params)
        ensures
            p == self@.params,
    {
        self.params
    }

    /// Number of generations computed since construction.
    pub fn generation(&self) -> (g: u64)
        ensures
            g == self@.generation,
    {
        self.generation
    }

    /// The current cell states, row-major.
    pub fn cells(&self) -> (c: &Vec<u32>)
        ensures
            c@ == self@.cells,
    {
        &self.cells
    }

    /// The current ages, row-major.
    pub fn ages(&self) -> (a: &Vec<u32>)
        ensures
            a@ == self@.ages,
    {
        &self.ages
    }
}

} // verus!
