use vstd::prelude::*;

use crate::error::LifeError;

verus! {

/// Number of distinct live-neighbour counts in a Moore neighbourhood (0 through 8).
pub const NEIGHBOR_COUNTS: usize = 9;

/// Reads a boolean-like word: any nonzero value means `true`.
pub open spec fn flag(w: u32) -> bool {
    w != 0
}

/// Birth and survival flags, indexed by live-neighbour count.
#[derive(Clone, Copy)]
pub struct RuleTable {
    /// `survive[n]`: a live cell with exactly `n` live neighbours stays alive.
    pub survive: [bool; 9],
    /// `born[n]`: a dead cell with exactly `n` live neighbours comes alive.
    pub born: [bool; 9],
}

impl RuleTable {
    pub open spec fn survives_spec(&self, n: int) -> bool {
        self.survive@[n]
    }

    pub open spec fn is_born_spec(&self, n: int) -> bool {
        self.born@[n]
    }

    /// The table decoded from two words-per-count arrays (nonzero means set).
    pub open spec fn decoded(alive: Seq<u32>, dead: Seq<u32>, t: RuleTable) -> bool {
        forall|n: int| 0 <= n < 9 ==> {
            &&& t.survives_spec(n) == flag(#[trigger] alive[n])
            &&& t.is_born_spec(n) == flag(dead[n])
        }
    }

    /// Builds the table from the boolean-like words the configuration carries.
    pub fn new(alive_rules: [u32; 9], dead_rules: [u32; 9]) -> (t: RuleTable)
        ensures
            Self::decoded(alive_rules@, dead_rules@, t),
    {
        Self::decode(alive_rules.as_slice(), dead_rules.as_slice())
    }

    /// Builds the table from slices, which must each hold exactly nine words.
    pub fn from_slices(alive_rules: &[u32], dead_rules: &[u32]) -> (r: Result<RuleTable, LifeError>)
        ensures
            alive_rules@.len() != 9 || dead_rules@.len() != 9 <==> r is Err,
            r is Err ==> r == Err::<RuleTable, LifeError>(LifeError::InvalidRuleTableSize),
            r matches Ok(t) ==> Self::decoded(alive_rules@, dead_rules@, t),
    {
        if alive_rules.len() != NEIGHBOR_COUNTS || dead_rules.len() != NEIGHBOR_COUNTS {
            return Err(LifeError::InvalidRuleTableSize);
        }
        Ok(Self::decode(alive_rules, dead_rules))
    }

    fn decode(alive_rules: &[u32], dead_rules: &[u32]) -> (t: RuleTable)
        requires
            alive_rules@.len() == 9,
            dead_rules@.len() == 9,
        ensures
            Self::decoded(alive_rules@, dead_rules@, t),
    {
        let mut survive = [false; 9];
        let mut born = [false; 9];
        let mut n: usize = 0;
        while n < NEIGHBOR_COUNTS
            invariant
                n <= 9,
                alive_rules@.len() == 9,
                dead_rules@.len() == 9,
                survive@.len() == 9,
                born@.len() == 9,
                forall|k: int| 0 <= k < n ==> survive@[k] == flag(alive_rules@[k]),
                forall|k: int| 0 <= k < n ==> born@[k] == flag(dead_rules@[k]),
            decreases 9 - n,
        {
            survive[n] = alive_rules[n] != 0;
            born[n] = dead_rules[n] != 0;
            n = n + 1;
        }
        RuleTable { survive, born }
    }

    /// Whether a live cell with `n` live neighbours survives.
    pub fn survives(&self, n: u32) -> (r: bool)
        requires
            n <= 8,
        ensures
            r == self.survives_spec(n as int),
    {
        self.survive[n as usize]
    }

    /// Whether a dead cell with `n` live neighbours is born.
    pub fn is_born(&self, n: u32) -> (r: bool)
        requires
            n <= 8,
        ensures
            r == self.is_born_spec(n as int),
    {
        self.born[n as usize]
    }
}

/// Simulation parameters: grid extent, the age cap and the rule table.
///
/// A `lifetime` of zero turns age tracking off: every age then stays zero.
#[derive(Clone, Copy)]
pub struct Params {
    pub width: u32,
    pub height: u32,
    pub lifetime: u32,
    pub rules: RuleTable,
}

impl Params {
    pub fn new(
        width: u32,
        height: u32,
        lifetime: u32,
        alive_rules: [u32; 9],
        dead_rules: [u32; 9],
    ) -> (p: Self)
        ensures
            p.width == width,
            p.height == height,
            p.lifetime == lifetime,
            RuleTable::decoded(alive_rules@, dead_rules@, p.rules),
    {
        Params { width, height, lifetime, rules: RuleTable::new(alive_rules, dead_rules) }
    }

    /// Like `new`, but with rule arrays of unchecked length.
    pub fn from_slices(
        width: u32,
        height: u32,
        lifetime: u32,
        alive_rules: &[u32],
        dead_rules: &[u32],
    ) -> (r: Result<Self, LifeError>)
        ensures
            alive_rules@.len() != 9 || dead_rules@.len() != 9 <==> r is Err,
            r is Err ==> r == Err::<Params, LifeError>(LifeError::InvalidRuleTableSize),
            r matches Ok(p) ==> {
                &&& p.width == width
                &&& p.height == height
                &&& p.lifetime == lifetime
                &&& RuleTable::decoded(alive_rules@, dead_rules@, p.rules)
            },
    {
        match RuleTable::from_slices(alive_rules, dead_rules) {
            Ok(rules) => Ok(Params { width, height, lifetime, rules }),
            Err(e) => Err(e),
        }
    }
}

} // verus!
