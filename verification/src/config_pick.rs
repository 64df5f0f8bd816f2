//! The choice among offered GL configurations, reduced to the two
//! attributes the decision reads: transparency support and sample
//! count. A left fold keeps the incumbent unless the candidate newly
//! supports transparency or carries more samples.

use vstd::prelude::*;

verus! {

/// The attributes of one offered configuration that the choice reads.
#[derive(Clone, Copy, PartialEq, Eq, Structural, Debug)]
pub struct GlConfigInfo {
    pub transparency: bool,
    pub num_samples: u8,
}

/// Whether the candidate displaces the incumbent: it newly supports
/// transparency, or it multisamples more.
pub open spec fn prefers(cand: GlConfigInfo, acc: GlConfigInfo) -> bool {
    (cand.transparency && !acc.transparency) || cand.num_samples > acc.num_samples
}

/// Index of the configuration the fold holds after reading the first
/// `n` entries.
pub open spec fn pick_upto(cfgs: Seq<GlConfigInfo>, n: int) -> int
    decreases n,
{
    if n <= 1 {
        0
    } else {
        let p = pick_upto(cfgs, n - 1);
        if prefers(cfgs[n - 1], cfgs[p]) {
            n - 1
        } else {
            p
        }
    }
}

/// The fold's choice is always one of the entries read so far.
pub proof fn lemma_pick_in_range(cfgs: Seq<GlConfigInfo>, n: int)
    requires
        n >= 1,
    ensures
        0 <= pick_upto(cfgs, n) < n,
    decreases n,
{
    if n > 1 {
        lemma_pick_in_range(cfgs, n - 1);
    }
}

/// Picks the configuration the fold selects over the whole offer;
/// there must be at least one. Returns its index.
pub fn gl_config_picker(cfgs: &Vec<GlConfigInfo>) -> (i: usize)
    requires
        cfgs@.len() >= 1,
    ensures
        i as int == pick_upto(cfgs@, cfgs@.len() as int),
        i < cfgs@.len(),
{
    proof {
        lemma_pick_in_range(cfgs@, cfgs@.len() as int);
    }
    let mut best: usize = 0;
    let mut j: usize = 1;
    while j < cfgs.len()
        invariant
            1 <= j <= cfgs@.len(),
            best < j,
            best as int == pick_upto(cfgs@, j as int),
        decreases cfgs@.len() - j,
    {
        let cand = cfgs[j];
        let acc = cfgs[best];
        if (cand.transparency && !acc.transparency) || cand.num_samples > acc.num_samples {
            best = j;
        }
        j += 1;
    }
    best
}

} // verus!
