use vstd::prelude::*;

verus! {

use vstd::math::max;
use crate::errors::DashboardError;
use crate::snapshot::{Snapshot, SnapshotV};
use crate::components::component::Component;
use crate::components::disk::Disk;
use crate::components::memory::Memory;
use crate::components::network::Network;
use crate::components::system::System;

/// One entry of the ordered component list: the closed set of report
/// sections, dispatched through the measure and render operations.
pub enum ComponentEntry {
    System(System),
    Network(Network),
    Memory(Memory),
    Disk(Disk),
}

impl ComponentEntry {
    /// Whether the entry's configuration is well-formed.
    pub open spec fn wf(&self) -> bool {
        match self {
            ComponentEntry::System(c) => c.wf(),
            ComponentEntry::Network(c) => c.wf(),
            ComponentEntry::Memory(c) => c.wf(),
            ComponentEntry::Disk(c) => c.wf(),
        }
    }

    /// The width the entry reports during the measure phase.
    pub open spec fn spec_width(&self, snap: SnapshotV) -> int {
        match self {
            ComponentEntry::System(c) => c.spec_width(snap),
            ComponentEntry::Network(c) => c.spec_width(snap),
            ComponentEntry::Memory(c) => c.spec_width(snap),
            ComponentEntry::Disk(c) => c.spec_width(snap),
        }
    }

    /// The lines the entry prints at the given width, or the fatal error.
    pub open spec fn spec_print(&self, snap: SnapshotV, width: int) -> Result<
        Seq<Seq<char>>,
        DashboardError,
    > {
        match self {
            ComponentEntry::System(c) => c.spec_print(snap, width),
            ComponentEntry::Network(c) => c.spec_print(snap, width),
            ComponentEntry::Memory(c) => c.spec_print(snap, width),
            ComponentEntry::Disk(c) => c.spec_print(snap, width),
        }
    }

    /// Measures the entry against the given snapshot.
    pub fn width(&self, snap: &Snapshot) -> (w: usize)
        requires
            self.wf(),
        ensures
            w as int == self.spec_width(snap@),
    {
        match self {
            ComponentEntry::System(c) => c.width(snap),
            ComponentEntry::Network(c) => c.width(snap),
            ComponentEntry::Memory(c) => c.width(snap),
            ComponentEntry::Disk(c) => c.width(snap),
        }
    }

    /// Renders the entry's section at the shared width.
    pub fn print(&self, snap: &Snapshot, width: usize) -> (r: Result<
        Vec<String>,
        DashboardError,
    >)
        requires
            self.wf(),
        ensures
            ({
                match (r, self.spec_print(snap@, width as int)) {
                    (Ok(lines), Ok(sl)) => lines.deep_view() == sl,
                    (Err(e), Err(se)) => e == se,
                    _ => false,
                }
            }),
    {
        match self {
            ComponentEntry::System(c) => c.print(snap, width),
            ComponentEntry::Network(c) => c.print(snap, width),
            ComponentEntry::Memory(c) => c.print(snap, width),
            ComponentEntry::Disk(c) => c.print(snap, width),
        }
    }
}

/// The shared width: the largest width any component reports (zero for an
/// empty list).
pub open spec fn spec_shared_width(cs: Seq<ComponentEntry>, snap: SnapshotV) -> int
    decreases cs.len(),
{
    if cs.len() == 0 {
        0
    } else {
        max(spec_shared_width(cs.drop_last(), snap), cs.last().spec_width(snap))
    }
}

/// Every component's reported width is at most the shared width.
pub proof fn lemma_shared_width_dominates(cs: Seq<ComponentEntry>, snap: SnapshotV, i: int)
    requires
        0 <= i < cs.len(),
    ensures
        cs[i].spec_width(snap) <= spec_shared_width(cs, snap),
    decreases cs.len(),
{
    if i < cs.len() - 1 {
        lemma_shared_width_dominates(cs.drop_last(), snap, i);
    }
}

/// The lines of the whole report: every component's section in list order,
/// all rendered at one width; the first fatal error aborts the run.
pub open spec fn spec_run_lines(cs: Seq<ComponentEntry>, snap: SnapshotV, width: int) -> Result<
    Seq<Seq<char>>,
    DashboardError,
>
    decreases cs.len(),
{
    if cs.len() == 0 {
        Ok(Seq::empty())
    } else {
        match spec_run_lines(cs.drop_last(), snap, width) {
            Err(e) => Err(e),
            Ok(pre) => match cs.last().spec_print(snap, width) {
                Err(e) => Err(e),
                Ok(l) => Ok(pre + l),
            },
        }
    }
}

/// An error in a prefix of the component list is the error of the whole run.
proof fn lemma_run_err(cs: Seq<ComponentEntry>, snap: SnapshotV, width: int, j: int)
    requires
        0 <= j <= cs.len(),
        spec_run_lines(cs.take(j), snap, width) is Err,
    ensures
        spec_run_lines(cs, snap, width) == spec_run_lines(cs.take(j), snap, width),
    decreases cs.len() - j,
{
    if j == cs.len() {
        assert(cs.take(j) =~= cs);
    } else {
        assert(cs.take(j + 1).drop_last() =~= cs.take(j));
        assert(cs.take(j + 1).last() == cs[j]);
        lemma_run_err(cs, snap, width, j + 1);
    }
}

/// Phase one of the protocol: measures every component and takes the
/// largest reported width. An empty component list is an impossible layout.
pub fn max_width(comps: &Vec<ComponentEntry>, snap: &Snapshot) -> (r: Result<
    usize,
    DashboardError,
>)
    requires
        forall|i: int| 0 <= i < comps@.len() ==> (#[trigger] comps@[i]).wf(),
    ensures
        comps@.len() == 0 ==> r == Err::<usize, DashboardError>(DashboardError::Layout),
        comps@.len() > 0 ==> (match r {
            Ok(w) => w as int == spec_shared_width(comps@, snap@),
            Err(_) => false,
        }),
{
    if comps.len() == 0 {
        return Err(DashboardError::Layout);
    }
    let mut w: usize = 0;
    let mut i: usize = 0;
    while i < comps.len()
        invariant
            i <= comps.len(),
            forall|k: int| 0 <= k < comps@.len() ==> (#[trigger] comps@[k]).wf(),
            w as int == spec_shared_width(comps@.take(i as int), snap@),
        decreases comps.len() - i,
    {
        let cw = comps[i].width(snap);
        if cw > w {
            w = cw;
        }
        i = i + 1;
        proof {
            assert(comps@.take(i as int).drop_last() =~= comps@.take(i as int - 1));
            assert(comps@.take(i as int).last() == comps@[i as int - 1]);
        }
    }
    proof {
        assert(comps@.take(comps@.len() as int) =~= comps@);
    }
    Ok(w)
}

/// Runs the two-phase protocol: measures every component, takes the largest
/// reported width, and renders every component at that one shared width, in
/// list order.
pub fn run(comps: &Vec<ComponentEntry>, snap: &Snapshot) -> (r: Result<
    Vec<String>,
    DashboardError,
>)
    requires
        forall|i: int| 0 <= i < comps@.len() ==> (#[trigger] comps@[i]).wf(),
    ensures
        comps@.len() == 0 ==> r == Err::<Vec<String>, DashboardError>(DashboardError::Layout),
        comps@.len() > 0 ==> (match (
            r,
            spec_run_lines(comps@, snap@, spec_shared_width(comps@, snap@)),
        ) {
            (Ok(lines), Ok(sl)) => lines.deep_view() == sl,
            (Err(e), Err(se)) => e == se,
            _ => false,
        }),
{
    let w = match max_width(comps, snap) {
        Ok(w) => w,
        Err(e) => {
            return Err(e);
        },
    };
    let mut out: Vec<String> = Vec::new();
    let mut i: usize = 0;
    proof {
        assert(out.deep_view() =~= Seq::<Seq<char>>::empty());
    }
    while i < comps.len()
        invariant
            i <= comps.len(),
            forall|k: int| 0 <= k < comps@.len() ==> (#[trigger] comps@[k]).wf(),
            w as int == spec_shared_width(comps@, snap@),
            spec_run_lines(comps@.take(i as int), snap@, w as int) == Ok::<
                Seq<Seq<char>>,
                DashboardError,
            >(out.deep_view()),
        decreases comps.len() - i,
    {
        let section = comps[i].print(snap, w);
        proof {
            assert(comps@.take(i as int + 1).drop_last() =~= comps@.take(i as int));
            assert(comps@.take(i as int + 1).last() == comps@[i as int]);
        }
        match section {
            Err(e) => {
                proof {
                    lemma_run_err(comps@, snap@, w as int, i as int + 1);
                }
                return Err(e);
            },
            Ok(lines) => {
                let ghost pre = out.deep_view();
                let mut k: usize = 0;
                while k < lines.len()
                    invariant
                        k <= lines.len(),
                        out@.len() == pre.len() + k as int,
                        forall|j: int| 0 <= j < pre.len() ==> (#[trigger] out@[j]@) == pre[j],
                        forall|j: int|
                            0 <= j < k as int ==> (#[trigger] out@[pre.len() + j]@)
                                == lines.deep_view()[j],
                    decreases lines.len() - k,
                {
                    out.push(lines[k].clone());
                    k = k + 1;
                }
                proof {
                    let whole = pre + lines.deep_view();
                    assert(out.deep_view().len() == whole.len());
                    assert forall|j: int| 0 <= j < whole.len() implies out.deep_view()[j]
                        == whole[j] by {
                        assert(out.deep_view()[j] == out@[j]@);
                        if j >= pre.len() {
                            assert(out@[pre.len() + (j - pre.len())]@ == lines.deep_view()[j
                                - pre.len()]);
                        }
                    }
                    assert(out.deep_view() =~= whole);
                }
            },
        }
        i = i + 1;
    }
    proof {
        assert(comps@.take(comps@.len() as int) =~= comps@);
    }
    Ok(out)
}

} // verus!
