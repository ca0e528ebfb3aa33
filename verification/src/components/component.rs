use vstd::prelude::*;

verus! {

use crate::errors::DashboardError;
use crate::snapshot::{Snapshot, SnapshotV};
use crate::table::spec_natural_width;
use crate::table::CellV;

/// One self-contained report section, dispatched through the two-phase
/// measure-then-render protocol.
///
/// `width` and `print` each read a fresh snapshot handed in by the caller;
/// taken at different moments the two snapshots may differ, so a component's
/// rendered width may differ from its measured one. That race is accepted
/// by design.
pub trait Component {
    /// Whether the component's configuration is well-formed.
    spec fn wf(&self) -> bool;

    /// The width the component reports during the measure phase.
    spec fn spec_width(&self, snap: SnapshotV) -> int;

    /// The lines the component prints at the given width, or the fatal error.
    spec fn spec_print(&self, snap: SnapshotV, width: int) -> Result<
        Seq<Seq<char>>,
        DashboardError,
    >;

    /// Measures the component against the given snapshot.
    fn width(&self, snap: &Snapshot) -> (w: usize)
        requires
            self.wf(),
        ensures
            w as int == self.spec_width(snap@),
    ;

    /// Renders the component's section at the shared width. A fully disabled
    /// component returns no lines at all.
    fn print(&self, snap: &Snapshot, width: usize) -> (r: Result<Vec<String>, DashboardError>)
        requires
            self.wf(),
        ensures
            ({
                match (r, self.spec_print(snap@, width as int)) {
                    (Ok(lines), Ok(sl)) => lines.deep_view() == sl,
                    (Err(e), Err(se)) => e == se,
                    _ => false,
                }
            }),
    ;
}

/// A line indented by the two-space section margin.
pub open spec fn spec_indent2(s: Seq<char>) -> Seq<char> {
    seq![' ', ' '] + s
}

/// The width the utilization bars span: the rendered table width, that is
/// the natural width or the target, whichever is larger (saturated at the
/// machine word, as the measured width itself is).
pub open spec fn spec_clamped_bw(t: Seq<Seq<CellV>>, width: int) -> int {
    let n = spec_natural_width(t);
    let m = if n >= width {
        n
    } else {
        width
    };
    if m > usize::MAX as int {
        usize::MAX as int
    } else {
        m
    }
}

/// Table lines interleaved with their utilization bars, every line indented:
/// the bar for a row stands directly beneath it.
pub open spec fn spec_interleave_bars(tl: Seq<Seq<char>>, bars: Seq<Seq<char>>) -> Seq<Seq<char>> {
    Seq::new(
        (2 * bars.len()) as nat,
        |i: int|
            if i % 2 == 0 {
                spec_indent2(tl[i / 2])
            } else {
                spec_indent2(bars[i / 2])
            },
    )
}

/// Indents a line by the two-space section margin.
pub fn indent2(s: &str) -> (r: String)
    ensures
        r@ == spec_indent2(s@),
{
    proof {
        reveal_strlit("  ");
        assert("  "@ =~= seq![' ', ' ']);
    }
    let mut r = "  ".to_owned();
    r.append(s);
    proof {
        assert(r@ =~= spec_indent2(s@));
    }
    r
}

} // verus!
