use vstd::prelude::*;

verus! {

use vstd::arithmetic::mul::lemma_mul_upper_bound;
use crate::errors::DashboardError;
use crate::frac::Frac;
use crate::snapshot::{MemInfo, Snapshot, SnapshotV};
use crate::table::{Align, Cell, CellV, Table, spec_cells_of, spec_render_lines};
use crate::text::{digit_char, spec_dec, dec_str_u128, digit_str};
use crate::tools::{
    ByteStr,
    spec_byte_str,
    spec_bar,
    css_color_spec,
    color_to_rgb8,
    process_str,
};
use crate::components::component::{
    Component,
    spec_indent2,
    spec_clamped_bw,
    spec_interleave_bars,
    indent2,
};

/// The memory section: up to two rows (RAM, then swap), each with a
/// utilization bar directly beneath it.
///
/// A deliberate quirk: with RAM hidden and swap shown the component is
/// treated as fully disabled and renders nothing.
pub struct Memory {
    pub show_ram: bool,
    pub show_swap: bool,
    pub default_color: String,
    pub warning_color: String,
    pub warning_threshold: Frac,
}

/// The used fraction of a counter pair, clamped into `[0, 1]` (an empty
/// total counts as unused).
pub open spec fn spec_mem_frac(used: u64, total: u64) -> Frac {
    if total == 0 {
        Frac { num: 0, den: 1 }
    } else if used <= total {
        Frac { num: used, den: total }
    } else {
        Frac { num: total, den: total }
    }
}

/// Tenths of a percent of `used` against `total`, rounded to the nearest
/// tenth as a one-decimal rendering does (zero for an empty total).
pub open spec fn spec_permille(used: u64, total: u64) -> int {
    if total == 0 {
        0
    } else {
        ((used as int) * 1000 + (total as int) / 2) / (total as int)
    }
}

/// The row value text: `used / total (p.q%)`.
pub open spec fn spec_mem_value(used: u64, total: u64) -> Seq<char> {
    let p = spec_permille(used, total);
    spec_byte_str(used as int) + seq![' ', '/', ' '] + spec_byte_str(total as int) + seq![' ', '(']
        + spec_dec((p / 10) as nat) + seq!['.'] + seq![digit_char(p % 10)] + seq!['%', ')']
}

/// The RAM row: its title on the left, the value right-aligned.
pub open spec fn spec_ram_row(mem: MemInfo) -> Seq<CellV> {
    seq![
        CellV { text: seq!['R', 'A', 'M', ':'], align: Align::Left },
        CellV { text: spec_mem_value(mem.used, mem.total), align: Align::Right },
    ]
}

/// The swap row: its title on the left, the value right-aligned.
pub open spec fn spec_swap_row(mem: MemInfo) -> Seq<CellV> {
    seq![
        CellV { text: seq!['S', 'w', 'a', 'p', ':'], align: Align::Left },
        CellV { text: spec_mem_value(mem.swap_used, mem.swap_total), align: Align::Right },
    ]
}

/// The memory table: empty under the preserved quirk, else one row per
/// enabled counter.
pub open spec fn spec_mem_table(conf: Memory, mem: MemInfo) -> Seq<Seq<CellV>> {
    if !conf.show_ram && conf.show_swap {
        Seq::empty()
    } else {
        (if conf.show_ram {
            seq![spec_ram_row(mem)]
        } else {
            Seq::empty()
        }) + (if conf.show_swap {
            seq![spec_swap_row(mem)]
        } else {
            Seq::empty()
        })
    }
}

/// The used fractions, in row order.
pub open spec fn spec_mem_pers(conf: Memory, mem: MemInfo) -> Seq<Frac> {
    let ram = spec_mem_frac(mem.used, mem.total);
    let swap = spec_mem_frac(mem.swap_used, mem.swap_total);
    if conf.show_ram && conf.show_swap {
        seq![ram, swap]
    } else if conf.show_swap {
        seq![swap]
    } else if conf.show_ram {
        seq![ram]
    } else {
        Seq::empty()
    }
}

/// The lines of the memory section at the given width, when all bars render.
pub open spec fn spec_mem_lines(
    conf: Memory,
    mem: MemInfo,
    width: int,
    nc: (u8, u8, u8),
    wc: (u8, u8, u8),
) -> Seq<Seq<char>> {
    let t = spec_mem_table(conf, mem);
    let tl = spec_render_lines(t, width);
    let bw = spec_clamped_bw(t, width);
    let pers = spec_mem_pers(conf, mem);
    let bars = Seq::new(
        pers.len(),
        |i: int| spec_bar(bw, pers[i], nc, wc, conf.warning_threshold),
    );
    seq![seq!['M', 'e', 'm', 'o', 'r', 'y', ':']] + spec_interleave_bars(tl, bars) + seq![
        Seq::<char>::empty(),
    ]
}

fn mem_frac(used: u64, total: u64) -> (r: Frac)
    ensures
        r == spec_mem_frac(used, total),
        r.wf(),
{
    if total == 0 {
        Frac { num: 0, den: 1 }
    } else if used <= total {
        Frac { num: used, den: total }
    } else {
        Frac { num: total, den: total }
    }
}

fn mem_value(used: u64, total: u64) -> (r: String)
    ensures
        r@ == spec_mem_value(used, total),
{
    let p: u128 = if total == 0 {
        0
    } else {
        proof {
            lemma_mul_upper_bound(used as int, u64::MAX as int, 1000, 1000);
        }
        ((used as u128) * 1000 + (total as u128) / 2) / (total as u128)
    };
    let mut s = used.byte_str();
    proof {
        reveal_strlit(" / ");
        reveal_strlit(" (");
        reveal_strlit(".");
        reveal_strlit("%)");
        assert(" / "@ =~= seq![' ', '/', ' ']);
        assert(" ("@ =~= seq![' ', '(']);
        assert("."@ =~= seq!['.']);
        assert("%)"@ =~= seq!['%', ')']);
    }
    s.append(" / ");
    s.append(total.byte_str().as_str());
    s.append(" (");
    s.append(dec_str_u128(p / 10).as_str());
    s.append(".");
    s.append(digit_str((p % 10) as u64));
    s.append("%)");
    proof {
        assert(s@ =~= spec_mem_value(used, total));
    }
    s
}

impl Memory {
    /// The memory table, as the render phase lays it out.
    pub fn table(&self, snap: &Snapshot) -> (t: Table)
        ensures
            t@ == spec_mem_table(*self, snap@.memory),
    {
        let mut t = Table::new();
        if !self.show_ram && self.show_swap {
            return t;
        }
        proof {
            reveal_strlit("RAM:");
            reveal_strlit("Swap:");
            assert("RAM:"@ =~= seq!['R', 'A', 'M', ':']);
            assert("Swap:"@ =~= seq!['S', 'w', 'a', 'p', ':']);
        }
        if self.show_ram {
            let mut row: Vec<Cell> = Vec::new();
            row.push(Cell::new("RAM:".to_owned()));
            row.push(
                Cell::aligned(mem_value(snap.memory.used, snap.memory.total), Align::Right),
            );
            proof {
                assert(spec_cells_of(row@) =~= spec_ram_row(snap@.memory));
            }
            t.add_row(row);
        }
        if self.show_swap {
            let mut row: Vec<Cell> = Vec::new();
            row.push(Cell::new("Swap:".to_owned()));
            row.push(
                Cell::aligned(
                    mem_value(snap.memory.swap_used, snap.memory.swap_total),
                    Align::Right,
                ),
            );
            proof {
                assert(spec_cells_of(row@) =~= spec_swap_row(snap@.memory));
            }
            t.add_row(row);
        }
        proof {
            assert(t@ =~= spec_mem_table(*self, snap@.memory));
        }
        t
    }

    /// The used fractions, in the order the rows are shown.
    pub fn get_per(&self, snap: &Snapshot) -> (r: Vec<Frac>)
        ensures
            r@ == spec_mem_pers(*self, snap@.memory),
            forall|k: int| 0 <= k < r@.len() ==> (#[trigger] r@[k]).wf(),
    {
        let ram = mem_frac(snap.memory.used, snap.memory.total);
        let swap = mem_frac(snap.memory.swap_used, snap.memory.swap_total);
        let mut r: Vec<Frac> = Vec::new();
        if self.show_ram && self.show_swap {
            r.push(ram);
            r.push(swap);
        } else if self.show_swap {
            r.push(swap);
        } else if self.show_ram {
            r.push(ram);
        }
        proof {
            assert(r@ =~= spec_mem_pers(*self, snap@.memory));
        }
        r
    }
}

impl Component for Memory {
    open spec fn wf(&self) -> bool {
        self.warning_threshold.wf()
    }

    open spec fn spec_width(&self, snap: SnapshotV) -> int {
        0
    }

    open spec fn spec_print(&self, snap: SnapshotV, width: int) -> Result<
        Seq<Seq<char>>,
        DashboardError,
    > {
        if !self.show_ram {
            Ok(Seq::empty())
        } else {
            let t = spec_mem_table(*self, snap.memory);
            let bw = spec_clamped_bw(t, width);
            match (css_color_spec(self.default_color@), css_color_spec(self.warning_color@)) {
                (Some(nc), Some(wc)) => if bw < 2 {
                    Err(DashboardError::Layout)
                } else {
                    Ok(spec_mem_lines(*self, snap.memory, width, nc, wc))
                },
                _ => Err(DashboardError::ColorParse),
            }
        }
    }

    fn width(&self, snap: &Snapshot) -> (w: usize) {
        0
    }

    fn print(&self, snap: &Snapshot, width: usize) -> (r: Result<Vec<String>, DashboardError>) {
        if !self.show_ram {
            let r: Vec<String> = Vec::new();
            proof {
                assert(r.deep_view() =~= Seq::<Seq<char>>::empty());
            }
            return Ok(r);
        }
        let t = self.table(snap);
        let tl = t.render_lines(width);
        let nw = t.natural_width();
        let bw: usize = if nw >= width {
            nw
        } else {
            width
        };
        proof {
            assert(bw as int == spec_clamped_bw(t@, width as int));
        }
        if color_to_rgb8(self.default_color.as_str()).is_err() {
            return Err(DashboardError::ColorParse);
        }
        if color_to_rgb8(self.warning_color.as_str()).is_err() {
            return Err(DashboardError::ColorParse);
        }
        if bw < 2 {
            return Err(DashboardError::Layout);
        }
        let pers = self.get_per(snap);
        let ghost nc = css_color_spec(self.default_color@)->Some_0;
        let ghost wc = css_color_spec(self.warning_color@)->Some_0;
        let ghost bars = Seq::new(
            pers@.len(),
            |i: int| spec_bar(bw as int, pers@[i], nc, wc, self.warning_threshold),
        );
        proof {
            assert(tl.deep_view().len() == pers@.len()) by {
                assert(spec_render_lines(t@, width as int).len() == t@.len());
            }
        }
        let mut out: Vec<String> = Vec::new();
        proof {
            reveal_strlit("Memory:");
            assert("Memory:"@ =~= seq!['M', 'e', 'm', 'o', 'r', 'y', ':']);
        }
        out.push("Memory:".to_owned());
        let mut i: usize = 0;
        while i < tl.len()
            invariant
                self.wf(),
                i <= tl.len(),
                tl.deep_view() == spec_render_lines(t@, width as int),
                tl.len() == pers@.len(),
                t@ == spec_mem_table(*self, snap@.memory),
                pers@ == spec_mem_pers(*self, snap@.memory),
                forall|k: int| 0 <= k < pers@.len() ==> (#[trigger] pers@[k]).wf(),
                css_color_spec(self.default_color@) == Some(nc),
                css_color_spec(self.warning_color@) == Some(wc),
                bw >= 2,
                bars == Seq::new(
                    pers@.len(),
                    |k: int| spec_bar(bw as int, pers@[k], nc, wc, self.warning_threshold),
                ),
                out@.len() == 1 + 2 * i,
                out@[0]@ == seq!['M', 'e', 'm', 'o', 'r', 'y', ':'],
                forall|k: int|
                    0 <= k < i as int ==> (#[trigger] out@[1 + 2 * k]@) == spec_indent2(
                        tl.deep_view()[k],
                    ),
                forall|k: int|
                    0 <= k < i as int ==> (#[trigger] out@[2 + 2 * k]@) == spec_indent2(bars[k]),
            decreases tl.len() - i,
        {
            out.push(indent2(tl[i].as_str()));
            let bar = process_str(
                bw,
                pers[i],
                self.default_color.as_str(),
                self.warning_color.as_str(),
                self.warning_threshold,
            );
            match bar {
                Ok(b) => {
                    out.push(indent2(b.as_str()));
                },
                Err(_) => {
                    proof {
                        assert(false);
                    }
                },
            }
            i = i + 1;
        }
        out.push(String::new());
        proof {
            let sl = spec_mem_lines(*self, snap@.memory, width as int, nc, wc);
            let n = pers@.len() as int;
            assert(out.deep_view().len() == sl.len());
            assert forall|j: int| 0 <= j < sl.len() implies out.deep_view()[j] == sl[j] by {
                assert(out.deep_view()[j] == out@[j]@);
                if j == 0 {
                } else if j == sl.len() - 1 {
                } else {
                    let k = (j - 1) / 2;
                    if (j - 1) % 2 == 0 {
                        assert(j == 1 + 2 * k);
                        assert(out@[1 + 2 * k]@ == spec_indent2(tl.deep_view()[k]));
                    } else {
                        assert(j == 2 + 2 * k);
                        assert(out@[2 + 2 * k]@ == spec_indent2(bars[k]));
                    }
                }
            }
            assert(out.deep_view() =~= sl);
        }
        Ok(out)
    }
}

} // verus!
