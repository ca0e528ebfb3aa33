use vstd::prelude::*;

verus! {

use crate::errors::DashboardError;
use crate::frac::Frac;
use crate::snapshot::{DiskInfo, DiskInfoV, Snapshot, SnapshotV};
use crate::table::{Align, Cell, CellV, Table, spec_cells_of, spec_render_lines};
use crate::tools::{ByteStr, spec_byte_str, spec_bar, css_color_spec, color_to_rgb8, process_str};
use crate::components::component::{
    Component,
    spec_indent2,
    spec_clamped_bw,
    spec_interleave_bars,
    indent2,
};

/// The disk section: one table row per mount that the configuration names,
/// with a utilization bar beneath each row.
pub struct Disk {
    pub default_color: String,
    pub warning_color: String,
    pub warning_threshold: Frac,
    pub mounts: Vec<(String, String)>,
}

/// One retained disk, ready to render.
pub struct DiskItem {
    pub name: String,
    pub fs: String,
    pub kind: String,
    pub mount: String,
    pub used: String,
    pub total: String,
    pub avail: String,
    pub per: Frac,
}

/// The mathematical image of a retained disk.
pub ghost struct DiskItemV {
    pub name: Seq<char>,
    pub fs: Seq<char>,
    pub kind: Seq<char>,
    pub mount: Seq<char>,
    pub used: Seq<char>,
    pub total: Seq<char>,
    pub avail: Seq<char>,
    pub per: Frac,
}

impl View for DiskItem {
    type V = DiskItemV;

    open spec fn view(&self) -> DiskItemV {
        DiskItemV {
            name: self.name@,
            fs: self.fs@,
            kind: self.kind@,
            mount: self.mount@,
            used: self.used@,
            total: self.total@,
            avail: self.avail@,
            per: self.per,
        }
    }
}

/// The images of a list of retained disks.
pub open spec fn spec_items_of(s: Seq<DiskItem>) -> Seq<DiskItemV> {
    s.map_values(|it: DiskItem| it@)
}

/// The display name for a mount point: the first entry of the configured
/// mapping whose key is that mount point.
pub open spec fn spec_lookup(ms: Seq<(String, String)>, key: Seq<char>) -> Option<Seq<char>>
    decreases ms.len(),
{
    if ms.len() == 0 {
        None
    } else if ms.first().0@ == key {
        Some(ms.first().1@)
    } else {
        spec_lookup(ms.drop_first(), key)
    }
}

/// The bytes counted as used: total less available (zero when the counters
/// disagree).
pub open spec fn spec_used_bytes(d: DiskInfoV) -> u64 {
    if d.avail <= d.total {
        (d.total - d.avail) as u64
    } else {
        0
    }
}

/// The used fraction of a disk (an empty disk counts as unused).
pub open spec fn spec_disk_frac(d: DiskInfoV) -> Frac {
    if d.total > 0 {
        Frac { num: spec_used_bytes(d), den: d.total }
    } else {
        Frac { num: 0, den: 1 }
    }
}

/// The render row derived from one retained disk.
pub open spec fn spec_disk_item(name: Seq<char>, d: DiskInfoV) -> DiskItemV {
    DiskItemV {
        name,
        fs: d.fs,
        kind: d.kind,
        mount: d.mount,
        used: spec_byte_str(spec_used_bytes(d) as int),
        total: spec_byte_str(d.total as int),
        avail: spec_byte_str(d.avail as int),
        per: spec_disk_frac(d),
    }
}

/// The retained disks, in live-list order: exactly those whose mount point
/// the configured mapping names; all others are dropped silently.
pub open spec fn spec_disk_items(ms: Seq<(String, String)>, ds: Seq<DiskInfoV>) -> Seq<DiskItemV>
    decreases ds.len(),
{
    if ds.len() == 0 {
        Seq::empty()
    } else {
        spec_disk_items(ms, ds.drop_last()) + (match spec_lookup(ms, ds.last().mount) {
            Some(name) => seq![spec_disk_item(name, ds.last())],
            None => Seq::empty(),
        })
    }
}

/// The table row for one retained disk.
pub open spec fn spec_disk_row(it: DiskItemV) -> Seq<CellV> {
    seq![
        CellV { text: it.name, align: Align::Left },
        CellV { text: it.fs, align: Align::Left },
        CellV { text: it.kind, align: Align::Left },
        CellV { text: it.mount, align: Align::Left },
        CellV { text: it.used, align: Align::Left },
        CellV { text: it.total, align: Align::Left },
        CellV { text: it.avail, align: Align::Left },
    ]
}

/// The centered header row of the disk table.
pub open spec fn spec_disk_header() -> Seq<CellV> {
    seq![
        CellV { text: seq!['n', 'a', 'm', 'e'], align: Align::Center },
        CellV { text: seq!['f', 's'], align: Align::Center },
        CellV { text: seq!['t', 'y', 'p', 'e'], align: Align::Center },
        CellV { text: seq!['m', 'o', 'u', 'n', 't'], align: Align::Center },
        CellV { text: seq!['u', 's', 'e', 'd'], align: Align::Center },
        CellV { text: seq!['t', 'o', 't', 'a', 'l'], align: Align::Center },
        CellV { text: seq!['a', 'v', 'a', 'i', 'l'], align: Align::Center },
    ]
}

/// The rows of the retained disks.
pub open spec fn spec_disk_rows(items: Seq<DiskItemV>) -> Seq<Seq<CellV>> {
    items.map_values(|it: DiskItemV| spec_disk_row(it))
}

/// The disk table: the header row, then one row per retained disk.
pub open spec fn spec_disk_table(items: Seq<DiskItemV>) -> Seq<Seq<CellV>> {
    seq![spec_disk_header()] + spec_disk_rows(items)
}

/// The lines of the disk section at the given width, when all bars render.
pub open spec fn spec_disk_lines(
    conf: Disk,
    ds: Seq<DiskInfoV>,
    width: int,
    nc: (u8, u8, u8),
    wc: (u8, u8, u8),
) -> Seq<Seq<char>> {
    let items = spec_disk_items(conf.mounts@, ds);
    let t = spec_disk_table(items);
    let tl = spec_render_lines(t, width);
    let bw = spec_clamped_bw(t, width);
    let bars = Seq::new(
        items.len(),
        |i: int| spec_bar(bw, items[i].per, nc, wc, conf.warning_threshold),
    );
    seq![seq!['D', 'i', 's', 'k', ':'], spec_indent2(tl[0])] + spec_interleave_bars(
        tl.drop_first(),
        bars,
    ) + seq![Seq::<char>::empty()]
}

/// Looks a mount point up in the configured mapping.
fn lookup_mount(ms: &Vec<(String, String)>, key: &String) -> (r: Option<String>)
    ensures
        ({
            match r {
                Some(name) => spec_lookup(ms@, key@) == Some(name@),
                None => spec_lookup(ms@, key@) is None,
            }
        }),
{
    let mut i: usize = 0;
    proof {
        assert(ms@.skip(0) =~= ms@);
    }
    while i < ms.len()
        invariant
            i <= ms.len(),
            spec_lookup(ms@, key@) == spec_lookup(ms@.skip(i as int), key@),
        decreases ms.len() - i,
    {
        proof {
            assert(ms@.skip(i as int).first() == ms@[i as int]);
            assert(ms@.skip(i as int).drop_first() =~= ms@.skip(i as int + 1));
        }
        if ms[i].0.eq(key) {
            return Some(ms[i].1.clone());
        }
        i = i + 1;
    }
    proof {
        assert(ms@.skip(ms@.len() as int).len() == 0);
    }
    None
}

impl DiskItem {
    /// Derives the render row for one retained disk.
    pub fn new(name: String, disk: &DiskInfo) -> (it: DiskItem)
        ensures
            it@ == spec_disk_item(name@, disk@),
            it.per.wf(),
    {
        let used_bytes: u64 = if disk.avail <= disk.total {
            disk.total - disk.avail
        } else {
            0
        };
        let per = if disk.total > 0 {
            Frac { num: used_bytes, den: disk.total }
        } else {
            Frac { num: 0, den: 1 }
        };
        DiskItem {
            name,
            fs: disk.fs.clone(),
            kind: disk.kind.clone(),
            mount: disk.mount.clone(),
            used: used_bytes.byte_str(),
            total: disk.total.byte_str(),
            avail: disk.avail.byte_str(),
            per,
        }
    }

    /// The row of cells this disk renders as.
    pub fn row(&self) -> (r: Vec<Cell>)
        ensures
            spec_cells_of(r@) == spec_disk_row(self@),
    {
        let mut r: Vec<Cell> = Vec::new();
        r.push(Cell::new(self.name.clone()));
        r.push(Cell::new(self.fs.clone()));
        r.push(Cell::new(self.kind.clone()));
        r.push(Cell::new(self.mount.clone()));
        r.push(Cell::new(self.used.clone()));
        r.push(Cell::new(self.total.clone()));
        r.push(Cell::new(self.avail.clone()));
        proof {
            assert(spec_cells_of(r@) =~= spec_disk_row(self@));
        }
        r
    }
}

impl Disk {
    /// Retains the live disks that the configured mapping names.
    pub fn get_items(&self, snap: &Snapshot) -> (r: Vec<DiskItem>)
        ensures
            spec_items_of(r@) == spec_disk_items(self.mounts@, snap@.disks),
            forall|k: int| 0 <= k < r@.len() ==> (#[trigger] r@[k]).per.wf(),
    {
        let mut r: Vec<DiskItem> = Vec::new();
        let mut i: usize = 0;
        while i < snap.disks.len()
            invariant
                i <= snap.disks.len(),
                spec_items_of(r@) == spec_disk_items(self.mounts@, snap@.disks.take(i as int)),
                forall|k: int| 0 <= k < r@.len() ==> (#[trigger] r@[k]).per.wf(),
            decreases snap.disks.len() - i,
        {
            let look = lookup_mount(&self.mounts, &snap.disks[i].mount);
            match look {
                Some(name) => {
                    r.push(DiskItem::new(name, &snap.disks[i]));
                },
                None => {},
            }
            i = i + 1;
            proof {
                assert(snap@.disks.take(i as int).drop_last() =~= snap@.disks.take(i as int - 1));
                assert(snap@.disks.take(i as int).last() == snap@.disks[i as int - 1]);
                assert(snap@.disks[i as int - 1] == snap.disks@[i as int - 1]@);
                assert(spec_items_of(r@) =~= spec_disk_items(
                    self.mounts@,
                    snap@.disks.take(i as int),
                ));
            }
        }
        proof {
            assert(snap@.disks.take(snap@.disks.len() as int) =~= snap@.disks);
        }
        r
    }

    /// The disk table, header first.
    pub fn table(&self, items: &Vec<DiskItem>) -> (t: Table)
        ensures
            t@ == spec_disk_table(spec_items_of(items@)),
    {
        let mut titles: Vec<String> = Vec::new();
        titles.push("name".to_owned());
        titles.push("fs".to_owned());
        titles.push("type".to_owned());
        titles.push("mount".to_owned());
        titles.push("used".to_owned());
        titles.push("total".to_owned());
        titles.push("avail".to_owned());
        let mut t = Table::new();
        t.add_header(titles);
        proof {
            reveal_strlit("name");
            reveal_strlit("fs");
            reveal_strlit("type");
            reveal_strlit("mount");
            reveal_strlit("used");
            reveal_strlit("total");
            reveal_strlit("avail");
            assert("name"@ =~= seq!['n', 'a', 'm', 'e']);
            assert("fs"@ =~= seq!['f', 's']);
            assert("type"@ =~= seq!['t', 'y', 'p', 'e']);
            assert("mount"@ =~= seq!['m', 'o', 'u', 'n', 't']);
            assert("used"@ =~= seq!['u', 's', 'e', 'd']);
            assert("total"@ =~= seq!['t', 'o', 't', 'a', 'l']);
            assert("avail"@ =~= seq!['a', 'v', 'a', 'i', 'l']);
            assert(t@[0] =~= spec_disk_header());
        }
        let mut i: usize = 0;
        while i < items.len()
            invariant
                i <= items.len(),
                t@.len() == 1 + i as int,
                t@[0] == spec_disk_header(),
                forall|k: int|
                    0 <= k < i as int ==> t@[1 + k] == spec_disk_row(
                        #[trigger] spec_items_of(items@)[k],
                    ),
            decreases items.len() - i,
        {
            t.add_row(items[i].row());
            i = i + 1;
        }
        proof {
            assert(t@ =~= spec_disk_table(spec_items_of(items@)));
        }
        t
    }
}

impl Component for Disk {
    open spec fn wf(&self) -> bool {
        self.warning_threshold.wf()
    }

    open spec fn spec_width(&self, snap: SnapshotV) -> int {
        let t = spec_disk_table(spec_disk_items(self.mounts@, snap.disks));
        let n = crate::table::spec_natural_width(t);
        if n > usize::MAX as int {
            usize::MAX as int
        } else {
            n
        }
    }

    open spec fn spec_print(&self, snap: SnapshotV, width: int) -> Result<
        Seq<Seq<char>>,
        DashboardError,
    > {
        if self.mounts@.len() == 0 {
            Ok(Seq::empty())
        } else {
            let items = spec_disk_items(self.mounts@, snap.disks);
            let t = spec_disk_table(items);
            let tl = spec_render_lines(t, width);
            let bw = spec_clamped_bw(t, width);
            if items.len() == 0 {
                Ok(
                    seq![seq!['D', 'i', 's', 'k', ':'], spec_indent2(tl[0])] + seq![
                        Seq::<char>::empty(),
                    ],
                )
            } else {
                match (css_color_spec(self.default_color@), css_color_spec(self.warning_color@)) {
                    (Some(nc), Some(wc)) => if bw < 2 {
                        Err(DashboardError::Layout)
                    } else {
                        Ok(spec_disk_lines(*self, snap.disks, width, nc, wc))
                    },
                    _ => Err(DashboardError::ColorParse),
                }
            }
        }
    }

    fn width(&self, snap: &Snapshot) -> (w: usize) {
        let items = self.get_items(snap);
        let t = self.table(&items);
        t.natural_width()
    }

    fn print(&self, snap: &Snapshot, width: usize) -> (r: Result<Vec<String>, DashboardError>) {
        if self.mounts.len() == 0 {
            let r: Vec<String> = Vec::new();
            proof {
                assert(r.deep_view() =~= Seq::<Seq<char>>::empty());
            }
            return Ok(r);
        }
        let items = self.get_items(snap);
        let t = self.table(&items);
        let tl = t.render_lines(width);
        let nw = t.natural_width();
        let bw: usize = if nw >= width {
            nw
        } else {
            width
        };
        proof {
            assert(bw as int == spec_clamped_bw(t@, width as int));
            assert(tl.deep_view().len() == t@.len());
            assert(t@.len() == 1 + items@.len());
        }
        let mut out: Vec<String> = Vec::new();
        proof {
            reveal_strlit("Disk:");
            assert("Disk:"@ =~= seq!['D', 'i', 's', 'k', ':']);
        }
        out.push("Disk:".to_owned());
        out.push(indent2(tl[0].as_str()));
        if items.len() == 0 {
            out.push(String::new());
            proof {
                assert(out.deep_view() =~= (seq![
                    seq!['D', 'i', 's', 'k', ':'],
                    spec_indent2(spec_render_lines(t@, width as int)[0]),
                ] + seq![Seq::<char>::empty()]));
            }
            return Ok(out);
        }
        if color_to_rgb8(self.default_color.as_str()).is_err() {
            return Err(DashboardError::ColorParse);
        }
        if color_to_rgb8(self.warning_color.as_str()).is_err() {
            return Err(DashboardError::ColorParse);
        }
        if bw < 2 {
            return Err(DashboardError::Layout);
        }
        let ghost nc = css_color_spec(self.default_color@)->Some_0;
        let ghost wc = css_color_spec(self.warning_color@)->Some_0;
        let ghost gitems = spec_disk_items(self.mounts@, snap@.disks);
        let ghost bars = Seq::new(
            gitems.len(),
            |i: int| spec_bar(bw as int, gitems[i].per, nc, wc, self.warning_threshold),
        );
        let mut k: usize = 0;
        while k < items.len()
            invariant
                self.wf(),
                k <= items.len(),
                tl.deep_view() == spec_render_lines(t@, width as int),
                t@ == spec_disk_table(spec_items_of(items@)),
                tl.len() == 1 + items@.len(),
                gitems == spec_items_of(items@),
                forall|j: int| 0 <= j < items@.len() ==> (#[trigger] items@[j]).per.wf(),
                css_color_spec(self.default_color@) == Some(nc),
                css_color_spec(self.warning_color@) == Some(wc),
                bw >= 2,
                bars == Seq::new(
                    gitems.len(),
                    |i: int| spec_bar(bw as int, gitems[i].per, nc, wc, self.warning_threshold),
                ),
                out@.len() == 2 + 2 * k,
                out@[0]@ == seq!['D', 'i', 's', 'k', ':'],
                out@[1]@ == spec_indent2(tl.deep_view()[0]),
                forall|j: int|
                    0 <= j < k as int ==> (#[trigger] out@[2 + 2 * j]@) == spec_indent2(
                        tl.deep_view()[j + 1],
                    ),
                forall|j: int|
                    0 <= j < k as int ==> (#[trigger] out@[3 + 2 * j]@) == spec_indent2(bars[j]),
            decreases items.len() - k,
        {
            out.push(indent2(tl[k + 1].as_str()));
            let bar = process_str(
                bw,
                items[k].per,
                self.default_color.as_str(),
                self.warning_color.as_str(),
                self.warning_threshold,
            );
            match bar {
                Ok(b) => {
                    out.push(indent2(b.as_str()));
                },
                Err(_) => {
                    proof {
                        assert(false);
                    }
                },
            }
            k = k + 1;
        }
        out.push(String::new());
        proof {
            let sl = spec_disk_lines(*self, snap@.disks, width as int, nc, wc);
            let gtl = spec_render_lines(t@, width as int);
            assert(out.deep_view().len() == sl.len());
            assert forall|j: int| 0 <= j < sl.len() implies out.deep_view()[j] == sl[j] by {
                assert(out.deep_view()[j] == out@[j]@);
                if j == 0 {
                } else if j == 1 {
                } else if j == sl.len() - 1 {
                } else {
                    let m = (j - 2) / 2;
                    if (j - 2) % 2 == 0 {
                        assert(j == 2 + 2 * m);
                        assert(out@[2 + 2 * m]@ == spec_indent2(gtl[m + 1]));
                        assert(gtl.drop_first()[m] == gtl[m + 1]);
                    } else {
                        assert(j == 3 + 2 * m);
                        assert(out@[3 + 2 * m]@ == spec_indent2(bars[m]));
                    }
                }
            }
            assert(out.deep_view() =~= sl);
        }
        Ok(out)
    }
}

} // verus!
