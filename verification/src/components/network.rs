use vstd::prelude::*;

verus! {

use crate::errors::DashboardError;
use crate::snapshot::{NetInfo, NetInfoV, Snapshot, SnapshotV};
use crate::table::{Align, Cell, CellV, Table, spec_render_lines};
use crate::text::{spec_fg_ansi, spec_fg_reset, spec_trimmed, fg_red, fg_green, fg_reset, trim_text};
use crate::tools::{ByteStr, spec_byte_str};
use crate::components::component::{Component, spec_indent2, indent2};

/// The network section: one line per configured interface that the live
/// interface list knows; interfaces absent from the live list are skipped
/// silently.
pub struct Network {
    pub interfaces: Vec<String>,
    pub show_mac: bool,
    pub show_flow: bool,
}

/// The first live interface carrying the given name (the live list holds
/// each interface name once).
pub open spec fn spec_net_lookup(ns: Seq<NetInfoV>, name: Seq<char>) -> Option<NetInfoV>
    decreases ns.len(),
{
    if ns.len() == 0 {
        None
    } else if ns.first().name == name {
        Some(ns.first())
    } else {
        spec_net_lookup(ns.drop_first(), name)
    }
}

/// The received-flow glyph pair: an opening parenthesis, a green down
/// triangle and a red up triangle, colors reset after.
pub open spec fn spec_up_icon() -> Seq<char> {
    seq!['('] + spec_fg_ansi(2) + seq!['\u{25bc}'] + spec_fg_ansi(1) + seq!['\u{25b2}']
        + spec_fg_reset()
}

/// The transmitted-flow glyph pair: a red down triangle and a green up
/// triangle, colors reset after.
pub open spec fn spec_down_icon() -> Seq<char> {
    spec_fg_ansi(1) + seq!['\u{25bc}'] + spec_fg_ansi(2) + seq!['\u{25b2}'] + spec_fg_reset()
}

/// The MAC address cell.
pub open spec fn spec_mac_cell(d: NetInfoV) -> CellV {
    CellV { text: seq!['m', 'a', 'c', ':', ' '] + d.mac, align: Align::Left }
}

/// The table row for one interface when flow display is on.
pub open spec fn spec_flow_row(name: Seq<char>, d: NetInfoV, show_mac: bool) -> Seq<CellV> {
    let base = seq![
        CellV { text: spec_trimmed(name), align: Align::Left },
        CellV { text: spec_up_icon(), align: Align::Left },
        CellV { text: spec_byte_str(d.received as int), align: Align::Right },
        CellV { text: seq!['/'], align: Align::Left },
        CellV { text: spec_down_icon(), align: Align::Left },
        CellV { text: spec_byte_str(d.transmitted as int) + seq![')'], align: Align::Right },
    ];
    if show_mac {
        base.push(spec_mac_cell(d))
    } else {
        base
    }
}

/// What the configured interfaces contribute, in order: the plain indented
/// name lines (flow display off) and the table rows.
pub open spec fn spec_net_build(
    ifaces: Seq<String>,
    ns: Seq<NetInfoV>,
    show_mac: bool,
    show_flow: bool,
) -> (Seq<Seq<char>>, Seq<Seq<CellV>>)
    decreases ifaces.len(),
{
    if ifaces.len() == 0 {
        (Seq::empty(), Seq::empty())
    } else {
        let prev = spec_net_build(ifaces.drop_last(), ns, show_mac, show_flow);
        match spec_net_lookup(ns, ifaces.last()@) {
            None => prev,
            Some(d) => if show_flow {
                (prev.0, prev.1.push(spec_flow_row(ifaces.last()@, d, show_mac)))
            } else {
                let row = if show_mac {
                    seq![spec_mac_cell(d)]
                } else {
                    Seq::<CellV>::empty()
                };
                (prev.0.push(spec_indent2(ifaces.last()@)), prev.1.push(row))
            },
        }
    }
}

/// Finds the first live interface with the given name.
fn find_net(ns: &Vec<NetInfo>, name: &String) -> (r: Option<usize>)
    ensures
        ({
            match r {
                Some(i) => i < ns@.len() && spec_net_lookup(
                    ns@.map_values(|n: NetInfo| n@),
                    name@,
                ) == Some(ns@[i as int]@),
                None => spec_net_lookup(ns@.map_values(|n: NetInfo| n@), name@) is None,
            }
        }),
{
    let ghost nv = ns@.map_values(|n: NetInfo| n@);
    let mut i: usize = 0;
    proof {
        assert(nv.skip(0) =~= nv);
    }
    while i < ns.len()
        invariant
            i <= ns.len(),
            nv == ns@.map_values(|n: NetInfo| n@),
            spec_net_lookup(nv, name@) == spec_net_lookup(nv.skip(i as int), name@),
        decreases ns.len() - i,
    {
        proof {
            assert(nv.skip(i as int).first() == nv[i as int]);
            assert(nv.skip(i as int).drop_first() =~= nv.skip(i as int + 1));
        }
        if ns[i].name.eq(name) {
            return Some(i);
        }
        i = i + 1;
    }
    proof {
        assert(nv.skip(nv.len() as int).len() == 0);
    }
    None
}

fn up_icon() -> (r: String)
    ensures
        r@ == spec_up_icon(),
{
    proof {
        reveal_strlit("(");
        reveal_strlit("\u{25bc}");
        reveal_strlit("\u{25b2}");
        assert("("@ =~= seq!['(']);
        assert("\u{25bc}"@ =~= seq!['\u{25bc}']);
        assert("\u{25b2}"@ =~= seq!['\u{25b2}']);
    }
    let mut s = "(".to_owned();
    s.append(fg_green().as_str());
    s.append("\u{25bc}");
    s.append(fg_red().as_str());
    s.append("\u{25b2}");
    s.append(fg_reset().as_str());
    proof {
        assert(s@ =~= spec_up_icon());
    }
    s
}

fn down_icon() -> (r: String)
    ensures
        r@ == spec_down_icon(),
{
    proof {
        reveal_strlit("\u{25bc}");
        reveal_strlit("\u{25b2}");
        assert("\u{25bc}"@ =~= seq!['\u{25bc}']);
        assert("\u{25b2}"@ =~= seq!['\u{25b2}']);
    }
    let mut s = fg_red();
    s.append("\u{25bc}");
    s.append(fg_green().as_str());
    s.append("\u{25b2}");
    s.append(fg_reset().as_str());
    proof {
        assert(s@ =~= spec_down_icon());
    }
    s
}

impl Component for Network {
    open spec fn wf(&self) -> bool {
        true
    }

    open spec fn spec_width(&self, snap: SnapshotV) -> int {
        0
    }

    open spec fn spec_print(&self, snap: SnapshotV, width: int) -> Result<
        Seq<Seq<char>>,
        DashboardError,
    > {
        if !self.show_flow && !self.show_mac {
            Ok(Seq::empty())
        } else {
            let b = spec_net_build(self.interfaces@, snap.networks, self.show_mac, self.show_flow);
            Ok(
                seq![seq!['N', 'e', 't', 'w', 'o', 'r', 'k', ':']] + b.0 + spec_render_lines(b.1, 0)
                    + seq![Seq::<char>::empty()],
            )
        }
    }

    fn width(&self, snap: &Snapshot) -> (w: usize) {
        0
    }

    fn print(&self, snap: &Snapshot, width: usize) -> (r: Result<Vec<String>, DashboardError>) {
        if !self.show_flow && !self.show_mac {
            let r: Vec<String> = Vec::new();
            proof {
                assert(r.deep_view() =~= Seq::<Seq<char>>::empty());
            }
            return Ok(r);
        }
        let mut t = Table::new();
        let mut plain: Vec<String> = Vec::new();
        let mut i: usize = 0;
        while i < self.interfaces.len()
            invariant
                i <= self.interfaces.len(),
                ({
                    let b = spec_net_build(
                        self.interfaces@.take(i as int),
                        snap@.networks,
                        self.show_mac,
                        self.show_flow,
                    );
                    plain.deep_view() == b.0 && t@ == b.1
                }),
            decreases self.interfaces.len() - i,
        {
            let look = find_net(&snap.networks, &self.interfaces[i]);
            match look {
                None => {},
                Some(di) => {
                    let mut row: Vec<Cell> = Vec::new();
                    if self.show_flow {
                        row.push(
                            Cell::new(trim_text(self.interfaces[i].as_str()).to_owned()),
                        );
                        row.push(Cell::new(up_icon()));
                        row.push(Cell::aligned(snap.networks[di].received.byte_str(), Align::Right));
                        proof {
                            reveal_strlit("/");
                            reveal_strlit(")");
                            assert("/"@ =~= seq!['/']);
                            assert(")"@ =~= seq![')']);
                        }
                        row.push(Cell::new("/".to_owned()));
                        row.push(Cell::new(down_icon()));
                        let mut tx = snap.networks[di].transmitted.byte_str();
                        tx.append(")");
                        row.push(Cell::aligned(tx, Align::Right));
                    } else {
                        plain.push(indent2(self.interfaces[i].as_str()));
                    }
                    if self.show_mac {
                        proof {
                            reveal_strlit("mac: ");
                            assert("mac: "@ =~= seq!['m', 'a', 'c', ':', ' ']);
                        }
                        let mut m = "mac: ".to_owned();
                        m.append(snap.networks[di].mac.as_str());
                        row.push(Cell::new(m));
                    }
                    proof {
                        if self.show_flow {
                            assert(crate::table::spec_cells_of(row@) =~= spec_flow_row(
                                self.interfaces@[i as int]@,
                                snap@.networks[di as int],
                                self.show_mac,
                            ));
                        } else if self.show_mac {
                            assert(crate::table::spec_cells_of(row@) =~= seq![
                                spec_mac_cell(snap@.networks[di as int]),
                            ]);
                        } else {
                            assert(crate::table::spec_cells_of(row@) =~= Seq::<CellV>::empty());
                        }
                    }
                    t.add_row(row);
                },
            }
            i = i + 1;
            proof {
                assert(self.interfaces@.take(i as int).drop_last() =~= self.interfaces@.take(
                    i as int - 1,
                ));
                assert(self.interfaces@.take(i as int).last() == self.interfaces@[i as int - 1]);
                assert(snap@.networks == snap.networks@.map_values(|n: NetInfo| n@));
            }
        }
        proof {
            assert(self.interfaces@.take(self.interfaces@.len() as int) =~= self.interfaces@);
        }
        let tlines = t.render_lines(0);
        let mut out: Vec<String> = Vec::new();
        proof {
            reveal_strlit("Network:");
            assert("Network:"@ =~= seq!['N', 'e', 't', 'w', 'o', 'r', 'k', ':']);
        }
        out.push("Network:".to_owned());
        let mut j: usize = 0;
        while j < plain.len()
            invariant
                j <= plain.len(),
                out@.len() == 1 + j,
                out@[0]@ == seq!['N', 'e', 't', 'w', 'o', 'r', 'k', ':'],
                forall|k: int| 0 <= k < j as int ==> (#[trigger] out@[1 + k]@) == plain.deep_view()[k],
            decreases plain.len() - j,
        {
            out.push(plain[j].clone());
            j = j + 1;
        }
        let mut j2: usize = 0;
        while j2 < tlines.len()
            invariant
                j2 <= tlines.len(),
                out@.len() == 1 + plain@.len() + j2,
                out@[0]@ == seq!['N', 'e', 't', 'w', 'o', 'r', 'k', ':'],
                forall|k: int|
                    0 <= k < plain@.len() ==> (#[trigger] out@[1 + k]@) == plain.deep_view()[k],
                forall|k: int|
                    0 <= k < j2 as int ==> (#[trigger] out@[1 + plain@.len() + k]@)
                        == tlines.deep_view()[k],
            decreases tlines.len() - j2,
        {
            out.push(tlines[j2].clone());
            j2 = j2 + 1;
        }
        out.push(String::new());
        proof {
            let b = spec_net_build(
                self.interfaces@,
                snap@.networks,
                self.show_mac,
                self.show_flow,
            );
            let sl = seq![seq!['N', 'e', 't', 'w', 'o', 'r', 'k', ':']] + b.0 + spec_render_lines(
                b.1,
                0,
            ) + seq![Seq::<char>::empty()];
            assert(out.deep_view().len() == sl.len());
            assert forall|k: int| 0 <= k < sl.len() implies out.deep_view()[k] == sl[k] by {
                assert(out.deep_view()[k] == out@[k]@);
                if k == 0 {
                } else if k < 1 + b.0.len() {
                    assert(out@[1 + (k - 1)]@ == plain.deep_view()[k - 1]);
                } else if k < 1 + b.0.len() + b.1.len() {
                    let m = k - 1 - b.0.len();
                    assert(out@[1 + plain@.len() + m]@ == tlines.deep_view()[m]);
                }
            }
            assert(out.deep_view() =~= sl);
        }
        Ok(out)
    }
}

} // verus!
