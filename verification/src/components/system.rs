use vstd::prelude::*;

verus! {

use crate::errors::DashboardError;
use crate::snapshot::{Snapshot, SnapshotV, SysIdV};
use crate::text::{
    spec_fg_rgb,
    spec_style_reset,
    spec_trimmed_end,
    spec_human_duration,
    fg_rgb,
    style_reset,
    trim_end_text,
    human_duration,
};
use crate::tools::{css_color_spec, color_to_rgb8};
use crate::components::component::Component;

/// The system identity section: the colored title command output, the OS,
/// kernel and architecture line, and optionally the uptime.
pub struct System {
    pub title_command: String,
    pub title_color: String,
    pub show_up_time: bool,
}

/// The lines of the system section: the trimmed title in the configured
/// color, a blank line, the identity line, the optional uptime line, and a
/// trailing blank line.
pub open spec fn spec_system_lines(conf: System, sys: SysIdV, c: (u8, u8, u8)) -> Seq<Seq<char>> {
    let title = spec_fg_rgb(c.0, c.1, c.2) + spec_trimmed_end(sys.title_output)
        + spec_style_reset();
    let info = seq![' ', ' '] + sys.os_version + seq![' '] + sys.kernel_version + seq![' ']
        + sys.cpu_arch;
    let base = seq![title, Seq::<char>::empty(), info];
    if conf.show_up_time {
        base + seq![
            seq![' ', ' ', 'U', 'p', ' '] + spec_human_duration(sys.uptime_secs),
            Seq::<char>::empty(),
        ]
    } else {
        base + seq![Seq::<char>::empty()]
    }
}

impl Component for System {
    open spec fn wf(&self) -> bool {
        true
    }

    open spec fn spec_width(&self, snap: SnapshotV) -> int {
        0
    }

    open spec fn spec_print(&self, snap: SnapshotV, width: int) -> Result<
        Seq<Seq<char>>,
        DashboardError,
    > {
        match css_color_spec(self.title_color@) {
            Some(c) => Ok(spec_system_lines(*self, snap.system, c)),
            None => Err(DashboardError::ColorParse),
        }
    }

    fn width(&self, snap: &Snapshot) -> (w: usize) {
        0
    }

    fn print(&self, snap: &Snapshot, width: usize) -> (r: Result<Vec<String>, DashboardError>) {
        let c = match color_to_rgb8(self.title_color.as_str()) {
            Ok(c) => c,
            Err(e) => {
                return Err(e);
            },
        };
        proof {
            reveal_strlit("  ");
            reveal_strlit(" ");
            reveal_strlit("  Up ");
            assert("  "@ =~= seq![' ', ' ']);
            assert(" "@ =~= seq![' ']);
            assert("  Up "@ =~= seq![' ', ' ', 'U', 'p', ' ']);
        }
        let mut title = fg_rgb(c.0, c.1, c.2);
        title.append(trim_end_text(snap.system.title_output.as_str()));
        title.append(style_reset().as_str());
        let mut out: Vec<String> = Vec::new();
        out.push(title);
        out.push(String::new());
        let mut info = "  ".to_owned();
        info.append(snap.system.os_version.as_str());
        info.append(" ");
        info.append(snap.system.kernel_version.as_str());
        info.append(" ");
        info.append(snap.system.cpu_arch.as_str());
        out.push(info);
        if self.show_up_time {
            let mut up = "  Up ".to_owned();
            up.append(human_duration(snap.system.uptime_secs).as_str());
            out.push(up);
        }
        out.push(String::new());
        proof {
            assert(out.deep_view() =~= spec_system_lines(*self, snap@.system, c));
        }
        Ok(out)
    }
}

} // verus!
