//! What the program says of itself when it starts.

use vstd::prelude::*;
use vstd::string::*;

use crate::config::{Config, ConfigData};
use crate::domain::{target_form, TargetData};
use crate::text::{decimal, unsigned_text};

verus! {

/// The address to listen on: every interface, at the configured port.
pub fn bind_addr(cfg: &Config) -> (r: String)
    ensures
        r@ == "0.0.0.0:"@ + decimal(cfg@.port as nat),
{
    let mut r = "0.0.0.0:".to_string();
    r.append(unsigned_text(cfg.port_u16() as u64).as_str());
    r
}

/// One line per target.
pub open spec fn target_lines(ts: Seq<TargetData>) -> Seq<char>
    decreases ts.len(),
{
    if ts.len() == 0 {
        Seq::empty()
    } else {
        target_lines(ts.drop_last()) + "  - "@ + target_form(ts.last()) + "\n"@
    }
}

/// The first line of the banner.
pub open spec fn banner_head(c: ConfigData) -> Seq<char> {
    "netmon up on http://localhost:"@ + decimal(c.port as nat) + "  (db="@ + c.db_path
        + ", every "@ + decimal(c.interval as nat) + "s)\n"@
}

/// The startup banner: where the program listens, its database and its pace,
/// then the targets, one per line.
pub open spec fn banner_text(c: ConfigData) -> Seq<char> {
    banner_head(c) + "targets ("@ + decimal(c.targets.len()) + "):\n"@ + target_lines(c.targets)
}

/// The startup banner.
pub fn banner(cfg: &Config) -> (r: String)
    ensures
        r@ == banner_text(cfg@),
{
    let mut out = "netmon up on http://localhost:".to_string();
    out.append(unsigned_text(cfg.port_u16() as u64).as_str());
    out.append("  (db=");
    out.append(cfg.db_path.as_path());
    out.append(", every ");
    out.append(unsigned_text(cfg.interval_secs()).as_str());
    out.append("s)\n");
    assert(out@ == banner_head(cfg@));
    out.append("targets (");
    out.append(unsigned_text(cfg.targets.len() as u64).as_str());
    out.append("):\n");
    let ghost head = out@;
    let targets = cfg.targets.as_slice();
    let ghost data = cfg@.targets;
    let n: usize = targets.len();
    let mut i: usize = 0;
    assert(out@ =~= head + target_lines(data.take(0)));
    while i < n
        invariant
            i <= n,
            n == targets@.len(),
            data == crate::domain::targets_data(targets@),
            out@ == head + target_lines(data.take(i as int)),
        decreases n - i,
    {
        let ghost before = target_lines(data.take(i as int));
        out.append("  - ");
        out.append(targets[i].to_string().as_str());
        out.append("\n");
        proof {
            assert(data.take(i + 1).drop_last() =~= data.take(i as int));
            assert(data.take(i + 1).last() == targets@[i as int]@);
            assert(out@ =~= head + (before + "  - "@ + target_form(data[i as int]) + "\n"@));
        }
        i += 1;
    }
    assert(data.take(n as int) =~= data);
    out
}

} // verus!
