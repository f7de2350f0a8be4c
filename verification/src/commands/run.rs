//! `xcode-dap run`: what the command shows while the app runs.

use crate::engine::config::ConfigView;
use crate::engine::config::LaunchConfig;
use crate::engine::consoles::default_oslog_predicate;
use crate::engine::consoles::own_logging;
use crate::number::decimal_i64;
use crate::number::decimal_int;
use crate::setup::project::text_or_empty;
use crate::text::opt_view;
use crate::text::owned;
use crate::util::paths::file_stem;
use crate::util::paths::stem_of;
use vstd::prelude::*;

verus! {

/// The predicate of the log pump, where logs are pumped: the configured one, or
/// the app's own logging.
pub open spec fn pump_predicate(cfg: ConfigView, bundle_id: Seq<char>, app: Seq<char>) -> Option<
    Seq<char>,
> {
    if !cfg.oslog {
        None
    } else {
        match cfg.oslog_predicate {
            Some(p) => Some(p),
            None => Some(own_logging(bundle_id, text_or_empty(stem_of(app)))),
        }
    }
}

/// The predicate of the log pump, where logs are pumped.
pub fn oslog_predicate(cfg: &LaunchConfig, bundle_id: &str, app_path: &str) -> (r: Option<String>)
    ensures
        opt_view(r) == pump_predicate(cfg@, bundle_id@, app_path@),
{
    if !cfg.oslog {
        return None;
    }
    match &cfg.oslog_predicate {
        Some(p) => Some(owned(p.as_str())),
        None => {
            let name = match file_stem(app_path) {
                Some(n) => n,
                None => owned(""),
            };
            proof {
                reveal_strlit("");
                assert(""@ =~= Seq::<char>::empty());
            }
            Some(default_oslog_predicate(bundle_id, name.as_str()))
        },
    }
}

/// What the command says of the app.
#[derive(Clone, Copy, Debug, PartialEq, Eq, Structural)]
pub enum RunNote {
    Streaming,
    Exited,
    Detached,
}

/// What the command says of the app.
pub fn run_note(note: RunNote, bundle_id: &str, pid: i64) -> (r: String)
    ensures
        r@ == match note {
            RunNote::Streaming => "Streaming console of "@ + bundle_id@ + " (pid "@ + decimal_int(
                pid as int,
            ) + ") \u{2014} Ctrl-C to detach (app keeps running)"@,
            RunNote::Exited => "App "@ + bundle_id@ + " (pid "@ + decimal_int(pid as int)
                + ") exited"@,
            RunNote::Detached => "Detached from "@ + bundle_id@,
        },
{
    match note {
        RunNote::Streaming => {
            let mut r = owned("Streaming console of ");
            r.append(bundle_id);
            r.append(" (pid ");
            r.append(decimal_i64(pid).as_str());
            r.append(") \u{2014} Ctrl-C to detach (app keeps running)");
            r
        },
        RunNote::Exited => {
            let mut r = owned("App ");
            r.append(bundle_id);
            r.append(" (pid ");
            r.append(decimal_i64(pid).as_str());
            r.append(") exited");
            r
        },
        RunNote::Detached => {
            let mut r = owned("Detached from ");
            r.append(bundle_id);
            r
        },
    }
}

} // verus!
