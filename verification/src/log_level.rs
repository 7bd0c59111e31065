//! The level at which messages are logged, from the setting of the environment.

use crate::functions::worker_log::LogLevel;
use crate::text::{cut, pieces, same_text, split, split_once};
use crate::trim::{lower_case, to_ascii_lowercase, trim, trimmed};
use vstd::prelude::*;

verus! {

/// The level of a name.
pub open spec fn level_named(value: Seq<char>) -> Option<LogLevel> {
    let name = lower_case(trimmed(value));
    if name == "trace"@ {
        Some(LogLevel::Trace)
    } else if name == "debug"@ {
        Some(LogLevel::Debug)
    } else if name == "info"@ {
        Some(LogLevel::Info)
    } else if name == "warn"@ {
        Some(LogLevel::Warn)
    } else if name == "error"@ {
        Some(LogLevel::Error)
    } else {
        None
    }
}

/// The level of a name.
pub fn level_from_str(value: &str) -> (r: Option<LogLevel>)
    ensures
        r == level_named(value@),
{
    let name = to_ascii_lowercase(trim(value));
    let name: &str = name.as_str();
    if same_text(name, "trace") {
        Some(LogLevel::Trace)
    } else if same_text(name, "debug") {
        Some(LogLevel::Debug)
    } else if same_text(name, "info") {
        Some(LogLevel::Info)
    } else if same_text(name, "warn") {
        Some(LogLevel::Warn)
    } else if same_text(name, "error") {
        Some(LogLevel::Error)
    } else {
        None
    }
}

/// The levels that directives set: for everything, and for this program. Of several directives
/// for one of them the last counts.
pub open spec fn levels_set(directives: Seq<Seq<char>>) -> (Option<LogLevel>, Option<LogLevel>)
    decreases directives.len(),
{
    if directives.len() == 0 {
        (None, None)
    } else {
        let (global, own) = levels_set(directives.drop_last());
        let directive = trimmed(directives.last());
        if directive.len() == 0 {
            (global, own)
        } else {
            match cut(directive, "="@) {
                Some((target, level)) => if trimmed(target) == "firelite"@ {
                    (global, level_named(level))
                } else {
                    (global, own)
                },
                None => (level_named(directive), own),
            }
        }
    }
}

/// The level that a setting gives: that for this program before that for everything.
pub open spec fn level_set(value: Seq<char>) -> Option<LogLevel> {
    let (global, own) = levels_set(pieces(value, ","@));
    if own is Some {
        own
    } else {
        global
    }
}

/// The level that a setting gives.
pub fn parse_log_level(value: &str) -> (r: Option<LogLevel>)
    ensures
        r == level_set(value@),
{
    proof {
        reveal_strlit(",");
    }
    let directives = split(value, ",");
    let ghost all = directives.deep_view();
    let mut global: Option<LogLevel> = None;
    let mut own: Option<LogLevel> = None;
    let mut i: usize = 0;
    assert(all.take(0) =~= Seq::empty());
    while i < directives.len()
        invariant
            i <= directives@.len(),
            all == directives.deep_view(),
            (global, own) == levels_set(all.take(i as int)),
        decreases directives@.len() - i,
    {
        let given: &str = directives[i];
        assert(all.take(i + 1).drop_last() =~= all.take(i as int));
        assert(all.take(i + 1).last() == given@);
        let directive = trim(given);
        if !directive.is_empty() {
            match split_once(directive, "=") {
                Some((target, level)) => {
                    if same_text(trim(target), "firelite") {
                        own = level_from_str(level);
                    }
                },
                None => {
                    global = level_from_str(directive);
                },
            }
        }
        i += 1;
    }
    assert(all.take(i as int) =~= all);
    if own.is_some() {
        own
    } else {
        global
    }
}

/// Whether colours are wanted, by what is set and where the output goes.
pub open spec fn wants_colors(
    force_color: Option<Seq<char>>,
    no_color: bool,
    term: Option<Seq<char>>,
    terminal: bool,
    herdr: bool,
) -> bool {
    (force_color is Some && force_color->0 != "0"@) || (!no_color && term != Some("dumb"@) && (
    terminal || herdr))
}

/// Whether messages are coloured: where that is forced, or else on a terminal that is not dumb
/// and has not asked for none.
pub fn colors_wanted(
    force_color: Option<&str>,
    no_color: bool,
    term: Option<&str>,
    terminal: bool,
    herdr: bool,
) -> (r: bool)
    ensures
        r == wants_colors(force_color.deep_view(), no_color, term.deep_view(), terminal, herdr),
{
    let forced = match force_color {
        Some(value) => !same_text(value, "0"),
        None => false,
    };
    let dumb = match term {
        Some(term) => same_text(term, "dumb"),
        None => false,
    };
    forced || (!no_color && !dumb && (terminal || herdr))
}

/// Colours are wanted where they are forced. Where they are not, they are not wanted by whoever asks
/// for none, on a terminal that has none, and where the output goes to no terminal.
pub proof fn colors_are_wanted_on_terminals(
    force_color: Option<Seq<char>>,
    no_color: bool,
    term: Option<Seq<char>>,
    terminal: bool,
    herdr: bool,
)
    ensures
        ({
            let forced = force_color is Some && force_color->0 != "0"@;
            let wanted = wants_colors(force_color, no_color, term, terminal, herdr);
            &&& forced ==> wanted
            &&& !forced && no_color ==> !wanted
            &&& !forced && term == Some("dumb"@) ==> !wanted
            &&& !forced && !terminal && !herdr ==> !wanted
            &&& !forced && !no_color && term != Some("dumb"@) && (terminal || herdr) ==> wanted
        }),
{
}

} // verus!
