//! Resolves and renders the current bookmark or branch label of a
//! Mercurial-style repository for a bounded status-line display: an
//! ascent toward the filesystem root looking for the `.hg` marker
//! directory, a two-source resolution of the label, and a
//! grapheme-aware truncation with a conditional marker.

use vstd::prelude::*;

pub mod graphemes;
pub mod locate;
pub mod resolve;
pub mod text;

use crate::graphemes::{normalized_limit, truncate_label, truncate_spec, TruncationPolicy};
use crate::locate::{find_hg_directory, found_depth, ChildRecord};
use crate::resolve::{opt_view, resolve, resolve_spec};

verus! {

/// The options the host's configuration hands this pipeline: the short
/// lead symbol shown before the label, the maximum displayed length in
/// user-perceived characters (non-positive meaning "no limit"), and the
/// string whose first user-perceived character marks a shortened label.
pub struct ModuleConfig {
    pub symbol: String,
    pub truncation_length: i64,
    pub truncation_symbol: String,
}

/// One rendered status-line unit: a fixed lead text, the configured
/// symbol, and the resolved, truncated label. `warned` reports that the
/// configured truncation length was invalid (non-positive) and deserves
/// a diagnostic from the host; it never changes the rendered label
/// beyond the "treat as unbounded" fallback.
pub struct RenderedModule {
    pub prefix: String,
    pub symbol: String,
    pub name: String,
    pub warned: bool,
}

/// The displayed label: the resolved branch name, truncated under the
/// configured policy.
pub open spec fn rendered_name(
    bookmark: Option<Seq<char>>,
    journal: Option<Seq<char>>,
    config: ModuleConfig,
) -> Seq<char> {
    truncate_spec(
        resolve_spec(bookmark, journal),
        normalized_limit(config.truncation_length),
        config.truncation_symbol@,
    )
}

/// Runs the whole pipeline once: the ascent over `levels` (the scanned
/// listings of the starting directory and its ancestors, nearest
/// first), then — only when the marker directory was found — the label
/// resolution from the two state files and the truncation under the
/// configured policy. When the search finds nothing the module renders
/// nothing at all.
pub fn module(
    levels: &Vec<Option<Vec<ChildRecord>>>,
    bookmark: &Option<String>,
    journal: &Option<String>,
    config: &ModuleConfig,
) -> (r: Option<RenderedModule>)
    ensures
        r is Some <==> found_depth(levels@) is Some,
        r matches Option::Some(m) ==> {
            &&& m.prefix@ == "on "@
            &&& m.symbol@ == config.symbol@
            &&& m.name@ == rendered_name(opt_view(*bookmark), opt_view(*journal), *config)
            &&& m.warned == (config.truncation_length <= 0)
        },
{
    let outcome = find_hg_directory(levels);
    match outcome.found {
        Option::None => Option::None,
        Option::Some(_depth) => {
            let branch_name = resolve(bookmark, journal);
            let policy = TruncationPolicy {
                max_length: config.truncation_length,
                symbol: config.truncation_symbol.clone(),
            };
            let (name, warned): (String, bool) = truncate_label(branch_name.as_str(), &policy);
            Option::Some(
                RenderedModule {
                    prefix: "on ".to_owned(),
                    symbol: config.symbol.clone(),
                    name,
                    warned,
                },
            )
        },
    }
}

} // verus!
