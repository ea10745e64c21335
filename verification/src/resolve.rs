//! The branch resolver: of the two small state files under the marker
//! directory, the bookmark file wins when it was readable, and the
//! journal's last line stands in for it otherwise; when neither is
//! available the label degrades to the empty string.

use crate::text::{last_line, last_line_spec, trim, trim_spec};
use vstd::prelude::*;

verus! {

/// The character sequence a possibly-read file stands for.
pub open spec fn opt_view(contents: Option<String>) -> Option<Seq<char>> {
    match contents {
        Option::Some(s) => Option::Some(s@),
        Option::None => Option::None,
    }
}

/// The label the two state files yield: the trimmed bookmark when that
/// file was readable, else the trimmed last line of the trimmed
/// journal, else the empty string.
pub open spec fn resolve_spec(bookmark: Option<Seq<char>>, journal: Option<Seq<char>>) -> Seq<
    char,
> {
    match bookmark {
        Option::Some(b) => trim_spec(b),
        Option::None => match journal {
            Option::Some(j) => trim_spec(last_line_spec(trim_spec(j))),
            Option::None => Seq::empty(),
        },
    }
}

/// Produces the raw branch label from the two data sources, preferring
/// the bookmark: its trimmed contents whenever it could be read,
/// regardless of the journal; otherwise the trimmed last line of the
/// journal; otherwise the empty string. No input makes this fail.
pub fn resolve(bookmark: &Option<String>, journal: &Option<String>) -> (r: String)
    ensures
        r@ == resolve_spec(opt_view(*bookmark), opt_view(*journal)),
        bookmark matches Option::Some(b) ==> r@ == trim_spec(b@),
        bookmark is None ==> (journal matches Option::Some(j) ==> r@ == trim_spec(
            last_line_spec(trim_spec(j@)),
        )),
        bookmark is None && journal is None ==> r@ == Seq::<char>::empty(),
{
    match bookmark {
        Option::Some(b) => trim(b.as_str()),
        Option::None => match journal {
            Option::Some(j) => {
                let t = trim(j.as_str());
                let l = last_line(t.as_str());
                trim(l.as_str())
            },
            Option::None => String::new(),
        },
    }
}

} // verus!
