//! The repository locator: from a starting directory the search ascends
//! toward the filesystem root, scanning each level's children for a
//! directory named `.hg`. A level whose listing, or any child's
//! metadata, could not be read aborts the whole search — the ascent
//! never climbs past an unreadable directory.

use vstd::prelude::*;

verus! {

/// One child of a directory as the scan sees it: its name and kind,
/// or the record that reading its metadata failed.
pub enum ChildRecord {
    Unreadable,
    Child { name: String, is_dir: bool },
}

/// What one directory level tells the ascent: the marker was found
/// here, the whole search must stop, or the search moves to the parent.
#[derive(PartialEq, Eq, Structural, Clone, Copy, Debug)]
pub enum ScanDecision {
    Found,
    Abort,
    Ascend,
}

/// The name of the marker directory that identifies a repository root.
pub open spec fn marker_name() -> Seq<char> {
    ".hg"@
}

/// Whether a child is the marker: a directory bearing the marker name.
pub open spec fn is_marker_child(c: ChildRecord) -> bool {
    c matches ChildRecord::Child { name, is_dir } && is_dir && name@ == marker_name()
}

/// The decision one listing yields: the first unreadable child aborts,
/// the first marker child found before any unreadable one wins, and a
/// clean marker-free listing sends the search upward.
pub open spec fn scan_decision_spec(children: Seq<ChildRecord>) -> ScanDecision
    decreases children.len(),
{
    if children.len() == 0 {
        ScanDecision::Ascend
    } else if children[0] is Unreadable {
        ScanDecision::Abort
    } else if is_marker_child(children[0]) {
        ScanDecision::Found
    } else {
        scan_decision_spec(children.drop_first())
    }
}

/// The decision of one level: an unlistable directory aborts, a listed
/// one decides by its children.
pub open spec fn level_decision(listing: Option<Vec<ChildRecord>>) -> ScanDecision {
    match listing {
        Option::None => ScanDecision::Abort,
        Option::Some(children) => scan_decision_spec(children@),
    }
}

/// Whether a listed level holds a marker child anywhere.
pub open spec fn level_shows_marker(listing: Option<Vec<ChildRecord>>) -> bool {
    listing matches Option::Some(children) && exists|i: int|
        0 <= i < children@.len() && is_marker_child(children@[i])
}

/// Whether a level was listed in full: readable, with every child's
/// metadata readable.
pub open spec fn level_scans_clean(listing: Option<Vec<ChildRecord>>) -> bool {
    listing matches Option::Some(children) && forall|i: int|
        0 <= i < children@.len() ==> !(children@[i] is Unreadable)
}

fn is_marker_string(name: &String) -> (r: bool)
    ensures
        r == (name@ == marker_name()),
{
    let m: String = ".hg".to_owned();
    *name == m
}

/// Scans one level's listing and decides how the ascent goes on.
pub fn scan_level(listing: &Option<Vec<ChildRecord>>) -> (d: ScanDecision)
    ensures
        d == level_decision(*listing),
{
    match listing {
        Option::None => ScanDecision::Abort,
        Option::Some(children) => {
            let n: usize = children.len();
            let mut i: usize = 0;
            proof {
                assert(level_decision(*listing) == scan_decision_spec(children@));
                assert(children@.skip(0) =~= children@);
            }
            while i < n
                invariant
                    i <= n,
                    n == children@.len(),
                    level_decision(*listing) == scan_decision_spec(children@),
                    scan_decision_spec(children@) == scan_decision_spec(
                        children@.skip(i as int),
                    ),
                decreases n - i,
            {
                proof {
                    assert(children@.skip(i as int)[0] == children@[i as int]);
                }
                match &children[i] {
                    ChildRecord::Unreadable => {
                        proof {
                            assert(children@[i as int] is Unreadable);
                        }
                        return ScanDecision::Abort;
                    },
                    ChildRecord::Child { name, is_dir } => {
                        if *is_dir && is_marker_string(name) {
                            proof {
                                assert(is_marker_child(children@[i as int]));
                            }
                            return ScanDecision::Found;
                        }
                        proof {
                            assert(!is_marker_child(children@[i as int]));
                        }
                    },
                }
                proof {
                    assert(children@.skip(i as int).drop_first() =~= children@.skip(i + 1));
                }
                i = i + 1;
            }
            proof {
                assert(children@.skip(n as int) =~= Seq::<ChildRecord>::empty());
            }
            ScanDecision::Ascend
        },
    }
}

/// The number of levels the ascent passes before it stops: the index of
/// the first level whose decision is not to ascend, or the number of
/// levels when every one of them ascends.
pub open spec fn stop_index(levels: Seq<Option<Vec<ChildRecord>>>) -> int
    decreases levels.len(),
{
    if levels.len() == 0 {
        0
    } else if level_decision(levels[0]) is Ascend {
        1 + stop_index(levels.drop_first())
    } else {
        0
    }
}

/// The depth at which the search finds the marker, if it finds one.
pub open spec fn found_depth(levels: Seq<Option<Vec<ChildRecord>>>) -> Option<int> {
    let k = stop_index(levels);
    if k < levels.len() && level_decision(levels[k]) is Found {
        Option::Some(k)
    } else {
        Option::None
    }
}

/// How many directory scans the search performs on these levels.
pub open spec fn scans_performed(levels: Seq<Option<Vec<ChildRecord>>>) -> int {
    let k = stop_index(levels);
    if k < levels.len() {
        k + 1
    } else {
        levels.len() as int
    }
}

proof fn lemma_stop_index_bounds(levels: Seq<Option<Vec<ChildRecord>>>)
    ensures
        0 <= stop_index(levels) <= levels.len(),
    decreases levels.len(),
{
    if levels.len() > 0 && level_decision(levels[0]) is Ascend {
        lemma_stop_index_bounds(levels.drop_first());
    }
}

proof fn lemma_stop_index_prefix(levels: Seq<Option<Vec<ChildRecord>>>, i: int)
    requires
        0 <= i <= levels.len(),
        forall|j: int| 0 <= j < i ==> level_decision(levels[j]) is Ascend,
    ensures
        stop_index(levels) >= i,
        i < levels.len() && !(level_decision(levels[i]) is Ascend) ==> stop_index(levels) == i,
    decreases i,
{
    lemma_stop_index_bounds(levels);
    if i > 0 {
        let rest = levels.drop_first();
        assert(forall|j: int| 0 <= j < i - 1 ==> rest[j] == levels[j + 1]);
        lemma_stop_index_prefix(rest, i - 1);
        if i < levels.len() && !(level_decision(levels[i]) is Ascend) {
            assert(rest[i - 1] == levels[i]);
        }
    }
}

/// The result of a whole search: the depth of the level where the
/// marker was found, if any, and how many levels were scanned.
pub struct SearchOutcome {
    pub found: Option<usize>,
    pub scanned: usize,
}

/// Runs the whole ascent over the levels above the starting directory,
/// nearest first: the search stops at the first level that either shows
/// the marker or cannot be read in full, and otherwise exhausts every
/// level without a find.
pub fn find_hg_directory(levels: &Vec<Option<Vec<ChildRecord>>>) -> (r: SearchOutcome)
    ensures
        r.scanned as int == scans_performed(levels@),
        r.found is Some <==> found_depth(levels@) is Some,
        r.found matches Option::Some(k) ==> found_depth(levels@) == Option::Some(k as int),
{
    let n: usize = levels.len();
    let mut i: usize = 0;
    while i < n
        invariant
            i <= n,
            n == levels@.len(),
            forall|j: int| 0 <= j < i ==> level_decision(levels@[j]) is Ascend,
        decreases n - i,
    {
        let d = scan_level(&levels[i]);
        proof {
            lemma_stop_index_prefix(levels@, i as int);
        }
        match d {
            ScanDecision::Found => {
                return SearchOutcome { found: Option::Some(i), scanned: i + 1 };
            },
            ScanDecision::Abort => {
                return SearchOutcome { found: Option::None, scanned: i + 1 };
            },
            ScanDecision::Ascend => {
                i = i + 1;
            },
        }
    }
    proof {
        lemma_stop_index_prefix(levels@, n as int);
        lemma_stop_index_bounds(levels@);
    }
    SearchOutcome { found: Option::None, scanned: n }
}

proof fn lemma_no_marker_child_no_find(children: Seq<ChildRecord>)
    requires
        forall|i: int| 0 <= i < children.len() ==> !is_marker_child(children[i]),
    ensures
        !(scan_decision_spec(children) is Found),
    decreases children.len(),
{
    if children.len() > 0 && !(children[0] is Unreadable) && !is_marker_child(children[0]) {
        assert(forall|i: int|
            0 <= i < children.drop_first().len() ==> children.drop_first()[i] == children[i + 1]);
        lemma_no_marker_child_no_find(children.drop_first());
    }
}

proof fn lemma_clean_marker_level_found(children: Seq<ChildRecord>)
    requires
        exists|i: int| 0 <= i < children.len() && is_marker_child(children[i]),
        forall|i: int| 0 <= i < children.len() ==> !(children[i] is Unreadable),
    ensures
        scan_decision_spec(children) is Found,
    decreases children.len(),
{
    let w = choose|i: int| 0 <= i < children.len() && is_marker_child(children[i]);
    if !is_marker_child(children[0]) {
        let rest = children.drop_first();
        assert(forall|i: int| 0 <= i < rest.len() ==> rest[i] == children[i + 1]);
        assert(0 <= w - 1 < rest.len() && is_marker_child(rest[w - 1]));
        lemma_clean_marker_level_found(rest);
    }
}

/// When no level of the ascent holds the marker directory, the search
/// reports no find, whatever made it stop.
pub proof fn lemma_locate_not_found(levels: Seq<Option<Vec<ChildRecord>>>)
    requires
        forall|k: int| 0 <= k < levels.len() ==> !level_shows_marker(levels[k]),
    ensures
        found_depth(levels) is None,
{
    lemma_stop_index_bounds(levels);
    let k = stop_index(levels);
    if k < levels.len() {
        match levels[k] {
            Option::None => {},
            Option::Some(children) => {
                assert(!level_shows_marker(levels[k]));
                assert(forall|i: int|
                    0 <= i < children@.len() ==> !is_marker_child(children@[i]));
                lemma_no_marker_child_no_find(children@);
            },
        }
    }
}

/// When the nearest level holding the marker stands at depth `k`, that
/// level's listing is fully readable, and every closer level is fully
/// readable and marker-free, the search reports depth `k` and performs
/// exactly `k + 1` directory scans.
pub proof fn lemma_locate_found(levels: Seq<Option<Vec<ChildRecord>>>, k: int)
    requires
        0 <= k < levels.len(),
        level_scans_clean(levels[k]),
        level_shows_marker(levels[k]),
        forall|j: int|
            0 <= j < k ==> level_scans_clean(levels[j]) && !level_shows_marker(levels[j]),
    ensures
        found_depth(levels) == Option::Some(k),
        scans_performed(levels) == k + 1,
{
    assert forall|j: int| 0 <= j < k implies level_decision(levels[j]) is Ascend by {
        let children = levels[j]->0;
        lemma_no_marker_child_no_find(children@);
        lemma_clean_level_no_abort(children@);
    }
    let found_children = levels[k]->0;
    lemma_clean_marker_level_found(found_children@);
    lemma_stop_index_prefix(levels, k);
}

proof fn lemma_clean_level_no_abort(children: Seq<ChildRecord>)
    requires
        forall|i: int| 0 <= i < children.len() ==> !(children[i] is Unreadable),
    ensures
        !(scan_decision_spec(children) is Abort),
    decreases children.len(),
{
    if children.len() > 0 && !is_marker_child(children[0]) {
        assert(forall|i: int|
            0 <= i < children.drop_first().len() ==> children.drop_first()[i] == children[i + 1]);
        lemma_clean_level_no_abort(children.drop_first());
    }
}

} // verus!
