//! What the library reads from the machine it runs on: the time, and
//! whether a file is on disk.

use vstd::prelude::*;
use crate::install::Disk;

verus! {

/// The system clock (`std::time::SystemTime::now`) as a
/// `chrono::DateTime<Utc>`, written as RFC 3339 text. The conversion from
/// `SystemTime` also takes a clock set before 1970. The value is the clock's:
/// nothing is promised of it.
#[verifier::external_body]
pub(crate) fn current_time() -> (r: String) {
    chrono::DateTime::<chrono::Utc>::from(std::time::SystemTime::now()).to_rfc3339()
}

/// `std::path::Path::exists` on a path. The answer is what is on disk at
/// the moment of the call: nothing is promised of it.
#[verifier::external_body]
pub(crate) fn path_exists(path: &String) -> (r: bool) {
    std::path::Path::new(path.as_str()).exists()
}

/// The entries of `s` whose answer in `keep`, at the same index, is yes, in
/// order.
pub open spec fn kept_by(s: Seq<Seq<char>>, keep: Seq<bool>) -> Seq<Seq<char>>
    decreases s.len(),
{
    if s.len() == 0 || keep.len() == 0 {
        seq![]
    } else {
        kept_by(s.drop_last(), keep.drop_last()) + if keep.last() {
            seq![s.last()]
        } else {
            seq![]
        }
    }
}

/// The given paths that are on disk now, in order: each path is kept or
/// dropped by what the disk answers for it.
pub fn disk_of_paths(paths: &Vec<String>) -> (r: Disk)
    ensures
        exists|keep: Seq<bool>|
            keep.len() == paths.len() && r.paths() == #[trigger] kept_by(paths.deep_view(), keep),
{
    let ghost all = paths.deep_view();
    let ghost mut keep: Seq<bool> = seq![];
    let mut existing: Vec<String> = Vec::new();
    let mut k: usize = 0;
    while k < paths.len()
        invariant
            k <= paths.len(),
            all == paths.deep_view(),
            keep.len() == k,
            existing.deep_view() == kept_by(all.subrange(0, k as int), keep),
        decreases paths.len() - k,
    {
        let ghost before = existing.deep_view();
        let found = path_exists(&paths[k]);
        if found {
            let p = paths[k].clone();
            assert(p@ == all[k as int]);
            existing.push(p);
            assert(existing.deep_view() =~= before.push(all[k as int]));
        }
        proof {
            let next = keep.push(found);
            let sub = all.subrange(0, k + 1);
            assert(sub.drop_last() =~= all.subrange(0, k as int));
            assert(next.drop_last() =~= keep);
            assert(sub.last() == all[k as int]);
            assert(existing.deep_view() =~= kept_by(sub, next));
            keep = next;
        }
        k = k + 1;
    }
    assert(all.subrange(0, all.len() as int) =~= all);
    let r = Disk { existing };
    assert(r.paths() == kept_by(paths.deep_view(), keep));
    r
}

} // verus!
