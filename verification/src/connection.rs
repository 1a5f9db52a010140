use vstd::prelude::*;
use std::path::PathBuf;

verus! {

#[verifier::external_type_specification]
#[verifier::external_body]
pub struct ExPathBuf(PathBuf);

/// What can go wrong with the register's database connection and settings,
/// where the library decides it.
#[derive(Debug, Clone, Copy, PartialEq, Eq, Structural)]
pub enum Error {
    AlreadyConnected,
    NotConnected,
    PathAlreadySet,
}

/// The folder kept after asking to set `path`: one already set stays.
pub open spec fn path_after(slot: Option<PathBuf>, path: PathBuf) -> Option<PathBuf> {
    if slot.is_some() {
        slot
    } else {
        Some(path)
    }
}

/// What asking to set the folder answers: `PathAlreadySet` where one is set.
pub open spec fn path_answer(slot: Option<PathBuf>) -> Result<(), Error> {
    if slot.is_some() {
        Err(Error::PathAlreadySet)
    } else {
        Ok(())
    }
}

/// The folder kept after asking to set each of `paths`, in order.
pub open spec fn path_after_all(slot: Option<PathBuf>, paths: Seq<PathBuf>) -> Option<PathBuf>
    decreases paths.len(),
{
    if paths.len() == 0 {
        slot
    } else {
        path_after(path_after_all(slot, paths.drop_last()), paths.last())
    }
}

/// Sets the folder receipts are printed to, once: where one is set already
/// it stays, and the call fails with `PathAlreadySet`.
pub fn set_receipt_path(slot: &mut Option<PathBuf>, path: PathBuf) -> (r: Result<(), Error>)
    ensures
        r == path_answer(*old(slot)),
        *final(slot) == path_after(*old(slot), path),
        old(slot).is_some() ==> r == Err::<(), Error>(Error::PathAlreadySet) && *final(slot) == *old(slot),
        old(slot).is_none() ==> r == Ok::<(), Error>(()) && *final(slot) == Some(path),
{
    if slot.is_some() {
        Err(Error::PathAlreadySet)
    } else {
        *slot = Some(path);
        Ok(())
    }
}

/// The folder is set once: starting from none, a run of calls keeps the
/// first path after every call; the first call succeeds and every later one
/// answers `PathAlreadySet`.
pub proof fn lemma_receipt_path_set_once(paths: Seq<PathBuf>)
    requires
        paths.len() >= 1,
    ensures
        path_answer(path_after_all(None, paths.take(0))) == Ok::<(), Error>(()),
        forall|k: int| 1 <= k <= paths.len() ==> #[trigger] path_after_all(None, paths.take(k)) == Some(paths[0]),
        forall|k: int| 1 <= k < paths.len() ==> path_answer(#[trigger] path_after_all(None, paths.take(k)))
            == Err::<(), Error>(Error::PathAlreadySet),
{
    assert forall|k: int| 1 <= k <= paths.len() implies #[trigger] path_after_all(None, paths.take(k)) == Some(paths[0]) by {
        lemma_path_after_prefix(paths, k);
    }
}

proof fn lemma_path_after_prefix(paths: Seq<PathBuf>, k: int)
    requires
        1 <= k <= paths.len(),
    ensures
        path_after_all(None, paths.take(k)) == Some(paths[0]),
    decreases k,
{
    assert(paths.take(k).drop_last() =~= paths.take(k - 1));
    if k == 1 {
        assert(paths.take(0).len() == 0);
    } else {
        lemma_path_after_prefix(paths, k - 1);
    }
}

} // verus!
