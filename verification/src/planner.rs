//! The sync planner: the pure decisions of one run.
//!
//! Given the inventory of basenames already present in the target
//! location, the stream index, the retained builds and the persisted
//! marker, these functions compute which builds to inspect, which
//! artifacts to upload and whether the marker must be rewritten.

use vstd::prelude::*;
use vstd::utf8::encode_utf8;
use crate::model::{Builds, RetainedBuild, RetainedModel, SyncState, ids_of, marker_model};
use crate::paths::{basename, basename_spec};

verus! {

/// Why a run step is refused.
#[derive(Debug, PartialEq, Eq)]
pub enum RunError {
    /// A storage listing entry carried no key.
    MissingKey,
    /// The event does not belong to the machine's current phase.
    UnexpectedEvent,
}

/// Whether the inventory holds the basename `p`.
pub open spec fn inv_contains(inv: Seq<Seq<u8>>, p: Seq<u8>) -> bool {
    exists|i: int| 0 <= i < inv.len() && inv[i] == p
}

/// Whether every listed storage entry carries a key.
pub open spec fn all_keys_present(keys: Seq<Option<Seq<u8>>>) -> bool {
    forall|i: int| 0 <= i < keys.len() ==> keys[i] is Some
}

/// The inventory built from a complete listing: the basename of each key.
pub open spec fn inventory_spec(keys: Seq<Option<Seq<u8>>>) -> Seq<Seq<u8>> {
    keys.map_values(|k: Option<Seq<u8>>| basename_spec(k->Some_0))
}

/// The UTF-8 bytes of a retained build's artifact filename; inventory
/// membership is decided on these bytes.
pub open spec fn path_key(m: RetainedModel) -> Seq<u8> {
    encode_utf8(m.rojig.path)
}

/// The transfer plan: the retained builds, in order, whose artifact
/// filename is absent from the inventory.
pub open spec fn plan_spec(retained: Seq<RetainedModel>, inv: Seq<Seq<u8>>) -> Seq<RetainedModel>
    decreases retained.len(),
{
    if retained.len() == 0 {
        Seq::<RetainedModel>::empty()
    } else {
        let rest = plan_spec(retained.drop_last(), inv);
        if !inv_contains(inv, path_key(retained.last())) {
            rest.push(retained.last())
        } else {
            rest
        }
    }
}

/// The build ids to inspect: the first `history` entries of the index
/// (all of them when the index is shorter).
pub open spec fn window_spec(ids: Seq<Seq<char>>, history: u16) -> Seq<Seq<char>> {
    if ids.len() <= history { ids } else { ids.take(history as int) }
}

/// Whether the marker must be rewritten: it is absent, or it names a
/// build other than the last retained one.
pub open spec fn needs_update_spec(marker: Option<Seq<char>>, latest: Seq<char>) -> bool {
    match marker {
        Option::None => true,
        Option::Some(m) => m != latest,
    }
}

/// Byte-for-byte equality of two byte strings.
pub fn bytes_eq(a: &[u8], b: &[u8]) -> (r: bool)
    ensures
        r == (a@ == b@),
{
    if a.len() != b.len() {
        return false;
    }
    let mut i: usize = 0;
    while i < a.len()
        invariant
            0 <= i <= a@.len(),
            a@.len() == b@.len(),
            forall|j: int| 0 <= j < i ==> a@[j] == b@[j],
        decreases a@.len() - i,
    {
        if a[i] != b[i] {
            return false;
        }
        i = i + 1;
    }
    proof {
        assert(a@ =~= b@);
    }
    true
}

/// Whether the inventory holds the basename `p`.
pub fn contains_bytes(inv: &Vec<Vec<u8>>, p: &[u8]) -> (r: bool)
    ensures
        r == inv_contains(inv.deep_view(), p@),
{
    let mut i: usize = 0;
    while i < inv.len()
        invariant
            0 <= i <= inv@.len(),
            forall|j: int| 0 <= j < i ==> inv@[j]@ != p@,
        decreases inv@.len() - i,
    {
        if bytes_eq(inv[i].as_slice(), p) {
            proof {
                assert(inv.deep_view()[i as int] =~= inv@[i as int]@);
            }
            return true;
        }
        i = i + 1;
    }
    proof {
        assert forall|j: int| 0 <= j < inv.deep_view().len() implies inv.deep_view()[j] != p@ by {
            assert(inv.deep_view()[j] =~= inv@[j]@);
        }
    }
    false
}

/// Reduces a complete storage listing to the inventory of basenames;
/// refuses a listing in which some entry carries no key.
pub fn build_inventory(keys: &Vec<Option<Vec<u8>>>) -> (r: Result<Vec<Vec<u8>>, RunError>)
    ensures
        match r {
            Ok(inv) => all_keys_present(keys.deep_view()) && inv.deep_view() == inventory_spec(
                keys.deep_view(),
            ),
            Err(e) => e == RunError::MissingKey && !all_keys_present(keys.deep_view()),
        },
{
    let mut inv: Vec<Vec<u8>> = Vec::new();
    let mut i: usize = 0;
    while i < keys.len()
        invariant
            0 <= i <= keys@.len(),
            inv@.len() == i,
            forall|j: int| 0 <= j < i ==> keys@[j] is Some,
            forall|j: int| 0 <= j < i ==> inv@[j]@ == basename_spec(
                #[trigger] keys.deep_view()[j]->Some_0,
            ),
        decreases keys@.len() - i,
    {
        match &keys[i] {
            Option::Some(k) => {
                let b = basename(k.as_slice());
                inv.push(b);
                proof {
                    assert(keys.deep_view()[i as int]->Some_0 =~= k@);
                }
            },
            Option::None => {
                assert(keys.deep_view()[i as int] is None);
                return Err(RunError::MissingKey);
            },
        }
        i = i + 1;
    }
    proof {
        assert forall|j: int| 0 <= j < inv@.len() implies inv.deep_view()[j]
            == inventory_spec(keys.deep_view())[j] by {
            assert(inv.deep_view()[j] =~= inv@[j]@);
        }
        assert(inv.deep_view() =~= inventory_spec(keys.deep_view()));
    }
    Ok(inv)
}

/// The build ids to inspect: the first `history` entries of the index.
pub fn window_ids(index: &Builds, history: u16) -> (r: Vec<String>)
    ensures
        r.deep_view() == window_spec(ids_of(*index), history),
        history == 0 ==> r@.len() == 0,
{
    let mut r: Vec<String> = Vec::new();
    let n: usize = if (history as usize) < index.builds.len() {
        history as usize
    } else {
        index.builds.len()
    };
    let mut i: usize = 0;
    while i < n
        invariant
            0 <= i <= n,
            n <= index.builds@.len(),
            n == window_spec(ids_of(*index), history).len(),
            r@.len() == i,
            forall|j: int| 0 <= j < i ==> r@[j]@ == index.builds@[j].id@,
        decreases n - i,
    {
        r.push(index.builds[i].id.clone());
        i = i + 1;
    }
    proof {
        assert(r.deep_view() =~= window_spec(ids_of(*index), history));
    }
    r
}

/// A fieldwise copy of a retained build.
pub fn clone_retained(b: &RetainedBuild) -> (r: RetainedBuild)
    ensures
        r@ == b@,
{
    RetainedBuild {
        buildid: b.buildid.clone(),
        rojig: crate::model::UncompressedImage {
            path: b.rojig.path.clone(),
            size: b.rojig.size,
            sha256: b.rojig.sha256.clone(),
        },
    }
}

/// Computes the transfer plan: the retained builds, in order, whose
/// artifact filename is absent from the inventory.
pub fn plan_of(retained: &Vec<RetainedBuild>, inv: &Vec<Vec<u8>>) -> (r: Vec<RetainedBuild>)
    ensures
        r.deep_view() == plan_spec(retained.deep_view(), inv.deep_view()),
{
    let mut r: Vec<RetainedBuild> = Vec::new();
    let mut i: usize = 0;
    while i < retained.len()
        invariant
            0 <= i <= retained@.len(),
            r.deep_view() == plan_spec(retained.deep_view().take(i as int), inv.deep_view()),
        decreases retained@.len() - i,
    {
        let ghost pre = retained.deep_view().take(i as int);
        let ghost cur = retained.deep_view().take(i + 1);
        proof {
            assert(cur.drop_last() =~= pre);
            assert(cur.last() == retained.deep_view()[i as int]);
        }
        let b = &retained[i];
        if !contains_bytes(inv, b.rojig.path.as_str().as_bytes()) {
            let c = clone_retained(b);
            r.push(c);
            proof {
                assert(r.deep_view() =~= plan_spec(cur, inv.deep_view()));
            }
        } else {
            proof {
                assert(r.deep_view() =~= plan_spec(cur, inv.deep_view()));
            }
        }
        i = i + 1;
    }
    proof {
        assert(retained.deep_view().take(retained.deep_view().len() as int)
            =~= retained.deep_view());
    }
    r
}

/// The id of the most recent retained build: the last element of the
/// retained sequence.
pub fn latest_of(retained: &Vec<RetainedBuild>) -> (r: String)
    requires
        retained@.len() > 0,
    ensures
        r@ == retained.deep_view().last().buildid,
{
    retained[retained.len() - 1].buildid.clone()
}

/// Decides whether the marker must be rewritten.
pub fn needs_update(marker: &Option<SyncState>, latest: &String) -> (r: bool)
    ensures
        r == needs_update_spec(marker_model(*marker), latest@),
{
    match marker {
        Option::None => true,
        Option::Some(s) => !(s.build == *latest),
    }
}

} // verus!
