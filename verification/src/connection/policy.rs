//! Autoconnect policy: the deterministic ordering used to pick which profile
//! should be tried first.

use vstd::prelude::*;

use crate::connection::profile::{ConnectionProfile, ProfileId};
use crate::sort;
use crate::sort::{is_text_before, sort, Ranked};

verus! {

/// What the order of a profile depends on.
pub struct Candidate {
    pub priority: i32,
    pub id: ProfileId,
}

impl Ranked for Candidate {
    open spec fn precedes(self, other: Self) -> bool {
        self.priority > other.priority || (self.priority == other.priority && sort::text_before(
            self.id@,
            other.id@,
        ))
    }

    fn goes_before(&self, other: &Self) -> (r: bool) {
        self.priority > other.priority || (self.priority == other.priority && is_text_before(
            self.id.as_str(),
            other.id.as_str(),
        ))
    }

    proof fn asymmetric(a: Self, b: Self) {
        if a.priority == b.priority {
            sort::lemma_text_asymmetric(a.id@, b.id@);
        }
    }

    proof fn transitive(a: Self, b: Self, c: Self) {
        if c.precedes(a) && a.priority == b.priority && b.priority == c.priority {
            if sort::text_before(b.id@, c.id@) {
                sort::lemma_text_transitive(b.id@, c.id@, a.id@);
            } else {
                sort::lemma_text_total(b.id@, c.id@);
            }
        }
    }
}

/// The profiles that may be connected without being asked for: those that are
/// enabled and have autoconnect turned on.
pub open spec fn candidates(profiles: Seq<ConnectionProfile>) -> Seq<Candidate>
    decreases profiles.len(),
{
    if profiles.len() == 0 {
        Seq::empty()
    } else {
        let rest = candidates(profiles.drop_last());
        let profile = profiles.last();
        if profile.enabled && profile.autoconnect {
            rest.push(Candidate { priority: profile.priority, id: profile.id })
        } else {
            rest
        }
    }
}

/// The ids of a list of candidates.
pub open spec fn ids(list: Seq<Candidate>) -> Seq<ProfileId> {
    list.map_values(|candidate: Candidate| candidate.id)
}

/// The ids of the profiles eligible for autoconnect, in the order in which they
/// are tried.
pub open spec fn autoconnect_order(profiles: Seq<ConnectionProfile>) -> Seq<ProfileId> {
    ids(sort::stable_sort(candidates(profiles)))
}

/// Returns the IDs of profiles eligible for autoconnect, ordered
/// most-likely-first.
///
/// Ordering is deterministic: higher priority first, ties broken by ascending
/// profile id. Disabled profiles and profiles with autoconnect turned off are
/// excluded.
pub fn order_for_autoconnect(profiles: &[ConnectionProfile]) -> (r: Vec<ProfileId>)
    ensures
        r@ == autoconnect_order(profiles@),
{
    let mut list: Vec<Candidate> = Vec::new();
    let mut i: usize = 0;
    assert(profiles@.take(0) =~= Seq::empty());
    while i < profiles.len()
        invariant
            i <= profiles@.len(),
            list@ == candidates(profiles@.take(i as int)),
        decreases profiles@.len() - i,
    {
        let profile: &ConnectionProfile = &profiles[i];
        if profile.enabled && profile.autoconnect {
            list.push(Candidate { priority: profile.priority, id: profile.id.clone() });
        }
        i = i + 1;
        assert(profiles@.take(i as int).drop_last() =~= profiles@.take(i - 1));
        assert(profiles@.take(i as int).last() == profiles@[i - 1]);
    }
    assert(profiles@.take(i as int) =~= profiles@);
    let ordered: Vec<Candidate> = sort(list);
    let mut out: Vec<ProfileId> = Vec::new();
    let mut k: usize = 0;
    while k < ordered.len()
        invariant
            k <= ordered@.len(),
            out@.len() == k,
            forall|j: int| 0 <= j < k ==> #[trigger] out@[j] == ordered@[j].id,
        decreases ordered@.len() - k,
    {
        out.push(ordered[k].id.clone());
        k = k + 1;
    }
    assert(out@ =~= ids(ordered@));
    out
}

/// Whether a candidate stands for an eligible profile of a list.
pub open spec fn stands_for(profiles: Seq<ConnectionProfile>, candidate: Candidate) -> bool {
    exists|i: int|
        0 <= i < profiles.len() && (#[trigger] profiles[i]).enabled && profiles[i].autoconnect
            && profiles[i].id == candidate.id && profiles[i].priority == candidate.priority
}

/// A candidate of a list of profiles stands for an eligible one of them.
proof fn lemma_candidate(profiles: Seq<ConnectionProfile>, k: int)
    requires
        0 <= k < candidates(profiles).len(),
    ensures
        stands_for(profiles, candidates(profiles)[k]),
    decreases profiles.len(),
{
    let rest = profiles.drop_last();
    if k < candidates(rest).len() {
        lemma_candidate(rest, k);
        let i = choose|i: int|
            0 <= i < rest.len() && (#[trigger] rest[i]).enabled && rest[i].autoconnect && rest[i].id
                == candidates(rest)[k].id && rest[i].priority == candidates(rest)[k].priority;
        assert(profiles[i] == rest[i]);
    } else {
        assert(profiles[profiles.len() - 1] == profiles.last());
    }
}

/// An eligible profile is a candidate.
proof fn lemma_is_candidate(profiles: Seq<ConnectionProfile>, i: int)
    requires
        0 <= i < profiles.len(),
        profiles[i].enabled,
        profiles[i].autoconnect,
    ensures
        candidates(profiles).contains(
            Candidate { priority: profiles[i].priority, id: profiles[i].id },
        ),
    decreases profiles.len(),
{
    let rest = profiles.drop_last();
    let wanted = Candidate { priority: profiles[i].priority, id: profiles[i].id };
    if i < rest.len() {
        lemma_is_candidate(rest, i);
        let k = choose|k: int| 0 <= k < candidates(rest).len() && candidates(rest)[k] == wanted;
        assert(candidates(profiles)[k] == wanted);
    } else {
        assert(candidates(profiles)[candidates(rest).len() as int] == wanted);
    }
}

/// The order of profiles for autoconnect holds the eligible ones and no others,
/// and no profile stands behind one of lower priority, or of equal priority and
/// greater id.
pub proof fn lemma_autoconnect_order(profiles: Seq<ConnectionProfile>)
    ensures
        ({
            let list = sort::stable_sort(candidates(profiles));
            &&& autoconnect_order(profiles) == ids(list)
            &&& sort::sorted(list)
            &&& forall|i: int|
                0 <= i < profiles.len() && (#[trigger] profiles[i]).enabled
                    && profiles[i].autoconnect ==> autoconnect_order(profiles).contains(
                    profiles[i].id,
                )
            &&& forall|k: int| 0 <= k < list.len() ==> stands_for(profiles, #[trigger] list[k])
        }),
{
    broadcast use vstd::seq_lib::group_to_multiset_ensures;

    let all = candidates(profiles);
    let list = sort::stable_sort(all);
    sort::lemma_stable_sort(all);
    assert forall|i: int|
        0 <= i < profiles.len() && (#[trigger] profiles[i]).enabled
            && profiles[i].autoconnect implies autoconnect_order(profiles).contains(
        profiles[i].id,
    ) by {
        lemma_is_candidate(profiles, i);
        let wanted = Candidate { priority: profiles[i].priority, id: profiles[i].id };
        assert(all.to_multiset().count(wanted) > 0);
        assert(list.contains(wanted));
        let k = choose|k: int| 0 <= k < list.len() && list[k] == wanted;
        assert(ids(list)[k] == profiles[i].id);
    }
    assert forall|k: int| 0 <= k < list.len() implies stands_for(profiles, #[trigger] list[k]) by {
        assert(list.contains(list[k]));
        assert(list.to_multiset().count(list[k]) > 0);
        assert(all.contains(list[k]));
        let m = choose|m: int| 0 <= m < all.len() && all[m] == list[k];
        lemma_candidate(profiles, m);
    }
}

/// Whether no two candidates have the same id.
pub open spec fn distinct_ids(list: Seq<Candidate>) -> bool {
    forall|i: int, j: int|
        0 <= i < j < list.len() ==> (#[trigger] list[i]).id@ != (#[trigger] list[j]).id@
}

/// With distinct ids, the order does not depend on how the profiles are listed.
pub proof fn lemma_order_is_deterministic(
    a: Seq<ConnectionProfile>,
    b: Seq<ConnectionProfile>,
)
    requires
        candidates(a).to_multiset() == candidates(b).to_multiset(),
        distinct_ids(sort::stable_sort(candidates(a))),
        distinct_ids(sort::stable_sort(candidates(b))),
    ensures
        autoconnect_order(a) == autoconnect_order(b),
{
    let x = sort::stable_sort(candidates(a));
    let y = sort::stable_sort(candidates(b));
    sort::lemma_stable_sort(candidates(a));
    sort::lemma_stable_sort(candidates(b));
    lemma_strict(x);
    lemma_strict(y);
    sort::lemma_strict_order_unique(x, y);
}

proof fn lemma_strict(list: Seq<Candidate>)
    requires
        sort::sorted(list),
        distinct_ids(list),
    ensures
        sort::strictly_sorted(list),
{
    assert forall|i: int, j: int| 0 <= i < j < list.len() implies (#[trigger] list[i]).precedes(
        #[trigger] list[j],
    ) by {
        assert(!list[j].precedes(list[i]));
        if list[i].priority == list[j].priority && !sort::text_before(list[i].id@, list[j].id@) {
            sort::lemma_text_total(list[i].id@, list[j].id@);
        }
    }
}

} // verus!
