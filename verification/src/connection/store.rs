//! Profile storage.
//!
//! The daemon's networking logic depends only on the [`ProfileStore`] trait. An
//! in-memory store covers the default daemon; for stores that keep one file per
//! profile, this module has the rules on names, contents and order.

use vstd::prelude::*;

use crate::connection::profile;
use crate::connection::profile::{ConnectionProfile, ProfileId, ProfileValidationError, ProfileView};
use crate::io_error::IoError;
use crate::sort;
use crate::sort::{is_text_before, sort, Ranked};
use crate::text;
use crate::text::{concat2, concat3, quoted, same_text};

verus! {

/// Errors surfaced by profile stores.
#[derive(Debug, PartialEq, Eq)]
pub enum StoreError {
    NotFound(ProfileId),
    AlreadyExists(ProfileId),
    Invalid(ProfileValidationError),
    Malformed { id: ProfileId, reason: String },
    Io(IoError),
}

impl StoreError {
    /// What the error says of itself.
    pub open spec fn text(self) -> Seq<char> {
        match self {
            StoreError::NotFound(id) => "connection profile "@ + text::quoted_text(id@) + " not found"@,
            StoreError::AlreadyExists(id) => "connection profile "@ + text::quoted_text(id@)
                + " already exists"@,
            StoreError::Invalid(reason) => "invalid connection profile: "@ + reason.text(),
            StoreError::Malformed { id, reason } => "malformed persisted profile "@ + text::quoted_text(
                id@,
            ) + ": "@ + reason@,
            StoreError::Io(err) => "profile store I/O failed: "@ + err.text(),
        }
    }

    /// Describes the error.
    pub fn to_string(&self) -> (r: String)
        ensures
            r@ == self.text(),
    {
        match self {
            StoreError::NotFound(id) => concat3(
                "connection profile ",
                quoted(id.as_str()).as_str(),
                " not found",
            ),
            StoreError::AlreadyExists(id) => concat3(
                "connection profile ",
                quoted(id.as_str()).as_str(),
                " already exists",
            ),
            StoreError::Invalid(reason) => concat2(
                "invalid connection profile: ",
                reason.to_string().as_str(),
            ),
            StoreError::Malformed { id, reason } => {
                let head: String = concat3(
                    "malformed persisted profile ",
                    quoted(id.as_str()).as_str(),
                    ": ",
                );
                concat2(head.as_str(), reason.as_str())
            },
            StoreError::Io(err) => concat2(
                "profile store I/O failed: ",
                err.to_string().as_str(),
            ),
        }
    }
}

/// Whether an error says that there is no profile with an id.
pub open spec fn is_not_found(error: StoreError, id: Seq<char>) -> bool {
    error matches StoreError::NotFound(name) && name@ == id
}

/// Whether an error says that there already is a profile with an id.
pub open spec fn is_existing(error: StoreError, id: Seq<char>) -> bool {
    error matches StoreError::AlreadyExists(name) && name@ == id
}

/// Storage boundary for connection profiles.
///
/// What a store may answer, and what becomes of it, is up to the store.
pub trait ProfileStore: Sized {
    /// Whether the store may answer a request for all profiles with `reply`.
    open spec fn may_list(&self, reply: Result<Vec<ConnectionProfile>, StoreError>) -> bool {
        true
    }

    /// Whether the store may answer a request for a profile with `reply`.
    open spec fn may_get(&self, id: Seq<char>, reply: Result<ConnectionProfile, StoreError>) -> bool {
        true
    }

    /// Whether creating a profile may be answered with `reply` and turn the
    /// store into `after`.
    open spec fn may_create(
        &self,
        profile: ProfileView,
        reply: Result<(), StoreError>,
        after: Self,
    ) -> bool {
        true
    }

    /// Whether replacing a profile may be answered with `reply` and turn the
    /// store into `after`.
    open spec fn may_update(
        &self,
        profile: ProfileView,
        reply: Result<(), StoreError>,
        after: Self,
    ) -> bool {
        true
    }

    /// Whether removing a profile may be answered with `reply` and turn the
    /// store into `after`.
    open spec fn may_delete(&self, id: Seq<char>, reply: Result<(), StoreError>, after: Self) -> bool {
        true
    }

    /// Lists all profiles, deterministically ordered by id.
    fn list(&self) -> (r: Result<Vec<ConnectionProfile>, StoreError>)
        ensures
            self.may_list(r),
    ;

    /// Retrieves a single profile by id.
    fn get(&self, id: &ProfileId) -> (r: Result<ConnectionProfile, StoreError>)
        ensures
            self.may_get(id@, r),
    ;

    /// Creates a new profile; rejects duplicates and invalid profiles.
    fn create(&mut self, profile: ConnectionProfile) -> (r: Result<(), StoreError>)
        ensures
            old(self).may_create(profile@, r, *final(self)),
    ;

    /// Replaces an existing profile; rejects unknown ids and invalid profiles.
    fn update(&mut self, profile: ConnectionProfile) -> (r: Result<(), StoreError>)
        ensures
            old(self).may_update(profile@, r, *final(self)),
    ;

    /// Removes a profile by id.
    fn delete(&mut self, id: &ProfileId) -> (r: Result<(), StoreError>)
        ensures
            old(self).may_delete(id@, r, *final(self)),
    ;
}

// --- In memory ---------------------------------------------------------------------------

/// Whether ids are in strictly ascending order.
pub open spec fn ascending(list: Seq<ProfileView>) -> bool {
    forall|i: int, j: int|
        0 <= i < j < list.len() ==> sort::text_before((#[trigger] list[i]).id, (#[trigger] list[j]).id)
}

/// Whether a list holds the profiles of a map, ordered by id.
pub open spec fn is_listing(profiles: Map<Seq<char>, ProfileView>, list: Seq<ProfileView>) -> bool {
    &&& ascending(list)
    &&& forall|i: int|
        0 <= i < list.len() ==> profiles.contains_key((#[trigger] list[i]).id)
            && profiles[list[i].id] == list[i]
    &&& forall|id: Seq<char>| #[trigger]
        profiles.contains_key(id) ==> exists|i: int|
            0 <= i < list.len() && (#[trigger] list[i]).id == id
}

/// Whether an id stands in a list.
spec fn listed(list: Seq<ProfileView>, id: Seq<char>) -> bool {
    exists|i: int| 0 <= i < list.len() && (#[trigger] list[i]).id == id
}

/// The profile with an id in a list.
spec fn at_id(list: Seq<ProfileView>, id: Seq<char>) -> ProfileView {
    list[choose|i: int| 0 <= i < list.len() && (#[trigger] list[i]).id == id]
}

/// The profiles of a list by their ids.
spec fn by_id(list: Seq<ProfileView>) -> Map<Seq<char>, ProfileView> {
    Map::new(|id: Seq<char>| listed(list, id), |id: Seq<char>| at_id(list, id))
}

proof fn lemma_at_id(list: Seq<ProfileView>, k: int)
    requires
        ascending(list),
        0 <= k < list.len(),
    ensures
        listed(list, list[k].id),
        at_id(list, list[k].id) == list[k],
{
    let id = list[k].id;
    let i = choose|i: int| 0 <= i < list.len() && (#[trigger] list[i]).id == id;
    assert(list[k].id == id);
    if i < k {
        sort::lemma_text_asymmetric(list[i].id, list[k].id);
    }
    if k < i {
        sort::lemma_text_asymmetric(list[k].id, list[i].id);
    }
}

proof fn lemma_listing(list: Seq<ProfileView>)
    requires
        ascending(list),
    ensures
        is_listing(by_id(list), list),
{
    assert forall|i: int| 0 <= i < list.len() implies by_id(list).contains_key(
        (#[trigger] list[i]).id,
    ) && by_id(list)[list[i].id] == list[i] by {
        lemma_at_id(list, i);
    }
}

/// There is only one list that holds the profiles of a map, ordered by id.
pub proof fn lemma_listing_unique(
    profiles: Map<Seq<char>, ProfileView>,
    a: Seq<ProfileView>,
    b: Seq<ProfileView>,
)
    requires
        is_listing(profiles, a),
        is_listing(profiles, b),
    ensures
        a == b,
    decreases a.len(),
{
    if a.len() == 0 {
        if b.len() > 0 {
            assert(profiles.contains_key(b[0].id));
        }
        assert(a =~= b);
    } else {
        assert(profiles.contains_key(a[0].id));
        let k = choose|k: int| 0 <= k < b.len() && (#[trigger] b[k]).id == a[0].id;
        assert(profiles.contains_key(b[0].id));
        let m = choose|m: int| 0 <= m < a.len() && (#[trigger] a[m]).id == b[0].id;
        if k > 0 {
            assert(sort::text_before(b[0].id, b[k].id));
            sort::lemma_text_asymmetric(b[0].id, b[k].id);
            if m > 0 {
                assert(sort::text_before(a[0].id, a[m].id));
            }
        }
        let id = a[0].id;
        let x = a.skip(1);
        let y = b.skip(1);
        let rest = profiles.remove(id);
        lemma_listing_tail(profiles, a);
        lemma_listing_tail(profiles, b);
        lemma_listing_unique(rest, x, y);
        assert(a =~= seq![a[0]] + x);
        assert(b =~= seq![b[0]] + y);
    }
}

proof fn lemma_listing_tail(profiles: Map<Seq<char>, ProfileView>, list: Seq<ProfileView>)
    requires
        is_listing(profiles, list),
        list.len() > 0,
    ensures
        is_listing(profiles.remove(list[0].id), list.skip(1)),
{
    let rest = profiles.remove(list[0].id);
    let tail = list.skip(1);
    assert forall|i: int, j: int| 0 <= i < j < tail.len() implies sort::text_before(
        (#[trigger] tail[i]).id,
        (#[trigger] tail[j]).id,
    ) by {
        assert(sort::text_before(list[i + 1].id, list[j + 1].id));
    }
    assert forall|i: int| 0 <= i < tail.len() implies rest.contains_key((#[trigger] tail[i]).id)
        && rest[tail[i].id] == tail[i] by {
        assert(tail[i] == list[i + 1]);
        assert(sort::text_before(list[0].id, list[i + 1].id));
        sort::lemma_text_asymmetric(list[0].id, list[i + 1].id);
    }
    assert forall|id: Seq<char>| #[trigger] rest.contains_key(id) implies exists|i: int|
        0 <= i < tail.len() && (#[trigger] tail[i]).id == id by {
        assert(profiles.contains_key(id));
        let k = choose|k: int| 0 <= k < list.len() && (#[trigger] list[k]).id == id;
        assert(tail[k - 1] == list[k]);
    }
}

/// A profile store kept entirely in memory. Used as the default daemon store
/// so the daemon itself never depends on filesystem details.
#[derive(Debug)]
pub struct InMemoryProfileStore {
    /// The profiles in ascending order of their ids.
    profiles: Vec<ConnectionProfile>,
}

/// Whether every profile of a list is valid.
pub open spec fn all_valid(list: Seq<ProfileView>) -> bool {
    forall|i: int| 0 <= i < list.len() ==> profile::valid(#[trigger] list[i])
}

impl InMemoryProfileStore {
    #[verifier::type_invariant]
    spec fn inv(self) -> bool {
        ascending(profile::profile_views(self.profiles@)) && all_valid(profile::profile_views(self.profiles@))
    }

    /// The profiles by their ids.
    pub closed spec fn view(&self) -> Map<Seq<char>, ProfileView> {
        by_id(profile::profile_views(self.profiles@))
    }

    /// An empty store.
    pub fn new() -> (r: Self)
        ensures
            r@ == Map::<Seq<char>, ProfileView>::empty(),
    {
        let r = InMemoryProfileStore { profiles: Vec::new() };
        assert(r@ =~= Map::empty());
        r
    }

    /// The position of an id, or the one it belongs at.
    fn find(&self, id: &str) -> (r: (bool, usize))
        ensures
            r.1 <= self.profiles@.len(),
            r.0 ==> r.1 < self.profiles@.len() && self.profiles@[r.1 as int].id@ == id@,
            !r.0 ==> !self@.contains_key(id@),
            forall|j: int|
                0 <= j < r.1 ==> sort::text_before((#[trigger] self.profiles@[j]).id@, id@),
            !r.0 ==> forall|j: int|
                r.1 <= j < self.profiles@.len() ==> sort::text_before(
                    id@,
                    (#[trigger] self.profiles@[j]).id@,
                ),
    {
        proof {
            use_type_invariant(self);
        }
        let ghost views = profile::profile_views(self.profiles@);
        let mut i: usize = 0;
        while i < self.profiles.len() && is_text_before(self.profiles[i].id.as_str(), id)
            invariant
                i <= self.profiles@.len(),
                forall|j: int|
                    0 <= j < i ==> sort::text_before((#[trigger] self.profiles@[j]).id@, id@),
            decreases self.profiles@.len() - i,
        {
            i = i + 1;
        }
        if i < self.profiles.len() && same_text(self.profiles[i].id.as_str(), id) {
            return (true, i);
        }
        proof {
            assert forall|j: int| i <= j < self.profiles@.len() implies sort::text_before(
                id@,
                (#[trigger] self.profiles@[j]).id@,
            ) by {
                let first = self.profiles@[i as int].id@;
                assert(!sort::text_before(first, id@));
                if !sort::text_before(id@, first) {
                    sort::lemma_text_total(id@, first);
                }
                if j > i {
                    assert(views[i as int].id == first);
                    assert(sort::text_before(views[i as int].id, views[j].id));
                    sort::lemma_text_transitive(id@, first, self.profiles@[j].id@);
                }
            }
            if self@.contains_key(id@) {
                let k = choose|k: int| 0 <= k < views.len() && (#[trigger] views[k]).id == id@;
                assert(self.profiles@[k].id@ == id@);
                if k < i {
                    sort::lemma_text_asymmetric(self.profiles@[k].id@, id@);
                } else {
                    sort::lemma_text_asymmetric(id@, self.profiles@[k].id@);
                }
            }
        }
        (false, i)
    }
}

impl Default for InMemoryProfileStore {
    fn default() -> (r: Self)
        ensures
            r@ == Map::<Seq<char>, ProfileView>::empty(),
    {
        InMemoryProfileStore::new()
    }
}

/// The profiles of a list by their ids are the map that the list is a listing
/// of.
proof fn lemma_by_id_is(list: Seq<ProfileView>, profiles: Map<Seq<char>, ProfileView>)
    requires
        is_listing(profiles, list),
    ensures
        by_id(list) == profiles,
{
    assert forall|id: Seq<char>| #[trigger] by_id(list).dom().contains(id) implies profiles.dom().contains(
    id) && by_id(list)[id] == profiles[id] by {
        let i = choose|i: int| 0 <= i < list.len() && (#[trigger] list[i]).id == id;
        lemma_at_id(list, i);
    }
    assert forall|id: Seq<char>| #[trigger] profiles.dom().contains(id) implies by_id(
        list,
    ).dom().contains(id) by {
        assert(profiles.contains_key(id));
    }
    assert(by_id(list) =~= profiles);
}

proof fn lemma_insert(list: Seq<ProfileView>, k: int, profile: ProfileView)
    requires
        ascending(list),
        0 <= k <= list.len(),
        forall|j: int| 0 <= j < k ==> sort::text_before((#[trigger] list[j]).id, profile.id),
        forall|j: int| k <= j < list.len() ==> sort::text_before(profile.id, (#[trigger] list[j]).id),
    ensures
        ascending(list.insert(k, profile)),
        by_id(list.insert(k, profile)) == by_id(list).insert(profile.id, profile),
{
    let now = list.insert(k, profile);
    let goal = by_id(list).insert(profile.id, profile);
    lemma_listing(list);
    assert forall|i: int, j: int| 0 <= i < j < now.len() implies sort::text_before(
        (#[trigger] now[i]).id,
        (#[trigger] now[j]).id,
    ) by {
        let a = if i < k {
            i
        } else {
            i - 1
        };
        let b = if j < k {
            j
        } else {
            j - 1
        };
        if i == k {
            assert(sort::text_before(profile.id, list[b].id));
        } else if j == k {
            assert(sort::text_before(list[a].id, profile.id));
        } else {
            assert(sort::text_before(list[a].id, list[b].id));
        }
    }
    assert forall|i: int| 0 <= i < now.len() implies goal.contains_key((#[trigger] now[i]).id)
        && goal[now[i].id] == now[i] by {
        if i < k {
            assert(now[i] == list[i]);
            sort::lemma_text_asymmetric(list[i].id, profile.id);
        } else if i > k {
            assert(now[i] == list[i - 1]);
            sort::lemma_text_asymmetric(profile.id, list[i - 1].id);
        }
    }
    assert forall|id: Seq<char>| #[trigger] goal.contains_key(id) implies exists|i: int|
        0 <= i < now.len() && (#[trigger] now[i]).id == id by {
        if id == profile.id {
            assert(now[k].id == id);
        } else {
            assert(by_id(list).contains_key(id));
            let i = choose|i: int| 0 <= i < list.len() && (#[trigger] list[i]).id == id;
            if i < k {
                assert(now[i].id == id);
            } else {
                assert(now[i + 1].id == id);
            }
        }
    }
    lemma_by_id_is(now, goal);
}

proof fn lemma_replace(list: Seq<ProfileView>, k: int, profile: ProfileView)
    requires
        ascending(list),
        0 <= k < list.len(),
        list[k].id == profile.id,
    ensures
        ascending(list.update(k, profile)),
        by_id(list.update(k, profile)) == by_id(list).insert(profile.id, profile),
{
    let now = list.update(k, profile);
    let goal = by_id(list).insert(profile.id, profile);
    lemma_listing(list);
    assert forall|i: int, j: int| 0 <= i < j < now.len() implies sort::text_before(
        (#[trigger] now[i]).id,
        (#[trigger] now[j]).id,
    ) by {
        assert(sort::text_before(list[i].id, list[j].id));
    }
    assert forall|i: int| 0 <= i < now.len() implies goal.contains_key((#[trigger] now[i]).id)
        && goal[now[i].id] == now[i] by {
        if i < k {
            assert(now[i] == list[i]);
            sort::lemma_text_asymmetric(list[i].id, list[k].id);
        } else if i > k {
            assert(now[i] == list[i]);
            sort::lemma_text_asymmetric(list[k].id, list[i].id);
        }
    }
    assert forall|id: Seq<char>| #[trigger] goal.contains_key(id) implies exists|i: int|
        0 <= i < now.len() && (#[trigger] now[i]).id == id by {
        if id == profile.id {
            assert(now[k].id == id);
        } else {
            assert(by_id(list).contains_key(id));
            let i = choose|i: int| 0 <= i < list.len() && (#[trigger] list[i]).id == id;
            assert(now[i].id == id);
        }
    }
    lemma_by_id_is(now, goal);
}

proof fn lemma_remove(list: Seq<ProfileView>, k: int)
    requires
        ascending(list),
        0 <= k < list.len(),
    ensures
        ascending(list.remove(k)),
        by_id(list.remove(k)) == by_id(list).remove(list[k].id),
{
    let now = list.remove(k);
    let gone = list[k].id;
    let goal = by_id(list).remove(gone);
    lemma_listing(list);
    assert forall|i: int, j: int| 0 <= i < j < now.len() implies sort::text_before(
        (#[trigger] now[i]).id,
        (#[trigger] now[j]).id,
    ) by {
        let a = if i < k {
            i
        } else {
            i + 1
        };
        let b = if j < k {
            j
        } else {
            j + 1
        };
        assert(sort::text_before(list[a].id, list[b].id));
    }
    assert forall|i: int| 0 <= i < now.len() implies goal.contains_key((#[trigger] now[i]).id)
        && goal[now[i].id] == now[i] by {
        if i < k {
            assert(now[i] == list[i]);
            sort::lemma_text_asymmetric(list[i].id, list[k].id);
        } else {
            assert(now[i] == list[i + 1]);
            sort::lemma_text_asymmetric(list[k].id, list[i + 1].id);
        }
    }
    assert forall|id: Seq<char>| #[trigger] goal.contains_key(id) implies exists|i: int|
        0 <= i < now.len() && (#[trigger] now[i]).id == id by {
        assert(by_id(list).contains_key(id));
        let i = choose|i: int| 0 <= i < list.len() && (#[trigger] list[i]).id == id;
        if i < k {
            assert(now[i].id == id);
        } else {
            assert(now[i - 1].id == id);
        }
    }
    lemma_by_id_is(now, goal);
}

impl ProfileStore for InMemoryProfileStore {
    open spec fn may_list(&self, reply: Result<Vec<ConnectionProfile>, StoreError>) -> bool {
        reply matches Ok(list) && is_listing(self@, profile::profile_views(list@)) && all_valid(
            profile::profile_views(list@),
        )
    }

    open spec fn may_get(&self, id: Seq<char>, reply: Result<ConnectionProfile, StoreError>) -> bool {
        match reply {
            Ok(profile) => self@.contains_key(id) && profile@ == self@[id] && profile@.id == id
                && profile::valid(profile@),
            Err(e) => !self@.contains_key(id) && is_not_found(e, id),
        }
    }

    open spec fn may_create(
        &self,
        profile: ProfileView,
        reply: Result<(), StoreError>,
        after: Self,
    ) -> bool {
        match reply {
            Ok(()) => profile::valid(profile) && !self@.contains_key(profile.id) && after@ == self@.insert(
                profile.id,
                profile,
            ),
            Err(e) => after@ == self@ && if !profile::valid(profile) {
                e matches StoreError::Invalid(reason) && profile::is_validation_error(profile, reason)
            } else {
                self@.contains_key(profile.id) && is_existing(e, profile.id)
            },
        }
    }

    open spec fn may_update(
        &self,
        profile: ProfileView,
        reply: Result<(), StoreError>,
        after: Self,
    ) -> bool {
        match reply {
            Ok(()) => profile::valid(profile) && self@.contains_key(profile.id) && after@ == self@.insert(
                profile.id,
                profile,
            ),
            Err(e) => after@ == self@ && if !profile::valid(profile) {
                e matches StoreError::Invalid(reason) && profile::is_validation_error(profile, reason)
            } else {
                !self@.contains_key(profile.id) && is_not_found(e, profile.id)
            },
        }
    }

    open spec fn may_delete(&self, id: Seq<char>, reply: Result<(), StoreError>, after: Self) -> bool {
        match reply {
            Ok(()) => self@.contains_key(id) && after@ == self@.remove(id),
            Err(e) => after@ == self@ && !self@.contains_key(id) && is_not_found(e, id),
        }
    }

    fn list(&self) -> (r: Result<Vec<ConnectionProfile>, StoreError>) {
        proof {
            use_type_invariant(self);
            lemma_listing(profile::profile_views(self.profiles@));
        }
        let mut out: Vec<ConnectionProfile> = Vec::new();
        let mut i: usize = 0;
        while i < self.profiles.len()
            invariant
                i <= self.profiles@.len(),
                out@.len() == i,
                forall|j: int| 0 <= j < i ==> (#[trigger] out@[j])@ == self.profiles@[j]@,
            decreases self.profiles@.len() - i,
        {
            out.push(self.profiles[i].clone());
            i = i + 1;
        }
        assert(profile::profile_views(out@) =~= profile::profile_views(self.profiles@));
        Ok(out)
    }

    fn get(&self, id: &ProfileId) -> (r: Result<ConnectionProfile, StoreError>) {
        proof {
            use_type_invariant(self);
        }
        let (found, i): (bool, usize) = self.find(id.as_str());
        if found {
            proof {
                let views = profile::profile_views(self.profiles@);
                assert(views[i as int] == self.profiles@[i as int]@);
                lemma_at_id(views, i as int);
            }
            Ok(self.profiles[i].clone())
        } else {
            Err(StoreError::NotFound(id.clone()))
        }
    }

    fn create(&mut self, profile: ConnectionProfile) -> (r: Result<(), StoreError>) {
        proof {
            use_type_invariant(&*self);
        }
        match profile.validate() {
            Err(reason) => {
                return Err(StoreError::Invalid(reason));
            },
            Ok(()) => {},
        }
        let (found, i): (bool, usize) = self.find(profile.id.as_str());
        let ghost views = profile::profile_views(self.profiles@);
        if found {
            proof {
                assert(views[i as int] == self.profiles@[i as int]@);
                lemma_at_id(views, i as int);
            }
            return Err(StoreError::AlreadyExists(profile.id));
        }
        let ghost entry = profile@;
        let ghost before = self.profiles@;
        proof {
            assert forall|j: int| 0 <= j < i implies sort::text_before(
                (#[trigger] views[j]).id,
                entry.id,
            ) by {
                assert(views[j] == self.profiles@[j]@);
            }
            assert forall|j: int| i <= j < views.len() implies sort::text_before(
                entry.id,
                (#[trigger] views[j]).id,
            ) by {
                assert(views[j] == self.profiles@[j]@);
            }
            lemma_insert(views, i as int, entry);
        }
        let mut profiles: Vec<ConnectionProfile> = Vec::new();
        std::mem::swap(&mut profiles, &mut self.profiles);
        profiles.insert(i, profile);
        proof {
            assert(profile::profile_views(profiles@) =~= views.insert(i as int, entry));
            let now = profile::profile_views(profiles@);
            assert forall|j: int| 0 <= j < now.len() implies profile::valid(#[trigger] now[j]) by {
                if j < i {
                    assert(now[j] == views[j]);
                } else if j > i {
                    assert(now[j] == views[j - 1]);
                }
            }
        }
        self.profiles = profiles;
        Ok(())
    }

    fn update(&mut self, profile: ConnectionProfile) -> (r: Result<(), StoreError>) {
        proof {
            use_type_invariant(&*self);
        }
        match profile.validate() {
            Err(reason) => {
                return Err(StoreError::Invalid(reason));
            },
            Ok(()) => {},
        }
        let (found, i): (bool, usize) = self.find(profile.id.as_str());
        let ghost views = profile::profile_views(self.profiles@);
        if !found {
            return Err(StoreError::NotFound(profile.id));
        }
        let ghost entry = profile@;
        proof {
            assert(views[i as int] == self.profiles@[i as int]@);
            lemma_at_id(views, i as int);
            lemma_replace(views, i as int, entry);
        }
        let mut profiles: Vec<ConnectionProfile> = Vec::new();
        std::mem::swap(&mut profiles, &mut self.profiles);
        profiles.set(i, profile);
        proof {
            assert(profile::profile_views(profiles@) =~= views.update(i as int, entry));
            let now = profile::profile_views(profiles@);
            assert forall|j: int| 0 <= j < now.len() implies profile::valid(#[trigger] now[j]) by {
                if j != i {
                    assert(now[j] == views[j]);
                }
            }
        }
        self.profiles = profiles;
        Ok(())
    }

    fn delete(&mut self, id: &ProfileId) -> (r: Result<(), StoreError>) {
        proof {
            use_type_invariant(&*self);
        }
        let (found, i): (bool, usize) = self.find(id.as_str());
        let ghost views = profile::profile_views(self.profiles@);
        if !found {
            return Err(StoreError::NotFound(id.clone()));
        }
        proof {
            assert(views[i as int] == self.profiles@[i as int]@);
            lemma_at_id(views, i as int);
            lemma_remove(views, i as int);
        }
        let mut profiles: Vec<ConnectionProfile> = Vec::new();
        std::mem::swap(&mut profiles, &mut self.profiles);
        let _gone: ConnectionProfile = profiles.remove(i);
        proof {
            assert(profile::profile_views(profiles@) =~= views.remove(i as int));
            let now = profile::profile_views(profiles@);
            assert forall|j: int| 0 <= j < now.len() implies profile::valid(#[trigger] now[j]) by {
                if j < i {
                    assert(now[j] == views[j]);
                } else {
                    assert(now[j] == views[j + 1]);
                }
            }
        }
        self.profiles = profiles;
        Ok(())
    }
}

/// A profile that was created is read back as it was, and the others are read as
/// before.
pub proof fn lemma_created_is_read(
    before: InMemoryProfileStore,
    after: InMemoryProfileStore,
    profile: ProfileView,
    id: Seq<char>,
    reply: Result<ConnectionProfile, StoreError>,
)
    requires
        before.may_create(profile, Ok(()), after),
        after.may_get(id, reply),
    ensures
        id == profile.id ==> (reply matches Ok(read) && read@ == profile),
        id != profile.id ==> before.may_get(id, reply),
{
}

/// A profile that was replaced is read back as it was given, and the others are
/// read as before.
pub proof fn lemma_updated_is_read(
    before: InMemoryProfileStore,
    after: InMemoryProfileStore,
    profile: ProfileView,
    id: Seq<char>,
    reply: Result<ConnectionProfile, StoreError>,
)
    requires
        before.may_update(profile, Ok(()), after),
        after.may_get(id, reply),
    ensures
        id == profile.id ==> (reply matches Ok(read) && read@ == profile),
        id != profile.id ==> before.may_get(id, reply),
{
}

/// A profile that was removed is not found, and the others are read as before.
pub proof fn lemma_deleted_is_gone(
    before: InMemoryProfileStore,
    after: InMemoryProfileStore,
    gone: Seq<char>,
    id: Seq<char>,
    reply: Result<ConnectionProfile, StoreError>,
)
    requires
        before.may_delete(gone, Ok(()), after),
        after.may_get(id, reply),
    ensures
        id == gone ==> (reply matches Err(e) && is_not_found(e, id)),
        id != gone ==> before.may_get(id, reply),
{
}

// --- One file per profile --------------------------------------------------------------------

/// The name of the file that holds a profile.
pub fn file_name(id: &ProfileId) -> (r: String)
    ensures
        r@ == id@ + ".toml"@,
{
    concat2(id.as_str(), ".toml")
}

/// The file name of a valid profile stays within its directory: it holds no
/// path separator and is no name of a directory above.
pub proof fn lemma_file_name_stays(profile: ProfileView)
    requires
        profile::valid(profile),
    ensures
        !(profile.id + ".toml"@).contains('/'),
        profile.id + ".toml"@ != "."@,
        profile.id + ".toml"@ != ".."@,
{
    reveal_strlit(".toml");
    reveal_strlit(".");
    reveal_strlit("..");
    let name = profile.id + ".toml"@;
    assert(profile::id_chars_ok(profile.id));
    if name.contains('/') {
        let i = choose|i: int| 0 <= i < name.len() && name[i] == '/';
        if i < profile.id.len() {
            assert(profile::is_id_char(profile.id[i]));
        } else {
            assert(name[i] == ".toml"@[i - profile.id.len()]);
        }
    }
    assert(name.len() >= 6);
}

/// The reason that is given for a file that holds another profile.
pub open spec fn misplaced(id: Seq<char>) -> Seq<char> {
    "file name does not match profile id "@ + text::quoted_text(id)
}

/// Decides about a profile that was read out of the file of `id`: it must have
/// that id and be valid.
pub fn accept_parsed(id: &ProfileId, profile: ConnectionProfile) -> (r: Result<
    ConnectionProfile,
    StoreError,
>)
    ensures
        match r {
            Ok(accepted) => profile@.id == id@ && profile::valid(profile@) && accepted == profile,
            Err(e) => {
                &&& e matches StoreError::Malformed { id: name, reason }
                &&& name@ == id@
                &&& if profile@.id != id@ {
                    reason@ == misplaced(profile@.id)
                } else {
                    exists|error: ProfileValidationError|
                        profile::is_validation_error(profile@, error) && reason@ == #[trigger] error.text()
                }
            },
        },
{
    if !same_text(profile.id.as_str(), id.as_str()) {
        return Err(
            StoreError::Malformed {
                id: id.clone(),
                reason: concat2(
                    "file name does not match profile id ",
                    quoted(profile.id.as_str()).as_str(),
                ),
            },
        );
    }
    match profile.validate() {
        Err(error) => {
            let ghost said = error.text();
            Err(StoreError::Malformed { id: id.clone(), reason: error.to_string() })
        },
        Ok(()) => Ok(profile),
    }
}

/// Decides about writing the file of a new profile, given whether there is one.
pub fn admit_create(profile: &ConnectionProfile, exists: bool) -> (r: Result<(), StoreError>)
    ensures
        match r {
            Ok(()) => !exists && profile::valid(profile@),
            Err(e) => if exists {
                is_existing(e, profile@.id)
            } else {
                e matches StoreError::Invalid(reason) && profile::is_validation_error(profile@, reason)
            },
        },
{
    if exists {
        return Err(StoreError::AlreadyExists(profile.id.clone()));
    }
    match profile.validate() {
        Err(reason) => Err(StoreError::Invalid(reason)),
        Ok(()) => Ok(()),
    }
}

/// Decides about replacing the file of a profile, given whether there is one.
pub fn admit_update(profile: &ConnectionProfile, exists: bool) -> (r: Result<(), StoreError>)
    ensures
        match r {
            Ok(()) => exists && profile::valid(profile@),
            Err(e) => if !exists {
                is_not_found(e, profile@.id)
            } else {
                e matches StoreError::Invalid(reason) && profile::is_validation_error(profile@, reason)
            },
        },
{
    if !exists {
        return Err(StoreError::NotFound(profile.id.clone()));
    }
    match profile.validate() {
        Err(reason) => Err(StoreError::Invalid(reason)),
        Ok(()) => Ok(()),
    }
}

/// Decides about reading or removing the file of an id, given whether there is
/// one.
pub fn admit_existing(id: &ProfileId, exists: bool) -> (r: Result<(), StoreError>)
    ensures
        match r {
            Ok(()) => exists,
            Err(e) => !exists && is_not_found(e, id@),
        },
{
    if exists {
        Ok(())
    } else {
        Err(StoreError::NotFound(id.clone()))
    }
}

impl Ranked for ConnectionProfile {
    open spec fn precedes(self, other: Self) -> bool {
        sort::text_before(self.id@, other.id@)
    }

    fn goes_before(&self, other: &Self) -> (r: bool) {
        is_text_before(self.id.as_str(), other.id.as_str())
    }

    proof fn asymmetric(a: Self, b: Self) {
        sort::lemma_text_asymmetric(a.id@, b.id@);
    }

    proof fn transitive(a: Self, b: Self, c: Self) {
        if sort::text_before(c.id@, a.id@) {
            if sort::text_before(b.id@, c.id@) {
                sort::lemma_text_transitive(b.id@, c.id@, a.id@);
            } else {
                sort::lemma_text_total(b.id@, c.id@);
            }
        }
    }
}

/// Orders profiles by id.
pub fn order_profiles(profiles: Vec<ConnectionProfile>) -> (r: Vec<ConnectionProfile>)
    ensures
        r@ == sort::stable_sort(profiles@),
{
    sort(profiles)
}

} // verus!
