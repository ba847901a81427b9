//! The user-or-group carrier at the language boundary.
//!
//! The foreign runtime has no tagged union, so a grant target — a user or
//! a group, each known by an id — crosses the boundary as an id plus a
//! kind flag, and a list of grant targets is rendered as two parallel
//! lists, one per kind. Splitting preserves the order within each kind and
//! loses no entry.

use vstd::prelude::*;

verus! {

/// One grant target: a user's or a group's id, with the kind it names.
#[derive(Debug)]
pub struct UserOrGroupId {
    id: String,
    is_user: bool,
}

impl UserOrGroupId {
    pub closed spec fn spec_id(self) -> Seq<char> {
        self.id@
    }

    pub closed spec fn spec_is_user(self) -> bool {
        self.is_user
    }

    pub fn new(id: String, is_user: bool) -> (r: UserOrGroupId)
        ensures
            r.spec_id() == id@,
            r.spec_is_user() == is_user,
    {
        UserOrGroupId { id, is_user }
    }

    pub fn id(&self) -> (r: String)
        ensures
            r@ == self.spec_id(),
    {
        self.id.clone()
    }

    pub fn is_user(&self) -> (r: bool)
        ensures
            r == self.spec_is_user(),
    {
        self.is_user
    }

    /// A target that is no user is a group: the two kinds partition the
    /// carriers.
    pub fn is_group(&self) -> (r: bool)
        ensures
            r == !self.spec_is_user(),
    {
        !self.is_user
    }
}

/// The ids of the entries of the asked-for kind, in entry order.
pub open spec fn ids_of_kind(entries: Seq<UserOrGroupId>, want_user: bool) -> Seq<Seq<char>>
    decreases entries.len(),
{
    if entries.len() == 0 {
        Seq::empty()
    } else {
        let rest = ids_of_kind(entries.drop_last(), want_user);
        if entries.last().spec_is_user() == want_user {
            rest.push(entries.last().spec_id())
        } else {
            rest
        }
    }
}

proof fn lemma_ids_of_kind_take_step(entries: Seq<UserOrGroupId>, want_user: bool, i: int)
    requires
        0 <= i < entries.len(),
    ensures
        ids_of_kind(entries.take(i + 1), want_user) == if entries[i].spec_is_user()
            == want_user {
            ids_of_kind(entries.take(i), want_user).push(entries[i].spec_id())
        } else {
            ids_of_kind(entries.take(i), want_user)
        },
{
    assert(entries.take(i + 1).drop_last() =~= entries.take(i));
    assert(entries.take(i + 1).last() == entries[i]);
}

/// Split a list of grant targets into the user ids and the group ids,
/// each in its original order; every entry lands in exactly one list.
#[verifier::loop_isolation(false)]
pub fn partition_targets(entries: &Vec<UserOrGroupId>) -> (r: (Vec<String>, Vec<String>))
    ensures
        r.0.deep_view() == ids_of_kind(entries@, true),
        r.1.deep_view() == ids_of_kind(entries@, false),
{
    let mut users: Vec<String> = Vec::new();
    let mut groups: Vec<String> = Vec::new();
    let mut i: usize = 0;
    proof {
        assert(entries@.take(0) =~= Seq::<UserOrGroupId>::empty());
        assert(users.deep_view() =~~= ids_of_kind(entries@.take(0), true));
        assert(groups.deep_view() =~~= ids_of_kind(entries@.take(0), false));
    }
    while i < entries.len()
        invariant
            i <= entries@.len(),
            users.deep_view() == ids_of_kind(entries@.take(i as int), true),
            groups.deep_view() == ids_of_kind(entries@.take(i as int), false),
        decreases entries@.len() - i,
    {
        proof {
            lemma_ids_of_kind_take_step(entries@, true, i as int);
            lemma_ids_of_kind_take_step(entries@, false, i as int);
        }
        let ghost users_before = users.deep_view();
        let ghost groups_before = groups.deep_view();
        if entries[i].is_user() {
            users.push(entries[i].id());
            assert(users.deep_view() =~~= users_before.push(entries@[i as int].spec_id()));
        } else {
            groups.push(entries[i].id());
            assert(groups.deep_view() =~~= groups_before.push(entries@[i as int].spec_id()));
        }
        i = i + 1;
    }
    proof {
        assert(entries@.take(entries@.len() as int) =~= entries@);
    }
    (users, groups)
}

/// Every target lands in one of the two lists: the split loses nothing.
pub proof fn lemma_partition_is_complete(entries: Seq<UserOrGroupId>)
    ensures
        ids_of_kind(entries, true).len() + ids_of_kind(entries, false).len() == entries.len(),
    decreases entries.len(),
{
    if entries.len() > 0 {
        lemma_partition_is_complete(entries.drop_last());
    }
}

} // verus!
