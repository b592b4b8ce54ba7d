//! The ring itself: the registry in its fixed order, and navigation around
//! the members that are currently valid.

use crate::error::{Error, Fault};
use crate::member::{Member, MemberView};
use vstd::prelude::*;

verus! {

/// The registry of members. The order of `members` is the order of the ring;
/// nothing ever sorts it.
#[derive(Debug, Clone, PartialEq, Eq)]
pub struct FireChicken {
    pub members: Vec<Member>,
}

/// What a list of members holds.
pub open spec fn member_views(members: Seq<Member>) -> Seq<MemberView> {
    members.map_values(|m: Member| m@)
}

impl View for FireChicken {
    type V = Seq<MemberView>;

    open spec fn view(&self) -> Seq<MemberView> {
        member_views(self.members@)
    }
}

/// No two members share a slug.
pub open spec fn unique_slugs(members: Seq<MemberView>) -> bool {
    forall|i: int, j: int| 0 <= i < j < members.len() ==> members[i].slug != members[j].slug
}

/// An earlier member carries the slug of member `i`.
pub open spec fn slug_taken(members: Seq<MemberView>, i: int) -> bool {
    exists|h: int| 0 <= h < i && (#[trigger] members[h]).slug == members[i].slug
}

/// `i` is the first member whose slug an earlier member carries.
pub open spec fn first_duplicate_at(members: Seq<MemberView>, i: int) -> bool {
    &&& 0 <= i < members.len()
    &&& slug_taken(members, i)
    &&& forall|h: int| 0 <= h < i ==> !#[trigger] slug_taken(members, h)
}

/// The members as a registry, if their slugs are distinct; else the first
/// member that repeats a slug is at fault.
pub open spec fn as_registry(members: Seq<MemberView>) -> Result<Seq<MemberView>, Error> {
    if unique_slugs(members) {
        Ok(members)
    } else {
        Err(
            Error::MalformedInput {
                entry: (choose|i: int| first_duplicate_at(members, i)) as usize,
                fault: Fault::DuplicateSlug,
            },
        )
    }
}

/// What the result of building a registry holds.
pub open spec fn registry_outcome(r: Result<FireChicken, Error>) -> Result<Seq<MemberView>, Error> {
    match r {
        Ok(fire_chicken) => Ok(fire_chicken@),
        Err(e) => Err(e),
    }
}

/// Whether a member takes part in navigation.
pub open spec fn is_valid(m: MemberView) -> bool {
    !m.invalid
}

/// The valid sub-ring: the members not marked invalid, in registry order.
pub open spec fn valid_ring(members: Seq<MemberView>) -> Seq<MemberView> {
    members.filter(|m: MemberView| is_valid(m))
}

/// Some member of `ring` carries `slug`.
pub open spec fn named(ring: Seq<MemberView>, slug: Seq<char>) -> bool {
    exists|i: int| 0 <= i < ring.len() && #[trigger] ring[i].slug == slug
}

/// `i` is the first place in `ring` at which `slug` stands.
pub open spec fn first_at(ring: Seq<MemberView>, slug: Seq<char>, i: int) -> bool {
    &&& 0 <= i < ring.len()
    &&& ring[i].slug == slug
    &&& forall|j: int| 0 <= j < i ==> #[trigger] ring[j].slug != slug
}

/// The first place in `ring` at which `slug` stands, where there is one.
pub open spec fn position(ring: Seq<MemberView>, slug: Seq<char>) -> int {
    choose|i: int| first_at(ring, slug, i)
}

/// The member before `slug` in `ring`, the last one standing before the
/// first. A slug that does not stand in the ring has no neighbours.
pub open spec fn predecessor(ring: Seq<MemberView>, slug: Seq<char>) -> Result<MemberView, Error> {
    if named(ring, slug) {
        let at = position(ring, slug);
        Ok(
            if at == 0 {
                ring[ring.len() - 1]
            } else {
                ring[at - 1]
            },
        )
    } else {
        Err(Error::MemberNotFound)
    }
}

/// The member after `slug` in `ring`, the first one standing after the last.
pub open spec fn successor(ring: Seq<MemberView>, slug: Seq<char>) -> Result<MemberView, Error> {
    if named(ring, slug) {
        let at = position(ring, slug);
        Ok(
            if at == ring.len() - 1 {
                ring[0]
            } else {
                ring[at + 1]
            },
        )
    } else {
        Err(Error::MemberNotFound)
    }
}

/// Navigation backwards: the predecessor within the valid sub-ring.
pub open spec fn previous(members: Seq<MemberView>, slug: Seq<char>) -> Result<MemberView, Error> {
    predecessor(valid_ring(members), slug)
}

/// Navigation forwards: the successor within the valid sub-ring.
pub open spec fn next(members: Seq<MemberView>, slug: Seq<char>) -> Result<MemberView, Error> {
    successor(valid_ring(members), slug)
}

/// The first member that carries `slug`, valid or not.
pub open spec fn lookup(members: Seq<MemberView>, slug: Seq<char>) -> Option<MemberView> {
    if named(members, slug) {
        Some(members[position(members, slug)])
    } else {
        None
    }
}

/// `slug` is that of a member that takes part in navigation.
pub open spec fn names_valid_member(members: Seq<MemberView>, slug: Seq<char>) -> bool {
    exists|i: int|
        0 <= i < members.len() && is_valid(#[trigger] members[i]) && members[i].slug == slug
}

/// What a list of borrowed members holds.
pub open spec fn views(ring: Seq<&Member>) -> Seq<MemberView> {
    ring.map_values(|m: &Member| m@)
}

/// What a navigation result holds.
pub open spec fn outcome(r: Result<&Member, Error>) -> Result<MemberView, Error> {
    match r {
        Ok(m) => Ok(m@),
        Err(e) => Err(e),
    }
}

/// Appending a member to the registry appends it to the valid sub-ring
/// exactly when it is valid.
pub proof fn lemma_valid_ring_push(members: Seq<MemberView>, m: MemberView)
    ensures
        valid_ring(members.push(m)) == if is_valid(m) {
            valid_ring(members).push(m)
        } else {
            valid_ring(members)
        },
{
    reveal(Seq::filter);
    assert(members.push(m).drop_last() =~= members);
}

/// The valid sub-ring of two registries joined is their valid sub-rings
/// joined.
pub proof fn lemma_valid_ring_add(front: Seq<MemberView>, back: Seq<MemberView>)
    ensures
        valid_ring(front + back) == valid_ring(front) + valid_ring(back),
    decreases back.len(),
{
    if back.len() == 0 {
        reveal(Seq::filter);
    } else {
        let init = back.drop_last();
        let last = back.last();
        lemma_valid_ring_add(front, init);
        lemma_valid_ring_push(front + init, last);
        lemma_valid_ring_push(init, last);
    }
}

/// A slug that stands somewhere in the ring stands somewhere first, and
/// `position` is that place.
pub proof fn lemma_position(ring: Seq<MemberView>, slug: Seq<char>)
    requires
        named(ring, slug),
    ensures
        first_at(ring, slug, position(ring, slug)),
{
    let k = choose|i: int| 0 <= i < ring.len() && #[trigger] ring[i].slug == slug;
    lemma_first_before(ring, slug, k);
}

/// Below any place at which `slug` stands there is the first such place.
proof fn lemma_first_before(ring: Seq<MemberView>, slug: Seq<char>, k: int)
    requires
        0 <= k < ring.len(),
        ring[k].slug == slug,
    ensures
        exists|i: int| first_at(ring, slug, i),
    decreases k,
{
    if exists|j: int| 0 <= j < k && #[trigger] ring[j].slug == slug {
        let j = choose|j: int| 0 <= j < k && #[trigger] ring[j].slug == slug;
        lemma_first_before(ring, slug, j);
    } else {
        assert(first_at(ring, slug, k));
    }
}

/// The first place at which a slug stands is the only one that `position`
/// can be.
pub proof fn lemma_position_is(ring: Seq<MemberView>, slug: Seq<char>, i: int)
    requires
        first_at(ring, slug, i),
    ensures
        position(ring, slug) == i,
        named(ring, slug),
{
}

/// The valid sub-ring holds exactly the valid members of the registry.
pub proof fn lemma_valid_ring_members(members: Seq<MemberView>)
    ensures
        forall|k: int|
            0 <= k < valid_ring(members).len() ==> is_valid(#[trigger] valid_ring(members)[k])
                && members.contains(valid_ring(members)[k]),
        forall|i: int|
            0 <= i < members.len() && is_valid(#[trigger] members[i]) ==> valid_ring(
                members,
            ).contains(members[i]),
        valid_ring(members).len() <= members.len(),
    decreases members.len(),
{
    if members.len() == 0 {
        reveal(Seq::filter);
    } else {
        let init = members.drop_last();
        let m = members.last();
        lemma_valid_ring_members(init);
        assert(members =~= init.push(m));
        lemma_valid_ring_push(init, m);
    }
}

/// The valid sub-ring keeps the order of the registry: of two of its
/// members, the one that comes first in the ring comes first in the registry.
pub proof fn lemma_valid_ring_keeps_order(members: Seq<MemberView>, a: int, b: int)
    requires
        0 <= a < b < valid_ring(members).len(),
    ensures
        exists|i: int, j: int|
            0 <= i < j < members.len() && #[trigger] members[i] == valid_ring(members)[a]
                && #[trigger] members[j] == valid_ring(members)[b],
    decreases members.len(),
{
    if members.len() == 0 {
        reveal(Seq::filter);
    } else {
        let init = members.drop_last();
        let last = members.last();
        assert(members =~= init.push(last));
        lemma_valid_ring_push(init, last);
        if b < valid_ring(init).len() {
            lemma_valid_ring_keeps_order(init, a, b);
            let (i, j) = choose|i: int, j: int|
                0 <= i < j < init.len() && #[trigger] init[i] == valid_ring(init)[a]
                    && #[trigger] init[j] == valid_ring(init)[b];
            assert(members[i] == init[i] && members[j] == init[j]);
        } else {
            lemma_valid_ring_members(init);
            assert(init.contains(valid_ring(init)[a]));
            let i = choose|i: int| 0 <= i < init.len() && init[i] == valid_ring(init)[a];
            assert(members[i] == init[i]);
            assert(members[members.len() - 1] == valid_ring(members)[b]);
        }
    }
}

/// A slug names a valid member exactly when it stands in the valid sub-ring.
pub proof fn lemma_named_valid(members: Seq<MemberView>, slug: Seq<char>)
    ensures
        named(valid_ring(members), slug) <==> names_valid_member(members, slug),
{
    lemma_valid_ring_members(members);
}

/// Leaving members out keeps the slugs of the others distinct.
pub proof fn lemma_valid_ring_unique(members: Seq<MemberView>)
    requires
        unique_slugs(members),
    ensures
        unique_slugs(valid_ring(members)),
    decreases members.len(),
{
    if members.len() == 0 {
        reveal(Seq::filter);
    } else {
        let init = members.drop_last();
        let m = members.last();
        assert(members =~= init.push(m));
        lemma_valid_ring_unique(init);
        lemma_valid_ring_push(init, m);
        lemma_valid_ring_members(init);
    }
}

/// Where slugs are distinct, every place of the ring is where its own slug
/// first stands.
pub proof fn lemma_position_of_member(ring: Seq<MemberView>, at: int)
    requires
        unique_slugs(ring),
        0 <= at < ring.len(),
    ensures
        named(ring, ring[at].slug),
        position(ring, ring[at].slug) == at,
{
    lemma_position_is(ring, ring[at].slug, at);
}

/// Round trip: in a registry of distinct slugs, stepping back from a valid
/// member and then forward, or forward and then back, arrives at the member
/// one started from.
pub proof fn lemma_round_trip(members: Seq<MemberView>, slug: Seq<char>)
    requires
        unique_slugs(members),
        names_valid_member(members, slug),
    ensures
        previous(members, slug) is Ok,
        next(members, slug) is Ok,
        next(members, previous(members, slug).unwrap().slug) == Ok::<MemberView, Error>(
            valid_ring(members)[position(valid_ring(members), slug)],
        ),
        previous(members, next(members, slug).unwrap().slug) == Ok::<MemberView, Error>(
            valid_ring(members)[position(valid_ring(members), slug)],
        ),
        valid_ring(members)[position(valid_ring(members), slug)].slug == slug,
{
    let ring = valid_ring(members);
    let at = position(ring, slug);
    lemma_named_valid(members, slug);
    lemma_position(ring, slug);
    lemma_valid_ring_unique(members);
    let back = if at == 0 {
        ring.len() - 1
    } else {
        at - 1
    };
    let forth = if at == ring.len() - 1 {
        0
    } else {
        at + 1
    };
    lemma_position_of_member(ring, back);
    lemma_position_of_member(ring, forth);
}

/// In a ring with a single valid member, that member is its own predecessor
/// and its own successor.
pub proof fn lemma_single_member(members: Seq<MemberView>, slug: Seq<char>)
    requires
        valid_ring(members).len() == 1,
        names_valid_member(members, slug),
    ensures
        previous(members, slug) == Ok::<MemberView, Error>(valid_ring(members)[0]),
        next(members, slug) == Ok::<MemberView, Error>(valid_ring(members)[0]),
        valid_ring(members)[0].slug == slug,
{
    lemma_named_valid(members, slug);
    lemma_position(valid_ring(members), slug);
}

/// In a registry of distinct slugs, the slug of a member marked invalid is
/// never a place to navigate from.
pub proof fn lemma_invalid_member_not_found(members: Seq<MemberView>, at: int)
    requires
        unique_slugs(members),
        0 <= at < members.len(),
        members[at].invalid,
    ensures
        previous(members, members[at].slug) == Err::<MemberView, Error>(Error::MemberNotFound),
        next(members, members[at].slug) == Err::<MemberView, Error>(Error::MemberNotFound),
{
    lemma_named_valid(members, members[at].slug);
}

/// No member takes part in navigation: the registry is empty, or every
/// member is marked invalid.
pub open spec fn no_valid_member(members: Seq<MemberView>) -> bool {
    forall|i: int| 0 <= i < members.len() ==> (#[trigger] members[i]).invalid
}

/// The valid sub-ring is empty exactly when no member is valid.
pub proof fn lemma_no_valid_member(members: Seq<MemberView>)
    ensures
        no_valid_member(members) <==> valid_ring(members).len() == 0,
{
    let ring = valid_ring(members);
    lemma_valid_ring_members(members);
    if no_valid_member(members) && ring.len() > 0 {
        assert(is_valid(ring[0]) && members.contains(ring[0]));
        let i = choose|i: int| 0 <= i < members.len() && members[i] == ring[0];
        assert(members[i].invalid);
    }
}

/// In an empty registry, and in one whose members are all marked invalid,
/// navigation fails from every slug.
pub proof fn lemma_empty_ring(members: Seq<MemberView>, slug: Seq<char>)
    requires
        no_valid_member(members),
    ensures
        previous(members, slug) == Err::<MemberView, Error>(Error::MemberNotFound),
        next(members, slug) == Err::<MemberView, Error>(Error::MemberNotFound),
{
    lemma_no_valid_member(members);
}

impl FireChicken {
    /// The registry is well formed when no slug occurs twice: a slug then
    /// names at most one member.
    pub open spec fn wf(&self) -> bool {
        unique_slugs(self@)
    }

    /// Makes a registry of the members, in the order given, provided that
    /// no slug occurs twice. Otherwise the first member that repeats a slug
    /// is reported, by its place in the list.
    pub fn new(members: Vec<Member>) -> (r: Result<FireChicken, Error>)
        ensures
            registry_outcome(r) == as_registry(member_views(members@)),
            r matches Ok(fire_chicken) ==> fire_chicken.members == members && fire_chicken.wf(),
    {
        let ghost all = member_views(members@);
        let mut i: usize = 0;
        while i < members.len()
            invariant
                i <= members.len(),
                all == member_views(members@),
                forall|h: int| 0 <= h < i ==> !#[trigger] slug_taken(all, h),
            decreases members.len() - i,
        {
            let mut h: usize = 0;
            while h < i
                invariant
                    h <= i < members.len(),
                    all == member_views(members@),
                    forall|g: int| 0 <= g < i ==> !#[trigger] slug_taken(all, g),
                    forall|g: int| 0 <= g < h ==> (#[trigger] all[g]).slug != all[i as int].slug,
                decreases i - h,
            {
                if members[h].slug == members[i].slug {
                    proof {
                        assert(all[h as int].slug == all[i as int].slug);
                        assert(first_duplicate_at(all, i as int));
                    }
                    return Err(Error::MalformedInput { entry: i, fault: Fault::DuplicateSlug });
                }
                h += 1;
            }
            i += 1;
        }
        proof {
            assert forall|a: int, b: int| 0 <= a < b < all.len() implies all[a].slug
                != all[b].slug by {
                assert(!slug_taken(all, b));
            }
        }
        Ok(FireChicken { members })
    }

    /// The members in ring order, invalid ones included.
    pub fn members(&self) -> (all: &Vec<Member>)
        ensures
            all == &self.members,
    {
        &self.members
    }

    /// The member that carries `slug`, valid or not; the first one, should
    /// the registry hold the slug twice.
    pub fn find(&self, slug: &str) -> (found: Option<&Member>)
        ensures
            match found {
                Some(m) => lookup(self@, slug@) == Some(m@),
                None => lookup(self@, slug@) is None,
            },
    {
        let key = slug.to_owned();
        let mut i: usize = 0;
        while i < self.members.len()
            invariant
                i <= self.members.len(),
                key@ == slug@,
                forall|j: int| 0 <= j < i ==> #[trigger] self@[j].slug != slug@,
            decreases self.members.len() - i,
        {
            if self.members[i].slug == key {
                proof {
                    lemma_position_is(self@, slug@, i as int);
                }
                return Some(&self.members[i]);
            }
            i += 1;
        }
        None
    }

    /// The valid sub-ring.
    pub fn valid_members(&self) -> (ring: Vec<&Member>)
        ensures
            views(ring@) == valid_ring(self@),
    {
        let mut ring: Vec<&Member> = Vec::new();
        let n = self.members.len();
        let mut i: usize = 0;
        while i < n
            invariant
                n == self.members.len(),
                i <= n,
                views(ring@) == valid_ring(self@.take(i as int)),
            decreases n - i,
        {
            let member = &self.members[i];
            proof {
                assert(self@.take(i + 1) =~= self@.take(i as int).push(member@));
                lemma_valid_ring_push(self@.take(i as int), member@);
            }
            if !member.invalid {
                ring.push(member);
            }
            i += 1;
        }
        assert(self@.take(n as int) =~= self@);
        ring
    }

    /// The member before `slug` in the valid sub-ring; the first member's
    /// predecessor is the last. A slug that names no valid member, be it
    /// unknown or that of a member marked invalid, is not a place to start
    /// from: the answer is then `MemberNotFound`, also when the ring has no
    /// valid member at all.
    pub fn prev_valid(&self, slug: &str) -> (r: Result<&Member, Error>)
        ensures
            outcome(r) == previous(self@, slug@),
            r is Ok <==> names_valid_member(self@, slug@),
            r is Err ==> r == Err::<&Member, Error>(Error::MemberNotFound),
    {
        proof {
            lemma_named_valid(self@, slug@);
        }
        let ring = self.valid_members();
        predecessor_in(&ring, slug)
    }

    /// The member after `slug` in the valid sub-ring; the last member's
    /// successor is the first. Fails as [`FireChicken::prev_valid`] does.
    pub fn next_valid(&self, slug: &str) -> (r: Result<&Member, Error>)
        ensures
            outcome(r) == next(self@, slug@),
            r is Ok <==> names_valid_member(self@, slug@),
            r is Err ==> r == Err::<&Member, Error>(Error::MemberNotFound),
    {
        proof {
            lemma_named_valid(self@, slug@);
        }
        let ring = self.valid_members();
        successor_in(&ring, slug)
    }
}

/// The first place in `ring` at which `slug` stands.
pub fn position_of(ring: &Vec<&Member>, slug: &str) -> (at: Option<usize>)
    ensures
        match at {
            Some(i) => first_at(views(ring@), slug@, i as int),
            None => !named(views(ring@), slug@),
        },
{
    let key = slug.to_owned();
    let mut i: usize = 0;
    while i < ring.len()
        invariant
            i <= ring.len(),
            key@ == slug@,
            forall|j: int| 0 <= j < i ==> #[trigger] views(ring@)[j].slug != slug@,
        decreases ring.len() - i,
    {
        if ring[i].slug == key {
            return Some(i);
        }
        i += 1;
    }
    None
}

/// The member before `slug` in a ring that has been put together already.
pub fn predecessor_in<'a>(ring: &Vec<&'a Member>, slug: &str) -> (r: Result<&'a Member, Error>)
    ensures
        outcome(r) == predecessor(views(ring@), slug@),
{
    match position_of(ring, slug) {
        None => Err(Error::MemberNotFound),
        Some(at) => {
            proof {
                lemma_position_is(views(ring@), slug@, at as int);
            }
            if at == 0 {
                Ok(ring[ring.len() - 1])
            } else {
                Ok(ring[at - 1])
            }
        },
    }
}

/// The member after `slug` in a ring that has been put together already.
pub fn successor_in<'a>(ring: &Vec<&'a Member>, slug: &str) -> (r: Result<&'a Member, Error>)
    ensures
        outcome(r) == successor(views(ring@), slug@),
{
    match position_of(ring, slug) {
        None => Err(Error::MemberNotFound),
        Some(at) => {
            proof {
                lemma_position_is(views(ring@), slug@, at as int);
            }
            if at == ring.len() - 1 {
                Ok(ring[0])
            } else {
                Ok(ring[at + 1])
            }
        },
    }
}

} // verus!
