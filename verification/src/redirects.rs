//! The redirect table: for every valid member one rule that sends its
//! "previous" path to the site before it and one that sends its "next"
//! path to the site after it.

use crate::error::Error;
use crate::member::{Member, MemberView};
use crate::ring::{
    is_valid, lemma_no_valid_member, lemma_position_of_member, lemma_valid_ring_members,
    lemma_valid_ring_unique, next, no_valid_member, predecessor_in, previous, successor_in,
    unique_slugs, valid_ring, views, FireChicken,
};
use crate::text::{append_decimal, decimal};
use vstd::prelude::*;

verus! {

/// The status with which every rule redirects.
pub const REDIRECT_STATUS: u16 = 302;

/// One line of the redirect table.
#[derive(Debug, Clone, PartialEq, Eq)]
pub struct RedirectRule {
    /// The path that is redirected.
    pub path: String,
    /// The address it is redirected to.
    pub target: String,
    /// The HTTP status of the redirect.
    pub status: u16,
}

/// The mathematical content of a [`RedirectRule`].
pub ghost struct RuleView {
    pub path: Seq<char>,
    pub target: Seq<char>,
    pub status: nat,
}

impl View for RedirectRule {
    type V = RuleView;

    open spec fn view(&self) -> RuleView {
        RuleView { path: self.path@, target: self.target@, status: self.status as nat }
    }
}

/// What a list of rules holds.
pub open spec fn rule_views(rules: Seq<RedirectRule>) -> Seq<RuleView> {
    rules.map_values(|r: RedirectRule| r@)
}

/// The path from which a member's visitors are sent backwards.
pub open spec fn prev_path_of(slug: Seq<char>) -> Seq<char> {
    "/"@ + slug + "/prev"@
}

/// The path from which a member's visitors are sent forwards.
pub open spec fn next_path_of(slug: Seq<char>) -> Seq<char> {
    "/"@ + slug + "/next"@
}

/// The rule at place `k` of the table: the members of the valid sub-ring
/// take two places each, "previous" before "next".
pub open spec fn rule_at(members: Seq<MemberView>, k: int) -> RuleView {
    let member = valid_ring(members)[k / 2];
    if k % 2 == 0 {
        RuleView {
            path: prev_path_of(member.slug),
            target: previous(members, member.slug).unwrap().url,
            status: REDIRECT_STATUS as nat,
        }
    } else {
        RuleView {
            path: next_path_of(member.slug),
            target: next(members, member.slug).unwrap().url,
            status: REDIRECT_STATUS as nat,
        }
    }
}

/// The redirect table of a registry. A registry without a valid member has
/// none: an empty table would hide the misconfiguration.
pub open spec fn redirect_table(members: Seq<MemberView>) -> Result<Seq<RuleView>, Error> {
    let ring = valid_ring(members);
    if ring.len() == 0 {
        Err(Error::EmptyRing)
    } else {
        Ok(Seq::new(2 * ring.len(), |k: int| rule_at(members, k)))
    }
}

/// A rule as a line of the table: path, target and status, a space between
/// them and a line feed after them.
pub open spec fn rule_line(rule: RuleView) -> Seq<char> {
    rule.path + " "@ + rule.target + " "@ + decimal(rule.status) + "\n"@
}

/// The lines of the rules, one after the other.
pub open spec fn table_text(rules: Seq<RuleView>) -> Seq<char>
    decreases rules.len(),
{
    if rules.len() == 0 {
        Seq::empty()
    } else {
        table_text(rules.drop_last()) + rule_line(rules.last())
    }
}

/// What the result of building the table holds.
pub open spec fn rules_outcome(r: Result<Vec<RedirectRule>, Error>) -> Result<Seq<RuleView>, Error> {
    match r {
        Ok(rules) => Ok(rule_views(rules@)),
        Err(e) => Err(e),
    }
}

/// What the result of writing the table out holds.
pub open spec fn text_outcome(r: Result<String, Error>) -> Result<Seq<char>, Error> {
    match r {
        Ok(text) => Ok(text@),
        Err(e) => Err(e),
    }
}

/// The text of a redirect table, where there is a table.
pub open spec fn redirect_text(members: Seq<MemberView>) -> Result<Seq<char>, Error> {
    match redirect_table(members) {
        Ok(rules) => Ok(table_text(rules)),
        Err(e) => Err(e),
    }
}

/// Adding a rule to a table adds its line to the text.
pub proof fn lemma_table_text_push(rules: Seq<RuleView>, rule: RuleView)
    ensures
        table_text(rules.push(rule)) == table_text(rules) + rule_line(rule),
{
    assert(rules.push(rule).drop_last() =~= rules);
}

/// A path tells which member it belongs to and which way it leads: the
/// paths of different slugs differ, and no "previous" path is a "next" path.
pub proof fn lemma_paths_distinct(a: Seq<char>, b: Seq<char>)
    ensures
        prev_path_of(a) == prev_path_of(b) ==> a == b,
        next_path_of(a) == next_path_of(b) ==> a == b,
        prev_path_of(a) != next_path_of(b),
{
    reveal_strlit("/");
    reveal_strlit("/prev");
    reveal_strlit("/next");
    assert(prev_path_of(a).len() == a.len() + 6);
    assert(next_path_of(a).len() == a.len() + 6);
    assert(prev_path_of(b).len() == b.len() + 6);
    assert(next_path_of(b).len() == b.len() + 6);
    if prev_path_of(a) == prev_path_of(b) {
        assert forall|i: int| 0 <= i < a.len() implies a[i] == b[i] by {
            assert(prev_path_of(a)[i + 1] == a[i]);
            assert(prev_path_of(b)[i + 1] == b[i]);
        }
        assert(a =~= b);
    }
    if next_path_of(a) == next_path_of(b) {
        assert forall|i: int| 0 <= i < a.len() implies a[i] == b[i] by {
            assert(next_path_of(a)[i + 1] == a[i]);
            assert(next_path_of(b)[i + 1] == b[i]);
        }
        assert(a =~= b);
    }
    if prev_path_of(a) == next_path_of(b) {
        assert(prev_path_of(a)[a.len() as int + 2] == 'p');
        assert(next_path_of(b)[b.len() as int + 2] == 'n');
    }
}

/// The size of the table: two rules for each valid member, and no table at
/// all, but `EmptyRing`, where there is no valid member, be the registry
/// empty or every member marked invalid.
pub proof fn lemma_table_size(members: Seq<MemberView>)
    ensures
        match redirect_table(members) {
            Ok(rules) => valid_ring(members).len() > 0 && rules.len() == 2 * valid_ring(
                members,
            ).len(),
            Err(e) => valid_ring(members).len() == 0 && e == Error::EmptyRing,
        },
{
}

/// An empty registry, and one whose members are all marked invalid, has no
/// redirect table: building it fails, and so does writing it out.
pub proof fn lemma_empty_ring_has_no_table(members: Seq<MemberView>)
    requires
        no_valid_member(members),
    ensures
        redirect_table(members) == Err::<Seq<RuleView>, Error>(Error::EmptyRing),
        redirect_text(members) == Err::<Seq<char>, Error>(Error::EmptyRing),
{
    lemma_no_valid_member(members);
}

/// In a registry of distinct slugs the rules of the member at place `at` of
/// the valid sub-ring lead to its neighbours there: backwards to the member
/// one place before it, forwards to the member one place after it, the ends
/// of the ring joined.
pub proof fn lemma_rule_targets(members: Seq<MemberView>, at: int)
    requires
        unique_slugs(members),
        0 <= at < valid_ring(members).len(),
    ensures
        redirect_table(members) is Ok,
        redirect_table(members).unwrap()[2 * at] == (RuleView {
            path: prev_path_of(valid_ring(members)[at].slug),
            target: valid_ring(members)[if at == 0 {
                valid_ring(members).len() - 1
            } else {
                at - 1
            }].url,
            status: REDIRECT_STATUS as nat,
        }),
        redirect_table(members).unwrap()[2 * at + 1] == (RuleView {
            path: next_path_of(valid_ring(members)[at].slug),
            target: valid_ring(members)[if at == valid_ring(members).len() - 1 {
                0
            } else {
                at + 1
            }].url,
            status: REDIRECT_STATUS as nat,
        }),
{
    lemma_valid_ring_unique(members);
    lemma_position_of_member(valid_ring(members), at);
}

/// In a registry of distinct slugs no rule of the table stands under a path
/// of a member marked invalid.
pub proof fn lemma_no_rule_for_invalid(members: Seq<MemberView>, at: int, k: int)
    requires
        unique_slugs(members),
        0 <= at < members.len(),
        members[at].invalid,
        redirect_table(members) is Ok,
        0 <= k < redirect_table(members).unwrap().len(),
    ensures
        redirect_table(members).unwrap()[k].path != prev_path_of(members[at].slug),
        redirect_table(members).unwrap()[k].path != next_path_of(members[at].slug),
{
    let ring = valid_ring(members);
    let owner = ring[k / 2];
    lemma_valid_ring_members(members);
    assert(is_valid(owner) && members.contains(owner));
    let i = choose|i: int| 0 <= i < members.len() && members[i] == owner;
    assert(members[i].slug != members[at].slug) by {
        if i < at {
            assert(members[i].slug != members[at].slug);
        } else {
            assert(members[at].slug != members[i].slug);
        }
    }
    lemma_paths_distinct(owner.slug, members[at].slug);
    lemma_paths_distinct(members[at].slug, owner.slug);
}

/// The path from which the visitors of `slug` are sent backwards.
pub fn prev_path(slug: &str) -> (path: String)
    ensures
        path@ == prev_path_of(slug@),
{
    let mut path = "/".to_owned();
    path.append(slug);
    path.append("/prev");
    path
}

/// The path from which the visitors of `slug` are sent forwards.
pub fn next_path(slug: &str) -> (path: String)
    ensures
        path@ == next_path_of(slug@),
{
    let mut path = "/".to_owned();
    path.append(slug);
    path.append("/next");
    path
}

impl RedirectRule {
    /// The rule as a line of the table.
    pub fn line(&self) -> (text: String)
        ensures
            text@ == rule_line(self@),
    {
        let mut text = self.path.clone();
        text.append(" ");
        text.append(self.target.as_str());
        text.append(" ");
        append_decimal(&mut text, self.status as u64);
        text.append("\n");
        text
    }
}

/// Builds the redirect table: two rules for every valid member, in registry
/// order, "previous" before "next". Members marked invalid get no rule.
/// Fails with `EmptyRing`, and with nothing else, exactly when the registry
/// has no valid member.
pub fn redirect_rules(fire_chicken: &FireChicken) -> (r: Result<Vec<RedirectRule>, Error>)
    ensures
        rules_outcome(r) == redirect_table(fire_chicken@),
        r is Err <==> no_valid_member(fire_chicken@),
        r matches Ok(rules) ==> rules.len() == 2 * valid_ring(fire_chicken@).len(),
{
    proof {
        lemma_no_valid_member(fire_chicken@);
    }
    let ring = fire_chicken.valid_members();
    if ring.len() == 0 {
        return Err(Error::EmptyRing);
    }
    let ghost members = fire_chicken@;
    let mut rules: Vec<RedirectRule> = Vec::new();
    let mut k: usize = 0;
    while k < ring.len()
        invariant
            k <= ring.len(),
            members == fire_chicken@,
            views(ring@) == valid_ring(members),
            rules.len() == 2 * k,
            forall|j: int| 0 <= j < rules.len() ==> (#[trigger] rules@[j])@ == rule_at(members, j),
        decreases ring.len() - k,
    {
        let member: &Member = ring[k];
        assert(views(ring@)[k as int].slug == member.slug@);
        let before = match predecessor_in(&ring, member.slug.as_str()) {
            Ok(m) => m,
            Err(e) => {
                return Err(e);
            },
        };
        let after = match successor_in(&ring, member.slug.as_str()) {
            Ok(m) => m,
            Err(e) => {
                return Err(e);
            },
        };
        let back = RedirectRule {
            path: prev_path(member.slug.as_str()),
            target: before.url.clone(),
            status: REDIRECT_STATUS,
        };
        let forth = RedirectRule {
            path: next_path(member.slug.as_str()),
            target: after.url.clone(),
            status: REDIRECT_STATUS,
        };
        proof {
            assert(back@ == rule_at(members, 2 * k));
            assert(forth@ == rule_at(members, 2 * k + 1));
        }
        rules.push(back);
        rules.push(forth);
        k += 1;
    }
    assert(rule_views(rules@) =~= Seq::new(
        2 * valid_ring(members).len(),
        |j: int| rule_at(members, j),
    ));
    Ok(rules)
}

/// Writes the redirect table out, one rule per line. Fails as
/// [`redirect_rules`] does.
pub fn redirects(fire_chicken: &FireChicken) -> (r: Result<String, Error>)
    ensures
        text_outcome(r) == redirect_text(fire_chicken@),
        r is Err <==> no_valid_member(fire_chicken@),
{
    let rules = match redirect_rules(fire_chicken) {
        Ok(rules) => rules,
        Err(e) => {
            return Err(e);
        },
    };
    let mut text = String::new();
    let mut k: usize = 0;
    while k < rules.len()
        invariant
            k <= rules.len(),
            text@ == table_text(rule_views(rules@).take(k as int)),
        decreases rules.len() - k,
    {
        let line = rules[k].line();
        proof {
            let written = rule_views(rules@).take(k as int);
            assert(rule_views(rules@).take(k + 1) =~= written.push(rules[k as int]@));
            lemma_table_text_push(written, rules[k as int]@);
        }
        text.append(line.as_str());
        k += 1;
    }
    assert(rule_views(rules@).take(rules.len() as int) =~= rule_views(rules@));
    Ok(text)
}

} // verus!
