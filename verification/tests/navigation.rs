use firechicken::ring::{position_of, predecessor_in, successor_in};
use firechicken::{Date, Error, Fault, FireChicken, Member};

fn site(slug: &str, invalid: bool) -> Member {
    Member {
        slug: slug.to_string(),
        url: format!("https://{}.example/", slug),
        name: format!("Site {}", slug),
        joined: Date { year: 2023, month: 11, day: 13 },
        invalid,
        rss_feeds: vec![],
    }
}

fn ring_of(members: Vec<Member>) -> FireChicken {
    FireChicken::new(members).unwrap()
}

#[test]
fn example_ring_skips_the_invalid_member() {
    let ring = ring_of(vec![site("A", false), site("B", true), site("C", false)]);
    assert_eq!(ring.prev_valid("A").unwrap().slug, "C");
    assert_eq!(ring.next_valid("A").unwrap().slug, "C");
    assert_eq!(ring.prev_valid("C").unwrap().slug, "A");
    assert_eq!(ring.next_valid("C").unwrap().slug, "A");
}

#[test]
fn navigation_hands_out_the_whole_member() {
    let ring = ring_of(vec![site("A", false), site("B", false)]);
    assert_eq!(ring.prev_valid("A"), Ok(&site("B", false)));
    assert_eq!(ring.next_valid("B"), Ok(&site("A", false)));
}

#[test]
fn neighbours_follow_the_order_of_the_registry() {
    let ring = ring_of(vec![site("z", false), site("a", false), site("m", false)]);
    assert_eq!(ring.next_valid("z").unwrap().slug, "a");
    assert_eq!(ring.next_valid("a").unwrap().slug, "m");
    assert_eq!(ring.next_valid("m").unwrap().slug, "z");
    assert_eq!(ring.prev_valid("z").unwrap().slug, "m");
    assert_eq!(ring.prev_valid("a").unwrap().slug, "z");
    assert_eq!(ring.prev_valid("m").unwrap().slug, "a");
}

#[test]
fn single_member_is_its_own_neighbour() {
    let ring = ring_of(vec![site("only", false)]);
    assert_eq!(ring.prev_valid("only").unwrap().slug, "only");
    assert_eq!(ring.next_valid("only").unwrap().slug, "only");
}

#[test]
fn single_valid_member_among_invalid_ones_is_its_own_neighbour() {
    let ring = ring_of(vec![site("x", true), site("only", false), site("y", true)]);
    assert_eq!(ring.prev_valid("only").unwrap().slug, "only");
    assert_eq!(ring.next_valid("only").unwrap().slug, "only");
}

#[test]
fn invalid_member_is_no_place_to_start_from() {
    let ring = ring_of(vec![site("A", false), site("B", true), site("C", false)]);
    assert_eq!(ring.prev_valid("B"), Err(Error::MemberNotFound));
    assert_eq!(ring.next_valid("B"), Err(Error::MemberNotFound));
}

#[test]
fn unknown_slug_is_not_found() {
    let ring = ring_of(vec![site("A", false), site("C", false)]);
    assert_eq!(ring.prev_valid("nobody"), Err(Error::MemberNotFound));
    assert_eq!(ring.next_valid("nobody"), Err(Error::MemberNotFound));
    assert_eq!(ring.prev_valid(""), Err(Error::MemberNotFound));
    assert_eq!(ring.next_valid("a"), Err(Error::MemberNotFound));
}

#[test]
fn empty_ring_has_no_neighbours() {
    let ring = ring_of(vec![]);
    assert_eq!(ring.prev_valid("A"), Err(Error::MemberNotFound));
    assert_eq!(ring.next_valid("A"), Err(Error::MemberNotFound));
}

#[test]
fn ring_of_invalid_members_has_no_neighbours() {
    let ring = ring_of(vec![site("A", true), site("B", true)]);
    assert_eq!(ring.prev_valid("A"), Err(Error::MemberNotFound));
    assert_eq!(ring.next_valid("A"), Err(Error::MemberNotFound));
    assert_eq!(ring.prev_valid("B"), Err(Error::MemberNotFound));
    assert_eq!(ring.next_valid("B"), Err(Error::MemberNotFound));
}

#[test]
fn round_trip_returns_to_the_origin() {
    let ring = ring_of(vec![
        site("a", false),
        site("b", true),
        site("c", false),
        site("d", false),
        site("e", true),
        site("f", false),
    ]);
    for slug in ["a", "c", "d", "f"] {
        let back = ring.prev_valid(slug).unwrap();
        assert_eq!(ring.next_valid(&back.slug).unwrap().slug, slug);
        let forth = ring.next_valid(slug).unwrap();
        assert_eq!(ring.prev_valid(&forth.slug).unwrap().slug, slug);
    }
    assert_eq!(ring.prev_valid("a").unwrap().slug, "f");
    assert_eq!(ring.next_valid("f").unwrap().slug, "a");
    assert_eq!(ring.next_valid("a").unwrap().slug, "c");
    assert_eq!(ring.prev_valid("d").unwrap().slug, "c");
}

#[test]
fn valid_members_keep_their_order() {
    let ring = ring_of(vec![site("a", false), site("b", true), site("c", false), site("d", true)]);
    let valid: Vec<&str> = ring.valid_members().iter().map(|m| m.slug.as_str()).collect();
    assert_eq!(valid, vec!["a", "c"]);
    assert_eq!(ring.members().len(), 4);
    assert!(ring_of(vec![]).valid_members().is_empty());
}

#[test]
fn find_sees_invalid_members_too() {
    let ring = ring_of(vec![site("A", false), site("B", true)]);
    assert_eq!(ring.find("B"), Some(&site("B", true)));
    assert_eq!(ring.find("A"), Some(&site("A", false)));
    assert_eq!(ring.find("C"), None);
    assert_eq!(ring_of(vec![]).find("A"), None);
}

#[test]
fn neighbours_within_a_given_ring() {
    let a = site("a", false);
    let b = site("b", false);
    let c = site("c", false);
    let ring = vec![&a, &b, &c];
    assert_eq!(position_of(&ring, "a"), Some(0));
    assert_eq!(position_of(&ring, "c"), Some(2));
    assert_eq!(position_of(&ring, "d"), None);
    assert_eq!(predecessor_in(&ring, "a"), Ok(&c));
    assert_eq!(predecessor_in(&ring, "b"), Ok(&a));
    assert_eq!(successor_in(&ring, "c"), Ok(&a));
    assert_eq!(successor_in(&ring, "b"), Ok(&c));
    assert_eq!(successor_in(&ring, "d"), Err(Error::MemberNotFound));
    let nobody: Vec<&Member> = vec![];
    assert_eq!(predecessor_in(&nobody, "a"), Err(Error::MemberNotFound));
}

#[test]
fn repeated_slug_is_found_where_it_first_stands() {
    let first = Member { name: "first".to_string(), ..site("twin", false) };
    let other = site("other", false);
    let second = Member { name: "second".to_string(), ..site("twin", false) };
    let ring = vec![&first, &other, &second];
    assert_eq!(position_of(&ring, "twin"), Some(0));
    assert_eq!(successor_in(&ring, "twin").unwrap().slug, "other");
    assert_eq!(predecessor_in(&ring, "twin").unwrap().name, "second");
}

#[test]
fn registry_refuses_a_repeated_slug() {
    let twice = vec![site("a", false), site("b", false), site("a", true), site("b", false)];
    assert_eq!(
        FireChicken::new(twice),
        Err(Error::MalformedInput { entry: 2, fault: Fault::DuplicateSlug })
    );
    let members = vec![site("a", false), site("b", true)];
    assert_eq!(FireChicken::new(members.clone()), Ok(FireChicken { members }));
}

#[test]
fn errors_describe_themselves() {
    assert_eq!(Error::MemberNotFound.message(), "Member not found");
    assert_eq!(Error::EmptyRing.message(), "No members");
    assert_eq!(
        Error::MalformedInput { entry: 3, fault: Fault::Url }.message(),
        "Malformed input in entry 3: the address is not an absolute URL"
    );
    assert_eq!(
        Error::MalformedInput { entry: 0, fault: Fault::Joined }.message(),
        "Malformed input in entry 0: the date of admission is not a calendar date"
    );
    assert_eq!(
        Error::MalformedInput { entry: 120, fault: Fault::DuplicateSlug }.message(),
        "Malformed input in entry 120: an earlier entry carries the same slug"
    );
    assert_eq!(Fault::FeedAddress.reason(), "the address of a feed is not an absolute URL");
    assert_eq!(Fault::FeedLink.reason(), "the landing page of a feed is not an absolute URL");
}
