use firechicken::redirects::{next_path, prev_path, redirect_rules, redirects, REDIRECT_STATUS};
use firechicken::{Date, Error, FireChicken, Member, RedirectRule};

fn homepage(slug: &str, url: &str, invalid: bool) -> Member {
    Member {
        slug: slug.to_string(),
        url: url.to_string(),
        name: slug.to_uppercase(),
        joined: Date { year: 2024, month: 1, day: 2 },
        invalid,
        rss_feeds: vec![],
    }
}

fn rule(path: &str, target: &str) -> RedirectRule {
    RedirectRule { path: path.to_string(), target: target.to_string(), status: 302 }
}

fn example() -> FireChicken {
    FireChicken::new(vec![
        homepage("A", "https://a.example/", false),
        homepage("B", "https://b.example/", true),
        homepage("C", "https://c.example/", false),
    ])
    .unwrap()
}

#[test]
fn example_redirect_table() {
    assert_eq!(
        redirect_rules(&example()),
        Ok(vec![
            rule("/A/prev", "https://c.example/"),
            rule("/A/next", "https://c.example/"),
            rule("/C/prev", "https://a.example/"),
            rule("/C/next", "https://a.example/"),
        ])
    );
}

#[test]
fn example_redirect_table_as_text() {
    assert_eq!(
        redirects(&example()).unwrap(),
        "/A/prev https://c.example/ 302\n\
         /A/next https://c.example/ 302\n\
         /C/prev https://a.example/ 302\n\
         /C/next https://a.example/ 302\n"
    );
}

#[test]
fn table_of_three_members_links_neighbours() {
    let ring = FireChicken::new(vec![
        homepage("one", "https://one.example/", false),
        homepage("two", "https://two.example/blog", false),
        homepage("three", "https://three.example/", false),
    ])
    .unwrap();
    assert_eq!(
        redirects(&ring).unwrap(),
        "/one/prev https://three.example/ 302\n\
         /one/next https://two.example/blog 302\n\
         /two/prev https://one.example/ 302\n\
         /two/next https://three.example/ 302\n\
         /three/prev https://two.example/blog 302\n\
         /three/next https://one.example/ 302\n"
    );
}

#[test]
fn table_has_two_rules_for_each_valid_member() {
    let mut members = Vec::new();
    for i in 0..7 {
        let slug = format!("m{}", i);
        members.push(homepage(&slug, &format!("https://{}.example/", slug), i % 3 == 1));
    }
    let ring = FireChicken::new(members).unwrap();
    let rules = redirect_rules(&ring).unwrap();
    assert_eq!(ring.valid_members().len(), 5);
    assert_eq!(rules.len(), 10);
    assert!(rules.iter().all(|r| r.status == REDIRECT_STATUS));
    assert_eq!(REDIRECT_STATUS, 302);
}

#[test]
fn table_has_no_rule_for_an_invalid_member() {
    let rules = redirect_rules(&example()).unwrap();
    assert!(rules.iter().all(|r| r.path != "/B/prev" && r.path != "/B/next"));
    assert!(rules.iter().all(|r| r.target != "https://b.example/"));
    assert!(!redirects(&example()).unwrap().contains("/B/"));
}

#[test]
fn single_member_redirects_to_itself() {
    let ring = FireChicken::new(vec![homepage("solo", "https://solo.example/", false)]).unwrap();
    assert_eq!(
        redirects(&ring).unwrap(),
        "/solo/prev https://solo.example/ 302\n/solo/next https://solo.example/ 302\n"
    );
}

#[test]
fn empty_ring_has_no_table() {
    let ring = FireChicken::new(vec![]).unwrap();
    assert_eq!(redirect_rules(&ring), Err(Error::EmptyRing));
    assert_eq!(redirects(&ring), Err(Error::EmptyRing));
}

#[test]
fn ring_of_invalid_members_has_no_table() {
    let ring = FireChicken::new(vec![
        homepage("A", "https://a.example/", true),
        homepage("B", "https://b.example/", true),
    ])
    .unwrap();
    assert_eq!(redirect_rules(&ring), Err(Error::EmptyRing));
    assert_eq!(redirects(&ring), Err(Error::EmptyRing));
}

#[test]
fn paths_are_built_from_the_slug() {
    assert_eq!(prev_path("arne"), "/arne/prev");
    assert_eq!(next_path("arne"), "/arne/next");
    assert_eq!(prev_path(""), "//prev");
    assert_eq!(next_path("a/b"), "/a/b/next");
}

#[test]
fn rule_line_writes_the_status_in_decimal() {
    let mut r = rule("/a/prev", "https://b.example/");
    assert_eq!(r.line(), "/a/prev https://b.example/ 302\n");
    for (status, text) in [(0, "0"), (7, "7"), (10, "10"), (301, "301"), (308, "308"), (65535, "65535")] {
        r.status = status;
        assert_eq!(r.line(), format!("/a/prev https://b.example/ {}\n", text));
    }
}
