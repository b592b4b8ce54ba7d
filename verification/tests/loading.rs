use firechicken::{Date, Error, Fault, Feed, FireChicken, Member, MemberEntry};

fn entry(slug: &str, url: &str, joined: &str) -> MemberEntry {
    MemberEntry {
        slug: slug.to_string(),
        url: url.to_string(),
        name: format!("{}'s site", slug),
        joined: joined.to_string(),
        invalid: false,
        rss_feeds: vec![],
    }
}

fn declared(xml_url: &str, html_url: Option<&str>) -> Feed {
    Feed {
        xml_url: xml_url.to_string(),
        title: Some("Posts".to_string()),
        html_url: html_url.map(|u| u.to_string()),
    }
}

#[test]
fn load_reads_addresses_and_dates() {
    let mut second = entry("jo", "HTTPS://Jo.Example/a b", "2024-2-29");
    second.invalid = true;
    second.rss_feeds = vec![
        declared("https://jo.example/feed.xml", None),
        declared("https://jo.example:443/atom", Some("https://jo.example")),
    ];
    let ring = FireChicken::load(&vec![entry("arne", "https://arne.me", "2023-11-13"), second])
        .unwrap();
    assert_eq!(
        ring.members,
        vec![
            Member {
                slug: "arne".to_string(),
                url: "https://arne.me/".to_string(),
                name: "arne's site".to_string(),
                joined: Date { year: 2023, month: 11, day: 13 },
                invalid: false,
                rss_feeds: vec![],
            },
            Member {
                slug: "jo".to_string(),
                url: "https://jo.example/a%20b".to_string(),
                name: "jo's site".to_string(),
                joined: Date { year: 2024, month: 2, day: 29 },
                invalid: true,
                rss_feeds: vec![
                    Feed {
                        xml_url: "https://jo.example/feed.xml".to_string(),
                        title: Some("Posts".to_string()),
                        html_url: None,
                    },
                    Feed {
                        xml_url: "https://jo.example/atom".to_string(),
                        title: Some("Posts".to_string()),
                        html_url: Some("https://jo.example/".to_string()),
                    },
                ],
            },
        ]
    );
}

#[test]
fn load_of_an_empty_list_is_an_empty_registry() {
    assert_eq!(FireChicken::load(&vec![]), Ok(FireChicken { members: vec![] }));
}

#[test]
fn load_keeps_the_order_of_the_list() {
    let ring = FireChicken::load(&vec![
        entry("z", "https://z.example/", "2023-01-01"),
        entry("a", "https://a.example/", "2022-01-01"),
        entry("m", "https://m.example/", "2024-01-01"),
    ])
    .unwrap();
    let slugs: Vec<&str> = ring.members().iter().map(|m| m.slug.as_str()).collect();
    assert_eq!(slugs, vec!["z", "a", "m"]);
}

#[test]
fn load_rejects_an_address_that_is_no_url() {
    let list = vec![
        entry("a", "https://a.example/", "2023-01-01"),
        entry("b", "not a url", "2023-01-01"),
    ];
    assert_eq!(
        FireChicken::load(&list),
        Err(Error::MalformedInput { entry: 1, fault: Fault::Url })
    );
    let relative = vec![entry("a", "/just/a/path", "2023-01-01")];
    assert_eq!(
        FireChicken::load(&relative),
        Err(Error::MalformedInput { entry: 0, fault: Fault::Url })
    );
}

#[test]
fn load_rejects_a_date_that_is_none() {
    for joined in ["yesterday", "2023-02-30", "2023-13-01", "13.11.2023", ""] {
        let list = vec![entry("a", "https://a.example/", joined)];
        assert_eq!(
            FireChicken::load(&list),
            Err(Error::MalformedInput { entry: 0, fault: Fault::Joined })
        );
    }
}

#[test]
fn load_rejects_a_feed_without_a_proper_address() {
    let mut a = entry("a", "https://a.example/", "2023-01-01");
    a.rss_feeds = vec![declared("https://a.example/feed.xml", None), declared("feed.xml", None)];
    assert_eq!(
        FireChicken::load(&vec![a]),
        Err(Error::MalformedInput { entry: 0, fault: Fault::FeedAddress })
    );
}

#[test]
fn load_rejects_a_feed_without_a_proper_landing_page() {
    let mut b = entry("b", "https://b.example/", "2023-01-01");
    b.rss_feeds = vec![declared("https://b.example/feed.xml", Some("blog"))];
    assert_eq!(
        FireChicken::load(&vec![entry("a", "https://a.example/", "2023-01-01"), b]),
        Err(Error::MalformedInput { entry: 1, fault: Fault::FeedLink })
    );
}

#[test]
fn load_rejects_a_repeated_slug() {
    let list = vec![
        entry("a", "https://a.example/", "2023-01-01"),
        entry("b", "https://b.example/", "2023-01-02"),
        entry("a", "https://other.example/", "2023-01-03"),
    ];
    assert_eq!(
        FireChicken::load(&list),
        Err(Error::MalformedInput { entry: 2, fault: Fault::DuplicateSlug })
    );
}

#[test]
fn load_reports_the_first_fault() {
    let mut c = entry("c", "nope", "never");
    c.rss_feeds = vec![declared("nope", Some("nope"))];
    let list = vec![
        entry("a", "https://a.example/", "2023-01-01"),
        entry("a", "https://a.example/", "never"),
        c,
    ];
    assert_eq!(
        FireChicken::load(&list),
        Err(Error::MalformedInput { entry: 1, fault: Fault::Joined })
    );
    let mut d = entry("d", "https://d.example/", "2023-01-01");
    d.rss_feeds = vec![declared("nope", Some("nope"))];
    assert_eq!(d.read(), Err(Fault::FeedAddress));
    assert_eq!(entry("e", "nope", "never").read(), Err(Fault::Url));
}

#[test]
fn entry_read_by_itself() {
    let member = entry("a", "https://a.example", "+12345-6-7").read().unwrap();
    assert_eq!(member.url, "https://a.example/");
    assert_eq!(member.joined, Date { year: 12345, month: 6, day: 7 });
    assert_eq!(member.slug, "a");
    assert_eq!(member.name, "a's site");
    assert!(!member.invalid);
}

#[test]
fn loaded_registry_can_be_navigated() {
    let mut b = entry("b", "https://b.example", "2023-01-02");
    b.invalid = true;
    let ring = FireChicken::load(&vec![
        entry("a", "https://a.example", "2023-01-01"),
        b,
        entry("c", "https://c.example", "2023-01-03"),
    ])
    .unwrap();
    assert_eq!(ring.prev_valid("a").unwrap().url, "https://c.example/");
    assert_eq!(ring.next_valid("c").unwrap().url, "https://a.example/");
    assert_eq!(ring.next_valid("b"), Err(Error::MemberNotFound));
}
