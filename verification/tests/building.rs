use filter_catalog::builder::CatalogBuilder;
use filter_catalog::detail::parse_filter_details;
use filter_catalog::listing::parse_filter_list;
use filter_catalog::model::Filter;
use filter_catalog::session::{Action, Event, Session};

const LISTING: &str = "Filters:\n  T.. = Timeline support\n ... anull A->A Pass the source unchanged to the output.\n T.C volume A->A Change input volume.\n .S. yadif V->V Deinterlace the input image.\n";

fn report(name: &str) -> String {
    format!(
        "Filter {n}\n    Inputs:\n       #0: default (audio)\n    Outputs:\n       #0: default (audio)\n{n} AVOptions:\n   level <int> ..F (default \"{n}\")\n",
        n = name
    )
}

fn expected() -> Vec<Filter> {
    parse_filter_list(LISTING)
        .into_iter()
        .map(|f| {
            let r = report(&f.name);
            parse_filter_details(f, &r)
        })
        .collect()
}

fn build_in_order(order: &[usize]) -> Vec<Filter> {
    let mut b = CatalogBuilder::begin(LISTING);
    let names = b.names();
    for &i in order {
        assert!(b.accept(i, &report(&names[i])));
    }
    b.finish().unwrap()
}

#[test]
fn builder_starts_with_the_listed_filters() {
    let b = CatalogBuilder::begin(LISTING);
    assert_eq!(b.len(), 3);
    assert_eq!(b.names(), vec!["anull", "volume", "yadif"]);
    assert!(!b.is_complete());
    assert!(b.finish().is_err());
}

#[test]
fn builder_of_an_empty_listing_is_complete() {
    let b = CatalogBuilder::begin("Filters:\n");
    assert_eq!(b.len(), 0);
    assert!(b.names().is_empty());
    assert!(b.is_complete());
    assert_eq!(b.finish().unwrap(), Vec::<Filter>::new());
}

#[test]
fn catalog_has_one_entry_per_filter_in_any_order() {
    let want = expected();
    assert_eq!(want.len(), 3);
    for order in [[0, 1, 2], [0, 2, 1], [1, 0, 2], [1, 2, 0], [2, 0, 1], [2, 1, 0]] {
        let got = build_in_order(&order);
        assert_eq!(got.len(), 3);
        assert_eq!(got, want);
    }
    assert_eq!(want[1].options[0].default, "volume");
    assert_eq!(want[2].name, "yadif");
}

#[test]
fn builder_takes_each_report_once() {
    let mut b = CatalogBuilder::begin(LISTING);
    assert!(b.accept(1, &report("volume")));
    assert!(!b.accept(1, &report("other")));
    assert!(!b.accept(3, &report("nobody")));
    assert!(!b.abandon(1));
    assert!(!b.abandon(7));
    assert!(!b.is_complete());
    let b = match b.finish() {
        Ok(_) => panic!("a catalog before every filter is settled"),
        Err(b) => b,
    };
    let mut b = b;
    assert!(b.accept(0, &report("anull")));
    assert!(b.accept(2, &report("yadif")));
    assert!(b.is_complete());
    assert_eq!(b.finish().unwrap(), expected());
}

#[test]
fn abandoned_filter_stays_as_listed() {
    let mut b = CatalogBuilder::begin(LISTING);
    assert!(b.abandon(0));
    assert!(b.accept(1, &report("volume")));
    assert!(b.abandon(2));
    let got = b.finish().unwrap();
    let listed = parse_filter_list(LISTING);
    assert_eq!(got[0], listed[0]);
    assert_eq!(got[1], expected()[1]);
    assert_eq!(got[2], listed[2]);
}

#[test]
fn session_reuses_a_stored_catalog() {
    let s = Session::start();
    assert!(!s.is_done());
    let (s, a) = s.step(Event::CacheRead(Some("[{\"name\":\"x\"}]".to_string())));
    assert_eq!(a, Action::Return("[{\"name\":\"x\"}]".to_string()));
    assert!(s.is_done());
    let (s, a) = s.step(Event::Listing(LISTING.to_string()));
    assert_eq!(a, Action::Wait);
    assert!(s.is_done());
}

#[test]
fn session_builds_on_an_empty_cache() {
    let (s, a) = Session::start().step(Event::CacheRead(None));
    assert_eq!(a, Action::FetchListing);
    let (s, a) = s.step(Event::Listing(LISTING.to_string()));
    assert_eq!(
        a,
        Action::FetchDetails(vec!["anull".to_string(), "volume".to_string(), "yadif".to_string()])
    );
    let (s, a) = s.step(Event::Detail(2, report("yadif")));
    assert_eq!(a, Action::Wait);
    let (s, a) = s.step(Event::Detail(2, report("again")));
    assert_eq!(a, Action::Wait);
    let (s, a) = s.step(Event::Encoded("too early".to_string()));
    assert_eq!(a, Action::Wait);
    let (s, a) = s.step(Event::Detail(0, report("anull")));
    assert_eq!(a, Action::Wait);
    assert!(!s.is_done());
    let (s, a) = s.step(Event::Detail(1, report("volume")));
    assert_eq!(a, Action::Encode(expected()));
    let (s, a) = s.step(Event::Detail(1, report("late")));
    assert_eq!(a, Action::Wait);
    let (s, a) = s.step(Event::Encoded("[...]".to_string()));
    assert_eq!(a, Action::StoreAndReturn("[...]".to_string()));
    assert!(s.is_done());
    let (_, a) = s.step(Event::CacheRead(None));
    assert_eq!(a, Action::Wait);
}

#[test]
fn session_with_an_empty_listing_encodes_at_once() {
    let (s, _) = Session::start().step(Event::CacheRead(None));
    let (s, a) = s.step(Event::Listing("Filters:\n".to_string()));
    assert_eq!(a, Action::Encode(Vec::new()));
    let (s, a) = s.step(Event::Encoded("[]".to_string()));
    assert_eq!(a, Action::StoreAndReturn("[]".to_string()));
    assert!(s.is_done());
}

#[test]
fn session_degrades_a_failed_detail_fetch() {
    let (s, _) = Session::start().step(Event::CacheRead(None));
    let (s, _) = s.step(Event::Listing(LISTING.to_string()));
    let (s, a) = s.step(Event::DetailFailed(0));
    assert_eq!(a, Action::Wait);
    let (s, _) = s.step(Event::Detail(1, report("volume")));
    let (_, a) = s.step(Event::DetailFailed(2));
    let listed = parse_filter_list(LISTING);
    let want = vec![listed[0].clone(), expected()[1].clone(), listed[2].clone()];
    assert_eq!(a, Action::Encode(want));
}

#[test]
fn session_ignores_events_it_does_not_wait_for() {
    let (s, a) = Session::start().step(Event::Listing(LISTING.to_string()));
    assert_eq!(a, Action::Wait);
    let (s, a) = s.step(Event::Detail(0, report("anull")));
    assert_eq!(a, Action::Wait);
    let (s, a) = s.step(Event::CacheRead(None));
    assert_eq!(a, Action::FetchListing);
    let (s, a) = s.step(Event::CacheRead(None));
    assert_eq!(a, Action::Wait);
    let (_, a) = s.step(Event::Detail(0, report("anull")));
    assert_eq!(a, Action::Wait);
}

#[test]
fn second_query_returns_what_the_first_stored() {
    let mut store: Option<String> = None;
    let mut engine_calls = 0;
    let mut answers: Vec<String> = Vec::new();
    for _ in 0..2 {
        let (mut s, mut a) = Session::start().step(Event::CacheRead(store.clone()));
        loop {
            let event = match a {
                Action::FetchListing => {
                    engine_calls += 1;
                    Event::Listing(LISTING.to_string())
                }
                Action::FetchDetails(names) => {
                    // Deliver all but the last without looking at the answers,
                    // in reverse order of the listing.
                    let mut last = None;
                    for (i, name) in names.iter().enumerate().rev() {
                        engine_calls += 1;
                        last = Some(Event::Detail(i, report(name)));
                        if i > 0 {
                            let (next, act) = s.step(last.take().unwrap());
                            assert_eq!(act, Action::Wait);
                            s = next;
                        }
                    }
                    last.unwrap()
                }
                Action::Encode(catalog) => {
                    assert_eq!(catalog, expected());
                    Event::Encoded(format!("{} filters", catalog.len()))
                }
                Action::StoreAndReturn(text) => {
                    store = Some(text.clone());
                    answers.push(text);
                    break;
                }
                Action::Return(text) => {
                    answers.push(text);
                    break;
                }
                Action::Wait => panic!("the session waits with nothing under way"),
            };
            let (next, act) = s.step(event);
            s = next;
            a = act;
        }
        assert!(s.is_done());
    }
    assert_eq!(answers, vec!["3 filters".to_string(), "3 filters".to_string()]);
    assert_eq!(store, Some("3 filters".to_string()));
    assert_eq!(engine_calls, 4);
}
