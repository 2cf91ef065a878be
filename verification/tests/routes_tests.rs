use httplite::RouteTable;

#[test]
fn dispatch_matches_registered_prefix() {
    let mut t: RouteTable<i32> = RouteTable::new();
    t.add_route("/ping", 7);
    assert_eq!(t.dispatch("/ping"), Some(&7));
    assert_eq!(t.dispatch("/ping/extra"), Some(&7));
}

#[test]
fn dispatch_on_empty_table() {
    let t: RouteTable<i32> = RouteTable::new();
    assert_eq!(t.dispatch("/anything"), None);
}

#[test]
fn dispatch_without_match() {
    let mut t: RouteTable<i32> = RouteTable::new();
    t.add_route("/ping", 7);
    assert_eq!(t.dispatch("/pong"), None);
    // The prefix must start the URL; a URL shorter than it cannot match.
    assert_eq!(t.dispatch("/pin"), None);
}

#[test]
fn overlapping_prefixes_resolve_to_first_registered() {
    // The scan order is pinned to registration order, so of two prefixes
    // that both start the URL the earlier-registered one wins.
    let mut t: RouteTable<i32> = RouteTable::new();
    t.add_route("/a", 1);
    t.add_route("/ab", 2);
    assert_eq!(t.dispatch("/ab"), Some(&1));
    let mut u: RouteTable<i32> = RouteTable::new();
    u.add_route("/ab", 2);
    u.add_route("/a", 1);
    assert_eq!(u.dispatch("/ab"), Some(&2));
}

#[test]
fn add_route_overwrites_existing_prefix() {
    let mut t: RouteTable<i32> = RouteTable::new();
    t.add_route("/a", 1);
    t.add_route("/b", 2);
    t.add_route("/a", 5);
    assert_eq!(t.dispatch("/a"), Some(&5));
    assert_eq!(t.dispatch("/b"), Some(&2));
}

#[test]
fn empty_prefix_matches_every_url() {
    let mut t: RouteTable<i32> = RouteTable::new();
    t.add_route("", 9);
    assert_eq!(t.dispatch("/whatever"), Some(&9));
    assert_eq!(t.dispatch(""), Some(&9));
}

#[test]
fn route_added_later_is_seen_by_next_dispatch() {
    let mut t: RouteTable<i32> = RouteTable::new();
    assert_eq!(t.dispatch("/late"), None);
    t.add_route("/late", 3);
    assert_eq!(t.dispatch("/late"), Some(&3));
}
