use owl_control::recordings::Newest;
use owl_control::sort::stable_sort_by_key;

fn keyed(items: &[(i128, &'static str)]) -> Vec<(Newest, &'static str)> {
    items.iter().map(|(n, s)| (Newest { nanos: *n }, *s)).collect()
}

fn labels(v: &[(Newest, &'static str)]) -> Vec<&'static str> {
    v.iter().map(|p| p.1).collect()
}

#[test]
fn stable_sort_orders_by_key_and_keeps_ties_in_order() {
    let out = stable_sort_by_key(keyed(&[(1, "a"), (3, "b"), (1, "c"), (2, "d"), (3, "e")]));
    assert_eq!(labels(&out), vec!["b", "e", "d", "a", "c"]);
}

#[test]
fn stable_sort_keeps_every_item_once() {
    let input = [(5, "x"), (-2, "y"), (5, "z"), (0, "w")];
    let out = stable_sort_by_key(keyed(&input));
    let mut got = labels(&out);
    got.sort();
    let mut want: Vec<&str> = input.iter().map(|p| p.1).collect();
    want.sort();
    assert_eq!(got, want);
}

#[test]
fn stable_sort_has_one_outcome() {
    let input = [(7, "p"), (7, "q"), (9, "r"), (7, "s")];
    let once = labels(&stable_sort_by_key(keyed(&input)));
    let twice = labels(&stable_sort_by_key(stable_sort_by_key(keyed(&input))));
    assert_eq!(once, twice);
    assert_eq!(once, vec!["r", "p", "q", "s"]);
}

#[test]
fn stable_sort_of_nothing_is_nothing() {
    assert!(stable_sort_by_key(keyed(&[])).is_empty());
}
