use channelwatch::subscriptions::parse_subscriptions;
use channelwatch::subscriptions::SubscriptionList;

fn strings(list: &SubscriptionList) -> Vec<&str> {
    list.entries.iter().map(|s| s.as_str()).collect()
}

#[test]
fn parse_three_entries() {
    let list = parse_subscriptions("alpha;beta;gamma");
    assert_eq!(strings(&list), vec!["alpha", "beta", "gamma"]);
}

#[test]
fn parse_single_entry() {
    let list = parse_subscriptions("alpha");
    assert_eq!(strings(&list), vec!["alpha"]);
}

#[test]
fn parse_empty_text_gives_one_empty_entry() {
    let list = parse_subscriptions("");
    assert_eq!(strings(&list), vec![""]);
}

#[test]
fn parse_keeps_empty_fields() {
    let list = parse_subscriptions("alpha;;beta");
    assert_eq!(strings(&list), vec!["alpha", "", "beta"]);
}

#[test]
fn add_appends_new_entry() {
    let mut list = parse_subscriptions("alpha;beta");
    let added = list.add("gamma");
    assert!(added);
    assert_eq!(strings(&list), vec!["alpha", "beta", "gamma"]);
}

#[test]
fn add_twice_equals_add_once() {
    let mut once = parse_subscriptions("alpha");
    once.add("beta");
    let mut twice = parse_subscriptions("alpha");
    twice.add("beta");
    let second = twice.add("beta");
    assert!(!second);
    assert_eq!(strings(&once), strings(&twice));
}

#[test]
fn add_present_entry_changes_nothing() {
    let mut list = parse_subscriptions("alpha;beta");
    let added = list.add("alpha");
    assert!(!added);
    assert_eq!(strings(&list), vec!["alpha", "beta"]);
}

#[test]
fn remove_absent_entry_changes_nothing() {
    let mut list = parse_subscriptions("alpha;beta");
    list.remove("gamma");
    assert_eq!(strings(&list), vec!["alpha", "beta"]);
}

#[test]
fn remove_present_entry_keeps_order() {
    let mut list = parse_subscriptions("alpha;beta;gamma");
    list.remove("beta");
    assert_eq!(strings(&list), vec!["alpha", "gamma"]);
}

#[test]
fn contains_finds_only_present_entries() {
    let list = parse_subscriptions("alpha;beta");
    assert!(list.contains_channel("alpha"));
    assert!(list.contains_channel("beta"));
    assert!(!list.contains_channel("gamma"));
}

#[test]
fn to_text_round_trips() {
    let text = "alpha;beta;gamma";
    let list = parse_subscriptions(text);
    assert_eq!(list.to_text(), text);
}

#[test]
fn to_text_after_add_and_remove() {
    let mut list = parse_subscriptions("alpha;beta");
    list.add("gamma");
    list.remove("alpha");
    assert_eq!(list.to_text(), "beta;gamma");
}
