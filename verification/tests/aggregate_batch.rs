use channelwatch::outcome::aggregate;
use channelwatch::outcome::FetchFailure;
use channelwatch::twitch::get_status_finish;
use channelwatch::twitch::get_status_from_page;
use channelwatch::twitch::TwitchChannel;

fn live_page() -> String {
    let mut p = String::new();
    p.push_str("<meta name=\"description\" content=\"Live now\">");
    p.push_str("{\"isLiveBroadcast\":true}");
    p.push_str("\"thumbnailUrl\":[\"https://static.example/a.jpg\"],\"uploadDate\":\"2024\"");
    p
}

fn run_pipeline(channel: &str, page: Option<&str>, probe_status: u16) -> Result<
    TwitchChannel,
    FetchFailure,
> {
    match get_status_from_page(channel, page) {
        Err(f) => Err(f),
        Ok(pending) => get_status_finish(pending, probe_status),
    }
}

#[test]
fn batch_keeps_only_the_live_channel() {
    let page_a = live_page();
    let outcomes = vec![
        run_pipeline("alpha", Some(&page_a), 200),
        run_pipeline("beta", None, 200),
        run_pipeline("gamma", Some("<html>quiet today</html>"), 200),
    ];
    let records = aggregate(outcomes);
    assert_eq!(records.len(), 1);
    assert_eq!(records[0].channel, "alpha");
    assert_eq!(records[0].title, "Live now");
}

#[test]
fn batch_of_failures_is_empty_not_an_error() {
    let outcomes: Vec<Result<TwitchChannel, FetchFailure>> = vec![
        run_pipeline("alpha", None, 200),
        run_pipeline("beta", Some("nothing live"), 200),
    ];
    let records = aggregate(outcomes);
    assert!(records.is_empty());
}

#[test]
fn empty_batch_yields_empty_result() {
    let outcomes: Vec<Result<u64, FetchFailure>> = Vec::new();
    let records = aggregate(outcomes);
    assert!(records.is_empty());
}

#[test]
fn result_is_never_larger_than_the_batch() {
    let outcomes: Vec<Result<u64, FetchFailure>> = vec![
        Ok(1),
        Err(FetchFailure::TransportError),
        Ok(2),
        Err(FetchFailure::NotLive),
        Err(FetchFailure::ParseMiss),
        Err(FetchFailure::VerificationFailed),
        Ok(3),
    ];
    let n = outcomes.len();
    let records = aggregate(outcomes);
    assert!(records.len() <= n);
    assert_eq!(records, vec![1, 2, 3]);
}

#[test]
fn verification_failure_is_dropped_like_not_live() {
    let page_a = live_page();
    let outcomes = vec![run_pipeline("alpha", Some(&page_a), 404)];
    let records = aggregate(outcomes);
    assert!(records.is_empty());
}
