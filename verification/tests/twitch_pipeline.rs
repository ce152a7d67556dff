use channelwatch::outcome::FetchFailure;
use channelwatch::twitch::get_status_finish;
use channelwatch::twitch::get_status_from_page;
use channelwatch::twitch::LivePending;

fn live_page() -> String {
    let mut p = String::new();
    p.push_str("<html><head><meta name=\"description\" content=\"Playing chess live\">");
    p.push_str("</head><body><script>{\"isLiveBroadcast\":true}</script>");
    p.push_str("\"thumbnailUrl\":[\"https://static.example/thumb0.jpg\"],\"uploadDate\":\"2024\"");
    p.push_str("</body></html>");
    p
}

#[test]
fn missing_page_is_transport_error() {
    let r = get_status_from_page("alpha", None);
    assert_eq!(r.unwrap_err(), FetchFailure::TransportError);
}

#[test]
fn page_without_marker_is_not_live() {
    let page = "<html><meta name=\"description\" content=\"Offline channel\"></html>";
    let r = get_status_from_page("alpha", Some(page));
    assert_eq!(r.unwrap_err(), FetchFailure::NotLive);
}

#[test]
fn live_page_extracts_title_and_thumbnail() {
    let page = live_page();
    let pend = get_status_from_page("alpha", Some(&page)).unwrap();
    assert_eq!(pend.channel, "alpha");
    assert_eq!(pend.title, "Playing chess live");
    assert_eq!(pend.thumb, "https://static.example/thumb0.jpg");
}

#[test]
fn live_page_without_description_gives_empty_title() {
    let page = "{\"isLiveBroadcast\":true} \"thumbnailUrl\":[\"https://static.example/t.jpg\"],\"uploadDate\":\"x\"";
    let pend = get_status_from_page("alpha", Some(page)).unwrap();
    assert_eq!(pend.title, "");
    assert_eq!(pend.thumb, "https://static.example/t.jpg");
}

#[test]
fn live_page_without_thumbnail_fragment_gives_empty_thumb() {
    let page = "<meta name=\"description\" content=\"Here\"> {\"isLiveBroadcast\":true}";
    let pend = get_status_from_page("alpha", Some(page)).unwrap();
    assert_eq!(pend.title, "Here");
    assert_eq!(pend.thumb, "");
}

#[test]
fn failed_probe_drops_the_channel() {
    let pend = LivePending {
        channel: "alpha".to_string(),
        title: "Playing chess live".to_string(),
        thumb: "https://static.example/thumb0.jpg".to_string(),
    };
    let r = get_status_finish(pend, 404);
    assert_eq!(r.unwrap_err(), FetchFailure::VerificationFailed);
}

#[test]
fn ok_probe_yields_record_with_embed_link() {
    let pend = LivePending {
        channel: "alpha".to_string(),
        title: "Playing chess live".to_string(),
        thumb: "https://static.example/thumb0.jpg".to_string(),
    };
    let c = get_status_finish(pend, 200).unwrap();
    assert_eq!(c.channel, "alpha");
    assert_eq!(c.title, "Playing chess live");
    assert_eq!(c.thumb, "https://static.example/thumb0.jpg");
    assert_eq!(
        c.link,
        "https://embed.twitch.tv/?channel=alpha&parent=localhost&muted=false&layout=video"
    );
}

#[test]
fn marker_beats_other_content() {
    let page = "<html>lots of unrelated text isLiveBroadcast\":true} more text</html>";
    let r = get_status_from_page("alpha", Some(page));
    assert!(r.is_ok());
}
