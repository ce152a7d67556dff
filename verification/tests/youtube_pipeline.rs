use channelwatch::outcome::FetchFailure;
use channelwatch::youtube::get_videos_from_page;

fn fragment(id: &str, thumb: &str, title: &str, time: &str) -> String {
    let mut f = String::new();
    f.push_str("{\"videoId\":\"");
    f.push_str(id);
    f.push_str("\",\"thumbnail\":{\"thumbnails\":[{\"url\":\"");
    f.push_str(thumb);
    f.push_str("?size=small\",\"width\":168},{\"url\":\"");
    f.push_str(thumb);
    f.push_str("\",\"width\":336}]},\"title\":{\"runs\":[{\"text\":\"");
    f.push_str(title);
    f.push_str("\"}]},\"publishedTimeText\":{\"simpleText\":\"");
    f.push_str(time);
    f.push_str("\"}}");
    f
}

#[test]
fn missing_page_is_transport_failure() {
    let r = get_videos_from_page("chan", None);
    assert_eq!(r.unwrap_err(), FetchFailure::TransportError);
}

#[test]
fn page_without_fragments_yields_empty_record() {
    let r = get_videos_from_page("chan", Some("<html>no videos here</html>"));
    let yc = r.unwrap();
    assert_eq!(yc.channel, "chan");
    assert!(yc.videos.is_empty());
}

#[test]
fn three_fragments_yield_three_records_in_order() {
    let mut page = String::from("{\"contents\":[");
    page.push_str(&fragment("AAAAAAAAAAA", "https://img.example/a.jpg", "First video", "1 day ago"));
    page.push(',');
    page.push_str(&fragment("BBBBBBBBBBB", "https://img.example/b.jpg", "Second video", "2 days ago"));
    page.push(',');
    page.push_str(&fragment("CCCCCCCCCCC", "https://img.example/c.jpg", "Third video", "3 weeks ago"));
    page.push_str("]}");
    let yc = get_videos_from_page("chan", Some(&page)).unwrap();
    assert_eq!(yc.videos.len(), 3);
    assert_eq!(yc.videos[0].title, "First video");
    assert_eq!(yc.videos[0].thumb, "https://img.example/a.jpg");
    assert_eq!(yc.videos[0].time, "1 day ago");
    assert_eq!(yc.videos[0].link, "https://youtube.com/watch?id=AAAAAAAAAAA");
    assert_eq!(yc.videos[1].title, "Second video");
    assert_eq!(yc.videos[1].link, "https://youtube.com/watch?id=BBBBBBBBBBB");
    assert_eq!(yc.videos[2].title, "Third video");
    assert_eq!(yc.videos[2].thumb, "https://img.example/c.jpg");
    assert_eq!(yc.videos[2].time, "3 weeks ago");
    assert_eq!(yc.videos[2].link, "https://youtube.com/watch?id=CCCCCCCCCCC");
}

#[test]
fn fragment_with_bad_id_is_skipped() {
    let mut page = String::new();
    page.push_str(&fragment("BAD?ID_HERE", "https://img.example/x.jpg", "Broken", "now"));
    page.push('\n');
    page.push_str(&fragment("GGGGGGGGGGG", "https://img.example/g.jpg", "Good", "4 days ago"));
    let yc = get_videos_from_page("chan", Some(&page)).unwrap();
    assert_eq!(yc.videos.len(), 1);
    assert_eq!(yc.videos[0].title, "Good");
    assert_eq!(yc.videos[0].link, "https://youtube.com/watch?id=GGGGGGGGGGG");
}

#[test]
fn fragment_with_short_id_is_skipped() {
    let page = fragment("SHORT", "https://img.example/s.jpg", "Short id", "now");
    let yc = get_videos_from_page("chan", Some(&page)).unwrap();
    assert!(yc.videos.is_empty());
}

#[test]
fn truncated_fragment_yields_nothing() {
    let page = "{\"videoId\":\"AAAAAAAAAAA\",\"thumbnail\":{\"thumbnails\":[{\"url\":\"https://img.example/a.jpg\"";
    let yc = get_videos_from_page("chan", Some(page)).unwrap();
    assert!(yc.videos.is_empty());
}
