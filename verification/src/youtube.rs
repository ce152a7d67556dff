//! The YouTube pipeline: extract the video entries of a fetched channel
//! page, in payload order.
//!
//! One video fragment is an occurrence of the videoId marker followed by an
//! 11-character id (no quote, ampersand, question mark or whitespace), the
//! thumbnail marker, and three bridged captures: the thumbnail URL, the
//! title text and the relative publish time. Each bridge runs to the next
//! occurrence of its opening fragment without crossing a newline, each
//! capture to the next quote; a fragment that does not fit this shape is
//! skipped whole, and zero fragments is a valid, non-error outcome.

use vstd::prelude::*;
use vstd::string::StrSliceExecFns;
use vstd::string::StringExecFns;
use crate::outcome::FetchFailure;
use crate::text::find;
use crate::text::find_from;
use crate::text::is_space;
use crate::text::lemma_find_from;
use crate::text::lemma_scan_to;
use crate::text::match_at;
use crate::text::match_here;
use crate::text::quote;
use crate::text::scan_seg;
use crate::text::scan_to;
use crate::text::space_char;

verus! {

/// One extracted video entry of a channel.
#[derive(Debug)]
pub struct YoutubeVideo {
    /// The title text of the video.
    pub title: String,
    /// The thumbnail URL of the video.
    pub thumb: String,
    /// The watch link constructed from the captured video id.
    pub link: String,
    /// The human-readable relative publish time.
    pub time: String,
}

/// The extracted video entries of one channel, in payload order.
#[derive(Debug)]
pub struct YoutubeChannel {
    /// The channel identifier the pipeline ran for.
    pub channel: String,
    /// The extracted entries; empty when no fragment matched.
    pub videos: Vec<YoutubeVideo>,
}

/// The fragment that opens a video entry, directly before the id.
pub open spec fn vid_marker() -> Seq<char> {
    "\"videoId\":\""@
}

/// The fragment that must follow the 11-character id.
pub open spec fn thumb_marker() -> Seq<char> {
    "\",\"thumbnail\":"@
}

/// The fragment that opens the thumbnail array.
pub open spec fn br_open() -> Seq<char> {
    "[{"@
}

/// The fragment that opens the thumbnail URL capture.
pub open spec fn url_prefix() -> Seq<char> {
    "{\"url\":\""@
}

/// The fragment that closes the thumbnail array.
pub open spec fn br_close() -> Seq<char> {
    "}]}"@
}

/// The fragment that opens the title capture.
pub open spec fn title_prefix() -> Seq<char> {
    "\"title\":{\"runs\":[{\"text\":\""@
}

/// The fragment that opens the publish-time capture.
pub open spec fn time_prefix() -> Seq<char> {
    "\"publishedTimeText\":{\"simpleText\":\""@
}

/// The fixed head of a constructed watch link.
pub open spec fn watch_prefix() -> Seq<char> {
    "https://youtube.com/watch?id="@
}

/// The four captures of one video fragment.
pub ghost struct VideoFacts {
    /// The 11-character video id.
    pub id: Seq<char>,
    /// The thumbnail URL.
    pub thumb: Seq<char>,
    /// The title text.
    pub title: Seq<char>,
    /// The relative publish time.
    pub time: Seq<char>,
}

/// A videoId character: not a quote, ampersand, question mark or
/// whitespace.
pub open spec fn is_id_char(c: char) -> bool {
    c != '"' && c != '&' && c != '?' && !is_space(c)
}

/// The 11 characters at `lo` are all id characters.
pub open spec fn id_chars_ok(s: Seq<char>, lo: int) -> bool {
    forall|k: int| lo <= k < lo + 11 ==> is_id_char(s[k])
}

/// The candidate video fragment at `i`, an occurrence of the videoId
/// marker: `Some` gives the captures and the position after the fragment.
pub open spec fn video_cand(s: Seq<char>, i: int) -> Option<(VideoFacts, int)> {
    let id_lo = i + vid_marker().len();
    let tm_at = id_lo + 11;
    if tm_at + thumb_marker().len() <= s.len() && id_chars_ok(s, id_lo) && match_at(
        s,
        thumb_marker(),
        tm_at,
    ) {
        match scan_to(s, br_open(), tm_at + thumb_marker().len()) {
            Some(j1) => match scan_to(s, url_prefix(), j1 + br_open().len()) {
                Some(j2) => match scan_to(s, quote(), j2 + url_prefix().len()) {
                    Some(p1) => match scan_to(s, br_close(), p1 + 1) {
                        Some(j3) => match scan_to(s, title_prefix(), j3 + br_close().len()) {
                            Some(j4) => match scan_to(s, quote(), j4 + title_prefix().len()) {
                                Some(p2) => match scan_to(s, time_prefix(), p2 + 1) {
                                    Some(j5) => match scan_to(
                                        s,
                                        quote(),
                                        j5 + time_prefix().len(),
                                    ) {
                                        Some(p3) => Some(
                                            (
                                                VideoFacts {
                                                    id: s.subrange(id_lo, id_lo + 11),
                                                    thumb: s.subrange(
                                                        j2 + url_prefix().len(),
                                                        p1,
                                                    ),
                                                    title: s.subrange(
                                                        j4 + title_prefix().len(),
                                                        p2,
                                                    ),
                                                    time: s.subrange(
                                                        j5 + time_prefix().len(),
                                                        p3,
                                                    ),
                                                },
                                                p3 + 1,
                                            ),
                                        ),
                                        None => None,
                                    },
                                    None => None,
                                },
                                None => None,
                            },
                            None => None,
                        },
                        None => None,
                    },
                    None => None,
                },
                None => None,
            },
            None => None,
        }
    } else {
        None
    }
}

/// A successful candidate ends after its start and within the payload.
pub proof fn lemma_video_cand(s: Seq<char>, i: int)
    requires
        0 <= i,
    ensures
        video_cand(s, i) matches Some(fe) ==> i < fe.1 <= s.len(),
{
    reveal_strlit("\"");
    let id_lo = i + vid_marker().len();
    let tm_at = id_lo + 11;
    let e0 = tm_at + thumb_marker().len();
    lemma_scan_to(s, br_open(), e0);
    if let Some(j1) = scan_to(s, br_open(), e0) {
        lemma_scan_to(s, url_prefix(), j1 + br_open().len());
        if let Some(j2) = scan_to(s, url_prefix(), j1 + br_open().len()) {
            lemma_scan_to(s, quote(), j2 + url_prefix().len());
            if let Some(p1) = scan_to(s, quote(), j2 + url_prefix().len()) {
                lemma_scan_to(s, br_close(), p1 + 1);
                if let Some(j3) = scan_to(s, br_close(), p1 + 1) {
                    lemma_scan_to(s, title_prefix(), j3 + br_close().len());
                    if let Some(j4) = scan_to(s, title_prefix(), j3 + br_close().len()) {
                        lemma_scan_to(s, quote(), j4 + title_prefix().len());
                        if let Some(p2) = scan_to(s, quote(), j4 + title_prefix().len()) {
                            lemma_scan_to(s, time_prefix(), p2 + 1);
                            if let Some(j5) = scan_to(s, time_prefix(), p2 + 1) {
                                lemma_scan_to(s, quote(), j5 + time_prefix().len());
                            }
                        }
                    }
                }
            }
        }
    }
}

/// The video fragments of `s` from `pos` on, in payload order.
pub open spec fn videos_from(s: Seq<char>, pos: int) -> Seq<VideoFacts>
    decreases s.len() + 1 - pos
        when 0 <= pos
        via videos_from_dec
{
    match find_from(s, vid_marker(), pos) {
        None => Seq::empty(),
        Some(i) => match video_cand(s, i) {
            Some(fe) => seq![fe.0] + videos_from(s, fe.1),
            None => videos_from(s, i + 1),
        },
    }
}

#[via_fn]
proof fn videos_from_dec(s: Seq<char>, pos: int) {
    lemma_find_from(s, vid_marker(), pos);
    if let Some(i) = find_from(s, vid_marker(), pos) {
        lemma_video_cand(s, i);
    }
}

/// An extracted record carries the captures of its fragment; the watch
/// link is derived from the captured id.
pub open spec fn video_matches(v: YoutubeVideo, f: VideoFacts) -> bool {
    &&& v.title@ == f.title
    &&& v.thumb@ == f.thumb
    &&& v.time@ == f.time
    &&& v.link@ == watch_prefix() + f.id
}

/// The records correspond one-to-one, in order, to the captures.
pub open spec fn videos_match(vs: Seq<YoutubeVideo>, fs: Seq<VideoFacts>) -> bool {
    &&& vs.len() == fs.len()
    &&& forall|k: int| 0 <= k < fs.len() ==> video_matches(vs[k], fs[k])
}

/// The 11 characters at `lo` are all id characters (executable check).
fn id_chars_here(s: &str, lo: usize) -> (r: bool)
    requires
        lo + 11 <= s@.len(),
        s@.len() <= usize::MAX,
    ensures
        r == id_chars_ok(s@, lo as int),
{
    let mut k: usize = 0;
    while k < 11
        invariant
            lo + 11 <= s@.len(),
            s@.len() <= usize::MAX,
            k <= 11,
            forall|t: int| lo <= t < lo + k ==> is_id_char(s@[t]),
        decreases 11 - k,
    {
        let c = s.get_char(lo + k);
        if c == '"' || c == '&' || c == '?' || space_char(c) {
            proof {
                assert(!is_id_char(s@[lo + k]));
            }
            return false;
        }
        k += 1;
    }
    true
}

/// Evaluate the candidate fragment at `i`, an occurrence of the videoId
/// marker: the record and the position after the fragment, or nothing.
fn try_video_at(s: &str, i: usize) -> (r: Option<(YoutubeVideo, usize)>)
    requires
        s@.len() <= usize::MAX,
        i + vid_marker().len() <= s@.len(),
    ensures
        r matches Some(ve) ==> (video_cand(s@, i as int) matches Some(fe) && ve.1 as int == fe.1
            && i < ve.1 <= s@.len() && video_matches(ve.0, fe.0)),
        r is None ==> video_cand(s@, i as int) is None,
{
    let vm = "\"videoId\":\"";
    let tm = "\",\"thumbnail\":";
    let bo = "[{";
    let up = "{\"url\":\"";
    let bc = "}]}";
    let tp = "\"title\":{\"runs\":[{\"text\":\"";
    let pp = "\"publishedTimeText\":{\"simpleText\":\"";
    proof {
        reveal_strlit("\"");
        reveal_strlit("\"videoId\":\"");
        reveal_strlit("\",\"thumbnail\":");
        reveal_strlit("[{");
        reveal_strlit("{\"url\":\"");
        reveal_strlit("}]}");
        reveal_strlit("\"title\":{\"runs\":[{\"text\":\"");
        reveal_strlit("\"publishedTimeText\":{\"simpleText\":\"");
        assert(vm@ == vid_marker());
        assert(tm@ == thumb_marker());
        assert(bo@ == br_open());
        assert(up@ == url_prefix());
        assert(bc@ == br_close());
        assert(tp@ == title_prefix());
        assert(pp@ == time_prefix());
        assert("\""@ == quote());
    }
    let n: usize = s.unicode_len();
    let vml: usize = vm.unicode_len();
    let tml: usize = tm.unicode_len();
    let bol: usize = bo.unicode_len();
    let upl: usize = up.unicode_len();
    let bcl: usize = bc.unicode_len();
    let tpl: usize = tp.unicode_len();
    let ppl: usize = pp.unicode_len();
    let id_lo: usize = i + vml;
    if n - id_lo < 11 {
        return None;
    }
    let tm_at: usize = id_lo + 11;
    if n - tm_at < tml {
        return None;
    }
    if !id_chars_here(s, id_lo) {
        return None;
    }
    if !match_here(s, tm, tm_at) {
        return None;
    }
    let e0: usize = tm_at + tml;
    let j1 = match scan_seg(s, bo, e0) {
        Some(j) => j,
        None => {
            return None;
        },
    };
    let j2 = match scan_seg(s, up, j1 + bol) {
        Some(j) => j,
        None => {
            return None;
        },
    };
    let c1: usize = j2 + upl;
    let p1 = match scan_seg(s, "\"", c1) {
        Some(j) => j,
        None => {
            return None;
        },
    };
    let j3 = match scan_seg(s, bc, p1 + 1) {
        Some(j) => j,
        None => {
            return None;
        },
    };
    let j4 = match scan_seg(s, tp, j3 + bcl) {
        Some(j) => j,
        None => {
            return None;
        },
    };
    let c2: usize = j4 + tpl;
    let p2 = match scan_seg(s, "\"", c2) {
        Some(j) => j,
        None => {
            return None;
        },
    };
    let j5 = match scan_seg(s, pp, p2 + 1) {
        Some(j) => j,
        None => {
            return None;
        },
    };
    let c3: usize = j5 + ppl;
    let p3 = match scan_seg(s, "\"", c3) {
        Some(j) => j,
        None => {
            return None;
        },
    };
    let id_str = s.substring_char(id_lo, tm_at);
    let video = YoutubeVideo {
        title: s.substring_char(c2, p2).to_owned(),
        thumb: s.substring_char(c1, p1).to_owned(),
        link: String::from_str("https://youtube.com/watch?id=").concat(id_str),
        time: s.substring_char(c3, p3).to_owned(),
    };
    proof {
        lemma_video_cand(s@, i as int);
        assert(video_cand(s@, i as int) is Some);
        assert((video_cand(s@, i as int)->0).1 == p3 + 1);
        assert(video_matches(video, (video_cand(s@, i as int)->0).0));
    }
    Some((video, p3 + 1))
}

/// Extract all video fragments of a payload, in payload order.
fn videos_of(s: &str) -> (out: Vec<YoutubeVideo>)
    ensures
        videos_match(out@, videos_from(s@, 0)),
{
    let vm = "\"videoId\":\"";
    proof {
        reveal_strlit("\"videoId\":\"");
        assert(vm@ == vid_marker());
    }
    let n: usize = s.unicode_len();
    let mut out: Vec<YoutubeVideo> = Vec::new();
    let ghost mut facts: Seq<VideoFacts> = Seq::empty();
    let mut pos: usize = 0;
    proof {
        assert(facts + videos_from(s@, 0) =~= videos_from(s@, 0));
    }
    loop
        invariant
            n == s@.len(),
            pos <= n,
            vm@ == vid_marker(),
            1 <= vid_marker().len(),
            videos_from(s@, 0) == facts + videos_from(s@, pos as int),
            videos_match(out@, facts),
        decreases n + 1 - pos,
    {
        match find(s, vm, pos) {
            None => {
                proof {
                    assert(videos_from(s@, pos as int) =~= Seq::<VideoFacts>::empty());
                    assert(videos_from(s@, 0) =~= facts);
                }
                return out;
            },
            Some(i) => {
                match try_video_at(s, i) {
                    Some(ve) => {
                        let (v, end) = ve;
                        proof {
                            let fe = video_cand(s@, i as int)->0;
                            assert(videos_from(s@, pos as int) == seq![fe.0] + videos_from(
                                s@,
                                fe.1,
                            ));
                            facts = facts.push(fe.0);
                            assert(facts + videos_from(s@, end as int) =~= videos_from(s@, 0));
                        }
                        out.push(v);
                        proof {
                            assert(videos_match(out@, facts));
                        }
                        pos = end;
                    },
                    None => {
                        proof {
                            assert(videos_from(s@, pos as int) == videos_from(s@, i + 1));
                        }
                        pos = i + 1;
                    },
                }
            },
        }
    }
}

/// Run the extraction for one fetched channel page. A missing payload is a
/// transport failure; any fetched payload yields a record, possibly with
/// zero videos: no matching fragment is a valid, non-error outcome.
pub fn get_videos_from_page(channel: &str, page: Option<&str>) -> (r: Result<
    YoutubeChannel,
    FetchFailure,
>)
    ensures
        page is None ==> (r matches Err(f) && f == FetchFailure::TransportError),
        page is Some ==> (r matches Ok(yc) && yc.channel@ == channel@ && videos_match(
            yc.videos@,
            videos_from((page->0)@, 0),
        )),
{
    match page {
        None => Err(FetchFailure::TransportError),
        Some(p) => {
            let videos = videos_of(p);
            Ok(YoutubeChannel { channel: channel.to_owned(), videos })
        },
    }
}

} // verus!
