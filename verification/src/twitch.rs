//! The Twitch pipeline: classify a fetched channel page as live or not,
//! extract the title and thumbnail, and complete the classification with
//! the result of the liveness probe against the thumbnail URL.
//!
//! A page is considered live when it carries the live-broadcast marker
//! fragment. The title is captured after a meta-description prefix, the
//! thumbnail from the quoted fragment that opens the upload-date key; a
//! miss of either capture yields an empty string and is tolerated. The
//! marker alone is not trusted: the extracted thumbnail URL must resolve
//! with an OK status, else the channel is dropped as effectively offline.

use vstd::prelude::*;
use vstd::string::StrSliceExecFns;
use vstd::string::StringExecFns;
use crate::outcome::FetchFailure;
use crate::text::contains_pat;
use crate::text::find;
use crate::text::find_from;
use crate::text::is_space;
use crate::text::lemma_find_from;
use crate::text::match_at;
use crate::text::match_here;
use crate::text::quote;
use crate::text::scan_seg;
use crate::text::scan_to;
use crate::text::space_char;

verus! {

/// A channel classified live, with the fields extracted from its page.
#[derive(Debug)]
pub struct TwitchChannel {
    /// The channel identifier the pipeline ran for.
    pub channel: String,
    /// The description text of the page; empty when the pattern missed.
    pub title: String,
    /// The thumbnail URL of the broadcast; empty when the pattern missed.
    pub thumb: String,
    /// The constructed embed link for the channel.
    pub link: String,
}

/// An extraction that still awaits its liveness probe (a fetch of `thumb`
/// with redirects disabled).
#[derive(Debug)]
pub struct LivePending {
    /// The channel identifier the pipeline ran for.
    pub channel: String,
    /// The description text of the page; empty when the pattern missed.
    pub title: String,
    /// The thumbnail URL to probe; empty when the pattern missed.
    pub thumb: String,
}

/// The live-broadcast marker fragment.
pub open spec fn live_marker() -> Seq<char> {
    "isLiveBroadcast\":true}"@
}

/// The prefix that opens the description capture.
pub open spec fn desc_prefix() -> Seq<char> {
    "name=\"description\" content=\""@
}

/// The fragment that closes the thumbnail capture.
pub open spec fn upload_marker() -> Seq<char> {
    "\"],\"uploadDate"@
}

/// The fixed head of the embed link.
pub open spec fn embed_prefix() -> Seq<char> {
    "https://embed.twitch.tv/?channel="@
}

/// The fixed tail of the embed link.
pub open spec fn embed_suffix() -> Seq<char> {
    "&parent=localhost&muted=false&layout=video"@
}

/// The embed link constructed for a live channel.
pub open spec fn embed_link(channel: Seq<char>) -> Seq<char> {
    embed_prefix() + channel + embed_suffix()
}

/// The description capture attempted at each occurrence of the prefix from
/// `pos` on: the characters from the end of the prefix to the next quote
/// (at least one, none of them a newline), else the next occurrence is
/// tried.
pub open spec fn title_from(s: Seq<char>, pos: int) -> Option<Seq<char>>
    decreases s.len() + 1 - pos
        when 0 <= pos
        via title_from_dec
{
    match find_from(s, desc_prefix(), pos) {
        None => None,
        Some(i) => match scan_to(s, quote(), i + desc_prefix().len()) {
            Some(p) => Some(s.subrange(i + desc_prefix().len(), p)),
            None => title_from(s, i + 1),
        },
    }
}

#[via_fn]
proof fn title_from_dec(s: Seq<char>, pos: int) {
    lemma_find_from(s, desc_prefix(), pos);
}

/// The extracted title: empty when the pattern misses.
pub open spec fn spec_title(s: Seq<char>) -> Seq<char> {
    match title_from(s, 0) {
        Some(t) => t,
        None => Seq::empty(),
    }
}

/// The thumbnail capture attempted at the quote at `i`: a non-whitespace
/// character, at least one further non-quote character, and a closing
/// quote that must open the upload-date fragment.
pub open spec fn thumb_cand(s: Seq<char>, i: int) -> Option<Seq<char>> {
    if i + 1 < s.len() && !is_space(s[i + 1]) {
        match find_from(s, quote(), i + 2) {
            Some(p) => if p >= i + 3 && match_at(s, upload_marker(), p) {
                Some(s.subrange(i + 1, p))
            } else {
                None
            },
            None => None,
        }
    } else {
        None
    }
}

/// The thumbnail capture attempted at each quote from `pos` on.
pub open spec fn thumb_from(s: Seq<char>, pos: int) -> Option<Seq<char>>
    decreases s.len() + 1 - pos
        when 0 <= pos
        via thumb_from_dec
{
    match find_from(s, quote(), pos) {
        None => None,
        Some(i) => match thumb_cand(s, i) {
            Some(cap) => Some(cap),
            None => thumb_from(s, i + 1),
        },
    }
}

#[via_fn]
proof fn thumb_from_dec(s: Seq<char>, pos: int) {
    lemma_find_from(s, quote(), pos);
}

/// The extracted thumbnail URL: empty when the pattern misses.
pub open spec fn spec_thumb(s: Seq<char>) -> Seq<char> {
    match thumb_from(s, 0) {
        Some(t) => t,
        None => Seq::empty(),
    }
}

/// Extract the description text of the page.
fn title_of(s: &str) -> (r: String)
    ensures
        r@ == spec_title(s@),
{
    let n: usize = s.unicode_len();
    let dp = "name=\"description\" content=\"";
    let dplen: usize = dp.unicode_len();
    proof {
        reveal_strlit("\"");
        reveal_strlit("name=\"description\" content=\"");
        assert(dp@ == desc_prefix());
        assert("\""@ == quote());
    }
    let mut pos: usize = 0;
    loop
        invariant
            n == s@.len(),
            pos <= n,
            dp@ == desc_prefix(),
            dplen == desc_prefix().len(),
            1 <= dplen,
            "\""@ == quote(),
            quote().len() == 1,
            title_from(s@, 0) == title_from(s@, pos as int),
        decreases n + 1 - pos,
    {
        match find(s, dp, pos) {
            None => {
                proof {
                    assert(title_from(s@, pos as int) is None);
                }
                return String::new();
            },
            Some(i) => {
                let start = i + dplen;
                match scan_seg(s, "\"", start) {
                    Some(p) => {
                        proof {
                            assert(title_from(s@, pos as int) == Some(
                                s@.subrange(start as int, p as int),
                            ));
                        }
                        return s.substring_char(start, p).to_owned();
                    },
                    None => {
                        proof {
                            assert(title_from(s@, pos as int) == title_from(s@, i + 1));
                        }
                        pos = i + 1;
                    },
                }
            },
        }
    }
}

/// Extract the thumbnail URL of the broadcast.
fn thumb_of(s: &str) -> (r: String)
    ensures
        r@ == spec_thumb(s@),
{
    let n: usize = s.unicode_len();
    let um = "\"],\"uploadDate";
    let umlen: usize = um.unicode_len();
    proof {
        reveal_strlit("\"");
        assert(um@ == upload_marker());
        assert("\""@ == quote());
    }
    let mut pos: usize = 0;
    loop
        invariant
            n == s@.len(),
            pos <= n,
            um@ == upload_marker(),
            umlen == upload_marker().len(),
            "\""@ == quote(),
            quote().len() == 1,
            thumb_from(s@, 0) == thumb_from(s@, pos as int),
        decreases n + 1 - pos,
    {
        match find(s, "\"", pos) {
            None => {
                proof {
                    assert(thumb_from(s@, pos as int) is None);
                }
                return String::new();
            },
            Some(i) => {
                if i + 1 < n && !space_char(s.get_char(i + 1)) {
                    match find(s, "\"", i + 2) {
                        Some(p) => {
                            if p - i >= 3 && n - p >= umlen && match_here(s, um, p) {
                                proof {
                                    assert(thumb_cand(s@, i as int) == Some(
                                        s@.subrange(i + 1, p as int),
                                    ));
                                    assert(thumb_from(s@, pos as int) == Some(
                                        s@.subrange(i + 1, p as int),
                                    ));
                                }
                                return s.substring_char(i + 1, p).to_owned();
                            }
                            proof {
                                assert(thumb_cand(s@, i as int) is None);
                                assert(thumb_from(s@, pos as int) == thumb_from(s@, i + 1));
                            }
                        },
                        None => {
                            proof {
                                assert(thumb_cand(s@, i as int) is None);
                                assert(thumb_from(s@, pos as int) == thumb_from(s@, i + 1));
                            }
                        },
                    }
                } else {
                    proof {
                        assert(thumb_cand(s@, i as int) is None);
                        assert(thumb_from(s@, pos as int) == thumb_from(s@, i + 1));
                    }
                }
                pos = i + 1;
            },
        }
    }
}

/// Classify a fetched channel page. A missing payload is a transport
/// failure; a payload without the live marker is not live, whatever else it
/// holds; otherwise the title and thumbnail are extracted (empty on a
/// pattern miss) and the liveness probe of the thumbnail URL is still owed.
pub fn get_status_from_page(channel: &str, page: Option<&str>) -> (r: Result<
    LivePending,
    FetchFailure,
>)
    ensures
        page is None ==> (r matches Err(f) && f == FetchFailure::TransportError),
        (page is Some && !contains_pat((page->0)@, live_marker())) ==> (r matches Err(f) && f
            == FetchFailure::NotLive),
        (page is Some && contains_pat((page->0)@, live_marker())) ==> (r matches Ok(pend)
            && pend.channel@ == channel@
            && pend.title@ == spec_title((page->0)@)
            && pend.thumb@ == spec_thumb((page->0)@)),
{
    match page {
        None => Err(FetchFailure::TransportError),
        Some(p) => {
            let lm = "isLiveBroadcast\":true}";
            proof {
                assert(lm@ == live_marker());
            }
            match find(p, lm, 0) {
                None => {
                    proof {
                        if contains_pat(p@, live_marker()) {
                            let i = choose|i: int| match_at(p@, live_marker(), i);
                            assert(match_at(p@, lm@, i));
                        }
                    }
                    Err(FetchFailure::NotLive)
                },
                Some(m) => {
                    proof {
                        assert(match_at(p@, live_marker(), m as int));
                        assert(contains_pat(p@, live_marker()));
                    }
                    let title = title_of(p);
                    let thumb = thumb_of(p);
                    Ok(LivePending { channel: channel.to_owned(), title, thumb })
                },
            }
        },
    }
}

/// Complete a pending classification with the probe's HTTP status. A
/// non-OK probe drops the channel as effectively offline; an OK probe
/// yields the record, with the embed link constructed from the channel
/// identifier.
pub fn get_status_finish(pending: LivePending, probe_status: u16) -> (r: Result<
    TwitchChannel,
    FetchFailure,
>)
    ensures
        probe_status != 200 ==> (r matches Err(f) && f == FetchFailure::VerificationFailed),
        probe_status == 200 ==> (r matches Ok(c) && {
            &&& c.channel@ == pending.channel@
            &&& c.title@ == pending.title@
            &&& c.thumb@ == pending.thumb@
            &&& c.link@ == embed_link(pending.channel@)
        }),
{
    if probe_status != 200 {
        Err(FetchFailure::VerificationFailed)
    } else {
        let link = String::from_str("https://embed.twitch.tv/?channel=").concat(
            pending.channel.as_str(),
        ).concat("&parent=localhost&muted=false&layout=video");
        Ok(
            TwitchChannel {
                channel: pending.channel,
                title: pending.title,
                thumb: pending.thumb,
                link,
            },
        )
    }
}

} // verus!
