//! Character-level scanning primitives used by the platform extractors.
//!
//! The page payloads are searched for fixed marker fragments; captures run
//! from the end of a marker to a closing delimiter. `find_from` is the
//! specification of leftmost search, `scan_to` the specification of a lazy
//! gap (`any characters, then the literal`) that may not cross a newline.

use vstd::prelude::*;

verus! {

/// `pat` occurs in `s` starting at index `i`.
pub open spec fn match_at(s: Seq<char>, pat: Seq<char>, i: int) -> bool {
    &&& 0 <= i
    &&& i + pat.len() <= s.len()
    &&& s.subrange(i, i + pat.len()) == pat
}

/// `pat` occurs somewhere in `s`.
pub open spec fn contains_pat(s: Seq<char>, pat: Seq<char>) -> bool {
    exists|i: int| match_at(s, pat, i)
}

/// Index of the leftmost occurrence of `pat` in `s` at or after `pos`.
pub open spec fn find_from(s: Seq<char>, pat: Seq<char>, pos: int) -> Option<int>
    decreases s.len() + 1 - pos
        when 0 <= pos
{
    if pos + pat.len() > s.len() {
        None
    } else if match_at(s, pat, pos) {
        Some(pos)
    } else {
        find_from(s, pat, pos + 1)
    }
}

/// What `find_from` returns: a match at the result index and none before it.
pub proof fn lemma_find_from(s: Seq<char>, pat: Seq<char>, pos: int)
    requires
        0 <= pos,
    ensures
        match find_from(s, pat, pos) {
            Some(i) => {
                &&& pos <= i
                &&& i + pat.len() <= s.len()
                &&& match_at(s, pat, i)
                &&& forall|j: int| pos <= j < i ==> !match_at(s, pat, j)
            },
            None => forall|j: int| pos <= j ==> !match_at(s, pat, j),
        },
    decreases s.len() + 1 - pos,
{
    if pos + pat.len() > s.len() {
        assert forall|j: int| pos <= j implies !match_at(s, pat, j) by {}
    } else if match_at(s, pat, pos) {
    } else {
        lemma_find_from(s, pat, pos + 1);
        match find_from(s, pat, pos + 1) {
            Some(i) => {
                assert forall|j: int| pos <= j < i implies !match_at(s, pat, j) by {
                    if pos < j {
                        assert(!match_at(s, pat, j));
                    }
                }
            },
            None => {
                assert forall|j: int| pos <= j implies !match_at(s, pat, j) by {
                    if pos < j {
                        assert(!match_at(s, pat, j));
                    }
                }
            },
        }
    }
}

/// `pat` occurs in `s` at char index `i`, checked character by character.
pub fn match_here(s: &str, pat: &str, i: usize) -> (r: bool)
    requires
        i + pat@.len() <= s@.len(),
        s@.len() <= usize::MAX,
    ensures
        r == match_at(s@, pat@, i as int),
{
    let m: usize = pat.unicode_len();
    let mut k: usize = 0;
    while k < m
        invariant
            m == pat@.len(),
            i + m <= s@.len(),
            s@.len() <= usize::MAX,
            k <= m,
            forall|t: int| 0 <= t < k ==> s@[i + t] == pat@[t],
        decreases m - k,
    {
        if s.get_char(i + k) != pat.get_char(k) {
            proof {
                if match_at(s@, pat@, i as int) {
                    assert(s@.subrange(i as int, i + m)[k as int] == pat@[k as int]);
                }
            }
            return false;
        }
        k = k + 1;
    }
    proof {
        assert(s@.subrange(i as int, i + m) =~= pat@);
    }
    true
}

/// Leftmost occurrence of `pat` in `s` at or after `from`.
pub fn find(s: &str, pat: &str, from: usize) -> (r: Option<usize>)
    requires
        from <= s@.len(),
    ensures
        match r {
            Some(i) => {
                &&& find_from(s@, pat@, from as int) == Some(i as int)
                &&& from <= i
                &&& i + pat@.len() <= s@.len()
                &&& match_at(s@, pat@, i as int)
                &&& forall|j: int| from <= j < i ==> !match_at(s@, pat@, j)
            },
            None => {
                &&& find_from(s@, pat@, from as int) is None
                &&& forall|j: int| from <= j ==> !match_at(s@, pat@, j)
            },
        },
{
    let n: usize = s.unicode_len();
    let m: usize = pat.unicode_len();
    if m == 0 {
        proof {
            assert(s@.subrange(from as int, from as int) =~= pat@);
            assert(match_at(s@, pat@, from as int));
            lemma_find_from(s@, pat@, from as int);
        }
        return Some(from);
    }
    if m > n {
        proof {
            lemma_find_from(s@, pat@, from as int);
        }
        return None;
    }
    let mut i: usize = from;
    while i <= n - m
        invariant
            n == s@.len(),
            m == pat@.len(),
            1 <= m <= n,
            from <= i,
            find_from(s@, pat@, from as int) == find_from(s@, pat@, i as int),
        decreases n - m + 1 - i,
    {
        if match_here(s, pat, i) {
            proof {
                assert(find_from(s@, pat@, i as int) == Some(i as int));
                lemma_find_from(s@, pat@, from as int);
            }
            return Some(i);
        }
        proof {
            assert(find_from(s@, pat@, i as int) == find_from(s@, pat@, i + 1));
        }
        i = i + 1;
    }
    proof {
        assert(find_from(s@, pat@, i as int) is None);
        lemma_find_from(s@, pat@, from as int);
    }
    None
}

/// No newline character in `s[lo..hi)`.
pub open spec fn no_newline(s: Seq<char>, lo: int, hi: int) -> bool {
    forall|k: int| lo <= k < hi ==> s[k] != '\n'
}

/// End of a lazy gap: the leftmost occurrence of `lit` strictly after
/// `start`, reachable without crossing a newline. This is the meaning of
/// `at least one character, then lit` in the page patterns.
pub open spec fn scan_to(s: Seq<char>, lit: Seq<char>, start: int) -> Option<int>
    recommends
        0 <= start,
{
    match find_from(s, lit, start + 1) {
        Some(j) => if no_newline(s, start, j) {
            Some(j)
        } else {
            None
        },
        None => None,
    }
}

/// Bounds that hold of a successful `scan_to`.
pub proof fn lemma_scan_to(s: Seq<char>, lit: Seq<char>, start: int)
    requires
        0 <= start,
    ensures
        scan_to(s, lit, start) matches Some(j) ==> {
            &&& start < j
            &&& j + lit.len() <= s.len()
            &&& match_at(s, lit, j)
            &&& no_newline(s, start, j)
        },
{
    lemma_find_from(s, lit, start + 1);
}

/// Whether `s[lo..hi)` is free of newline characters.
fn newline_free(s: &str, lo: usize, hi: usize) -> (r: bool)
    requires
        lo <= hi <= s@.len(),
    ensures
        r == no_newline(s@, lo as int, hi as int),
{
    match find(s, "\n", lo) {
        Some(q) => {
            proof {
                reveal_strlit("\n");
                assert(s@.subrange(q as int, q + 1)[0] == s@[q as int]);
            }
            if q < hi {
                proof {
                    assert(s@[q as int] == '\n');
                    assert(!no_newline(s@, lo as int, hi as int));
                }
                false
            } else {
                proof {
                    assert forall|k: int| lo <= k < hi implies s@[k] != '\n' by {
                        if s@[k] == '\n' {
                            assert(s@.subrange(k, k + 1) =~= "\n"@);
                            assert(match_at(s@, "\n"@, k));
                        }
                    }
                }
                true
            }
        },
        None => {
            proof {
                reveal_strlit("\n");
                assert forall|k: int| lo <= k < hi implies s@[k] != '\n' by {
                    if s@[k] == '\n' {
                        assert(s@.subrange(k, k + 1) =~= "\n"@);
                        assert(match_at(s@, "\n"@, k));
                    }
                }
            }
            true
        },
    }
}

/// Find the end of a lazy gap that begins at `start`: `Some(j)` is the
/// position of `lit`, per `scan_to`.
pub fn scan_seg(s: &str, lit: &str, start: usize) -> (r: Option<usize>)
    requires
        lit@.len() >= 1,
    ensures
        match r {
            Some(j) => {
                &&& scan_to(s@, lit@, start as int) == Some(j as int)
                &&& start < j
                &&& j + lit@.len() <= s@.len()
            },
            None => scan_to(s@, lit@, start as int) is None,
        },
{
    let n: usize = s.unicode_len();
    if start >= n {
        proof {
            lemma_find_from(s@, lit@, start as int + 1);
        }
        return None;
    }
    match find(s, lit, start + 1) {
        Some(j) => {
            if newline_free(s, start, j) {
                Some(j)
            } else {
                None
            }
        },
        None => None,
    }
}

/// The double-quote delimiter that closes a capture.
pub open spec fn quote() -> Seq<char> {
    "\""@
}

/// Whether two strings hold the same characters.
pub fn str_eq(a: &str, b: &str) -> (r: bool)
    ensures
        r == (a@ == b@),
{
    let na: usize = a.unicode_len();
    let nb: usize = b.unicode_len();
    if na != nb {
        return false;
    }
    let r = match_here(a, b, 0);
    proof {
        assert(a@.subrange(0, na as int) =~= a@);
        if a@ == b@ {
            assert(match_at(a@, b@, 0));
        }
    }
    r
}

/// Whitespace as the extraction patterns treat it.
pub open spec fn is_space_code(u: u32) -> bool {
    ||| u == 0x9
    ||| u == 0xa
    ||| u == 0xb
    ||| u == 0xc
    ||| u == 0xd
    ||| u == 0x20
    ||| u == 0x85
    ||| u == 0xa0
    ||| u == 0x1680
    ||| (0x2000 <= u && u <= 0x200a)
    ||| u == 0x2028
    ||| u == 0x2029
    ||| u == 0x202f
    ||| u == 0x205f
    ||| u == 0x3000
}

/// `c` is a whitespace character.
pub open spec fn is_space(c: char) -> bool {
    is_space_code(c as u32)
}

/// Executable whitespace test matching `is_space`.
pub fn space_char(c: char) -> (r: bool)
    ensures
        r == is_space(c),
{
    let u = c as u32;
    u == 0x9 || u == 0xa || u == 0xb || u == 0xc || u == 0xd || u == 0x20 || u == 0x85 || u == 0xa0
        || u == 0x1680 || (0x2000 <= u && u <= 0x200a) || u == 0x2028 || u == 0x2029 || u == 0x202f
        || u == 0x205f || u == 0x3000
}

} // verus!
