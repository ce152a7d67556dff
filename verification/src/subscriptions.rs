//! The subscription list of one platform: an ordered list of channel
//! identifiers, stored as separator-delimited text.
//!
//! Duplicates are forbidden by the add operation, not by the storage: adding
//! a present identifier is a no-op, removing an absent one changes nothing.
//! Reading and writing the stored text is the caller's business; parsing and
//! serializing are here.

use vstd::prelude::*;
use vstd::string::StrSliceExecFns;
use vstd::string::StringExecFns;
use crate::text::find;
use crate::text::find_from;
use crate::text::lemma_find_from;
use crate::text::str_eq;

verus! {

/// The separator between stored channel identifiers.
pub open spec fn semi() -> Seq<char> {
    ";"@
}

/// The fields of `s` from `pos` on, split on the separator.
pub open spec fn split_semis_from(s: Seq<char>, pos: int) -> Seq<Seq<char>>
    decreases s.len() + 1 - pos
        when 0 <= pos <= s.len()
        via split_semis_from_dec
{
    match find_from(s, semi(), pos) {
        None => seq![s.subrange(pos, s.len() as int)],
        Some(i) => seq![s.subrange(pos, i)] + split_semis_from(s, i + 1),
    }
}

#[via_fn]
proof fn split_semis_from_dec(s: Seq<char>, pos: int) {
    reveal_strlit(";");
    lemma_find_from(s, semi(), pos);
}

/// The fields of the stored text, split on the separator.
pub open spec fn split_semis(s: Seq<char>) -> Seq<Seq<char>> {
    split_semis_from(s, 0)
}

/// Serialized form: fields joined by the separator.
pub open spec fn join_semis(l: Seq<Seq<char>>) -> Seq<char>
    decreases l.len(),
{
    if l.len() == 0 {
        Seq::empty()
    } else if l.len() == 1 {
        l[0]
    } else {
        l[0] + semi() + join_semis(l.drop_first())
    }
}

/// Joining after appending one field adds one separator and the field.
proof fn lemma_join_snoc(l: Seq<Seq<char>>, x: Seq<char>)
    ensures
        join_semis(l.push(x)) == if l.len() == 0 {
            x
        } else {
            join_semis(l) + semi() + x
        },
    decreases l.len(),
{
    if l.len() == 0 {
        assert(l.push(x)[0] == x);
    } else {
        lemma_join_snoc(l.drop_first(), x);
        assert(l.push(x).drop_first() =~= l.drop_first().push(x));
        assert(l.push(x)[0] == l[0]);
        if l.len() == 1 {
            assert(join_semis(l.push(x)) == l[0] + semi() + x);
        } else {
            assert(join_semis(l.push(x)) =~= join_semis(l) + semi() + x);
        }
    }
}

/// Adding an identifier: a no-op when it is already present.
pub open spec fn add_spec(l: Seq<Seq<char>>, x: Seq<char>) -> Seq<Seq<char>> {
    if l.contains(x) {
        l
    } else {
        l.push(x)
    }
}

/// Removing an identifier: every occurrence leaves, the order of the rest
/// is kept.
pub open spec fn remove_spec(l: Seq<Seq<char>>, x: Seq<char>) -> Seq<Seq<char>>
    decreases l.len(),
{
    if l.len() == 0 {
        Seq::empty()
    } else if l[0] == x {
        remove_spec(l.drop_first(), x)
    } else {
        seq![l[0]] + remove_spec(l.drop_first(), x)
    }
}

/// Adding the same identifier twice leaves what one addition left.
pub proof fn lemma_add_idempotent(l: Seq<Seq<char>>, x: Seq<char>)
    ensures
        add_spec(add_spec(l, x), x) == add_spec(l, x),
{
    if !l.contains(x) {
        assert(l.push(x)[l.len() as int] == x);
        assert(l.push(x).contains(x));
    }
}

/// Removing an identifier that was never added changes nothing.
pub proof fn lemma_remove_absent(l: Seq<Seq<char>>, x: Seq<char>)
    requires
        !l.contains(x),
    ensures
        remove_spec(l, x) == l,
    decreases l.len(),
{
    if l.len() > 0 {
        if l[0] == x {
            assert(l.contains(x));
        }
        assert(!l.drop_first().contains(x)) by {
            if l.drop_first().contains(x) {
                let k = choose|k: int|
                    0 <= k < l.drop_first().len() && l.drop_first()[k] == x;
                assert(l[k + 1] == x);
                assert(l.contains(x));
            }
        }
        lemma_remove_absent(l.drop_first(), x);
        assert(seq![l[0]] + l.drop_first() =~= l);
    }
}

/// The ordered list of subscribed channel identifiers for one platform.
pub struct SubscriptionList {
    /// The identifiers, in insertion order.
    pub entries: Vec<String>,
}

impl View for SubscriptionList {
    type V = Seq<Seq<char>>;

    open spec fn view(&self) -> Seq<Seq<char>> {
        self.entries.deep_view()
    }
}

/// Parse the stored separator-delimited text into a subscription list.
pub fn parse_subscriptions(text: &str) -> (r: SubscriptionList)
    ensures
        r@ == split_semis(text@),
{
    let n: usize = text.unicode_len();
    let mut entries: Vec<String> = Vec::new();
    let mut pos: usize = 0;
    proof {
        reveal_strlit(";");
        assert(entries.deep_view() =~= Seq::<Seq<char>>::empty());
    }
    loop
        invariant_except_break
            split_semis(text@) == entries.deep_view() + split_semis_from(text@, pos as int),
        invariant
            n == text@.len(),
            pos <= n,
        ensures
            split_semis(text@) == entries.deep_view(),
        decreases n + 1 - pos,
    {
        proof {
            reveal_strlit(";");
        }
        let ghost prev = entries.deep_view();
        match find(text, ";", pos) {
            None => {
                let tail = text.substring_char(pos, n).to_owned();
                entries.push(tail);
                proof {
                    assert(split_semis_from(text@, pos as int) == seq![
                        text@.subrange(pos as int, n as int),
                    ]);
                    assert(entries.deep_view() =~= prev.push(
                        text@.subrange(pos as int, n as int),
                    ));
                    assert(prev + seq![text@.subrange(pos as int, n as int)] =~= entries
                        .deep_view());
                }
                break;
            },
            Some(i) => {
                let field = text.substring_char(pos, i).to_owned();
                entries.push(field);
                proof {
                    assert(split_semis_from(text@, pos as int) == seq![
                        text@.subrange(pos as int, i as int),
                    ] + split_semis_from(text@, i + 1));
                    assert(entries.deep_view() =~= prev.push(
                        text@.subrange(pos as int, i as int),
                    ));
                    assert(prev + (seq![text@.subrange(pos as int, i as int)]
                        + split_semis_from(text@, i + 1)) =~= entries.deep_view()
                        + split_semis_from(text@, i + 1));
                }
                pos = i + 1;
            },
        }
    }
    SubscriptionList { entries }
}

impl SubscriptionList {
    /// Whether `channel` is already subscribed.
    pub fn contains_channel(&self, channel: &str) -> (r: bool)
        ensures
            r == self@.contains(channel@),
    {
        let mut i: usize = 0;
        while i < self.entries.len()
            invariant
                i <= self.entries.len(),
                forall|k: int| 0 <= k < i ==> self@[k] != channel@,
            decreases self.entries.len() - i,
        {
            if str_eq(self.entries[i].as_str(), channel) {
                proof {
                    assert(self@[i as int] == channel@);
                }
                return true;
            }
            i += 1;
        }
        proof {
            if self@.contains(channel@) {
                let k = choose|k: int| 0 <= k < self@.len() && self@[k] == channel@;
                assert(!(self@[k] != channel@));
            }
        }
        false
    }

    /// Subscribe `channel`: a no-op when it is already present. Returns
    /// whether the list changed (only then need the store be rewritten).
    pub fn add(&mut self, channel: &str) -> (added: bool)
        ensures
            final(self)@ == add_spec(old(self)@, channel@),
            added == !old(self)@.contains(channel@),
            old(self)@.contains(channel@) ==> final(self)@ == old(self)@,
    {
        if self.contains_channel(channel) {
            false
        } else {
            let ghost prev = self@;
            self.entries.push(channel.to_owned());
            proof {
                assert(self@ =~= prev.push(channel@));
            }
            true
        }
    }

    /// Unsubscribe `channel`: every occurrence leaves; removing an absent
    /// identifier leaves the list unchanged.
    pub fn remove(&mut self, channel: &str)
        ensures
            final(self)@ == remove_spec(old(self)@, channel@),
            !old(self)@.contains(channel@) ==> final(self)@ == old(self)@,
    {
        let ghost whole = self@;
        let mut kept: Vec<String> = Vec::new();
        let mut i: usize = 0;
        proof {
            assert(whole.skip(0) =~= whole);
            assert(kept.deep_view() =~= Seq::<Seq<char>>::empty());
        }
        while i < self.entries.len()
            invariant
                i <= self.entries.len(),
                whole == self@,
                remove_spec(whole, channel@) == kept.deep_view() + remove_spec(
                    whole.skip(i as int),
                    channel@,
                ),
            decreases self.entries.len() - i,
        {
            let ghost prevk = kept.deep_view();
            proof {
                assert(whole.skip(i as int)[0] == whole[i as int]);
                assert(whole.skip(i as int).drop_first() =~= whole.skip(i + 1));
            }
            if str_eq(self.entries[i].as_str(), channel) {
                proof {
                    assert(whole[i as int] == channel@);
                }
            } else {
                kept.push(self.entries[i].clone());
                proof {
                    assert(kept.deep_view() =~= prevk.push(whole[i as int]));
                    assert(prevk + (seq![whole[i as int]] + remove_spec(
                        whole.skip(i + 1),
                        channel@,
                    )) =~= kept.deep_view() + remove_spec(whole.skip(i + 1), channel@));
                }
            }
            i += 1;
        }
        proof {
            assert(whole.skip(self.entries.len() as int) =~= Seq::<Seq<char>>::empty());
            assert(kept.deep_view() =~= remove_spec(whole, channel@));
            if !whole.contains(channel@) {
                lemma_remove_absent(whole, channel@);
            }
        }
        self.entries = kept;
    }

    /// Serialize for storage: the entries joined by the separator.
    pub fn to_text(&self) -> (r: String)
        ensures
            r@ == join_semis(self@),
    {
        let mut r = String::new();
        let mut i: usize = 0;
        proof {
            assert(self@.take(0) =~= Seq::<Seq<char>>::empty());
        }
        while i < self.entries.len()
            invariant
                i <= self.entries.len(),
                r@ == join_semis(self@.take(i as int)),
            decreases self.entries.len() - i,
        {
            if i > 0 {
                r.append(";");
            }
            r.append(self.entries[i].as_str());
            proof {
                reveal_strlit(";");
                assert(self@.take(i + 1) =~= self@.take(i as int).push(self@[i as int]));
                lemma_join_snoc(self@.take(i as int), self@[i as int]);
                assert(r@ =~= join_semis(self@.take(i + 1)));
            }
            i += 1;
        }
        proof {
            assert(self@.take(self.entries.len() as int) =~= self@);
        }
        r
    }
}

} // verus!
