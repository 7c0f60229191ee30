//! Incremental hotstring matching over typed characters.
//!
//! The matcher keeps the most recent typed characters (at most
//! `BUFFER_CAP`). After each character every hotstring is tested in
//! declaration order and the first that completes wins: declaration order,
//! not trigger length, breaks ties. A completed match empties the buffer.
use vstd::prelude::*;
use crate::text::{fold, fold_char, lower_char, to_chars};
use crate::types::AhkHotstring;

verus! {

/// Most characters the matcher remembers.
pub const BUFFER_CAP: usize = 100;

/// The compiled hotstrings, in declaration order.
pub struct HotstringMatcher {
    pub hotstrings: Vec<AhkHotstring>,
}

/// The matcher's position: the recent typed characters.
pub struct HotstringMatcherState {
    pub buffer: Vec<char>,
}

impl HotstringMatcherState {
    /// The state before any character.
    pub fn idle() -> (r: HotstringMatcherState)
        ensures
            r.buffer@ == Seq::<char>::empty(),
    {
        HotstringMatcherState { buffer: Vec::new() }
    }
}

/// Characters that end a word: all but ASCII letters and digits.
pub open spec fn is_delimiter(c: char) -> bool {
    !(('a' <= c && c <= 'z') || ('A' <= c && c <= 'Z') || ('0' <= c && c <= '9'))
}

/// The buffer after one more character, oldest dropped beyond the cap.
pub open spec fn push_capped(b: Seq<char>, c: char) -> Seq<char> {
    let n = b.push(c);
    if n.len() > BUFFER_CAP {
        n.subrange(n.len() - BUFFER_CAP, n.len() as int)
    } else {
        n
    }
}

/// Whether `b` ends with `t`, compared exactly or with ASCII case folded.
pub open spec fn tail_matches(b: Seq<char>, t: Seq<char>, case_sensitive: bool) -> bool {
    t.len() <= b.len() && if case_sensitive {
        b.subrange(b.len() - t.len(), b.len() as int) == t
    } else {
        fold(b.subrange(b.len() - t.len(), b.len() as int)) == fold(t)
    }
}

/// Whether a hotstring completes once `c` has been added, giving buffer `b`.
/// An immediate trigger completes on its own last character; another one
/// needs a delimiter right after it.
pub open spec fn completes(h: AhkHotstring, b: Seq<char>, c: char) -> bool {
    if h.immediate {
        tail_matches(b, h.trigger@, h.case_sensitive)
    } else {
        is_delimiter(c) && b.len() > 0 && tail_matches(b.drop_last(), h.trigger@, h.case_sensitive)
    }
}

pub open spec fn first_complete(hs: Seq<AhkHotstring>, b: Seq<char>, c: char, i: int) -> Option<int>
    decreases hs.len() - i,
{
    if i < 0 || i >= hs.len() {
        None
    } else if completes(hs[i], b, c) {
        Some(i)
    } else {
        first_complete(hs, b, c, i + 1)
    }
}

/// The hotstring that completes when `c` is typed in state `buf`, if any.
pub open spec fn match_at(hs: Seq<AhkHotstring>, buf: Seq<char>, c: char) -> Option<int> {
    first_complete(hs, push_capped(buf, c), c, 0)
}

/// The state after `c` is typed in state `buf`.
pub open spec fn next_buffer(hs: Seq<AhkHotstring>, buf: Seq<char>, c: char) -> Seq<char> {
    if match_at(hs, buf, c) is Some {
        Seq::empty()
    } else {
        push_capped(buf, c)
    }
}

/// The state after typing `input` from the idle state.
pub open spec fn feed(hs: Seq<AhkHotstring>, input: Seq<char>) -> Seq<char>
    decreases input.len(),
{
    if input.len() == 0 {
        Seq::empty()
    } else {
        next_buffer(hs, feed(hs, input.drop_last()), input.last())
    }
}

/// Whether no character of `input`, typed from the idle state, completes a hotstring.
pub open spec fn no_match_along(hs: Seq<AhkHotstring>, input: Seq<char>) -> bool
    decreases input.len(),
{
    input.len() == 0 || (no_match_along(hs, input.drop_last()) && match_at(
        hs,
        feed(hs, input.drop_last()),
        input.last(),
    ) is None)
}

/// The last `BUFFER_CAP` characters of a text.
pub open spec fn capped(s: Seq<char>) -> Seq<char> {
    if s.len() > BUFFER_CAP {
        s.subrange(s.len() - BUFFER_CAP, s.len() as int)
    } else {
        s
    }
}

fn tail_matches_exec(b: &Vec<char>, blen: usize, t: &Vec<char>, case_sensitive: bool) -> (r: bool)
    requires
        blen <= b@.len(),
    ensures
        r == tail_matches(b@.subrange(0, blen as int), t@, case_sensitive),
{
    let tlen = t.len();
    if tlen > blen {
        return false;
    }
    let start = blen - tlen;
    let ghost bs = b@.subrange(0, blen as int);
    let ghost tail = bs.subrange(bs.len() - t@.len(), bs.len() as int);
    assert(tail =~= b@.subrange(start as int, blen as int));
    let mut j: usize = 0;
    while j < tlen
        invariant
            tlen == t@.len(),
            start + tlen == blen,
            blen <= b@.len(),
            j <= tlen,
            tail =~= b@.subrange(start as int, blen as int),
            forall|k: int|
                0 <= k < j ==> if case_sensitive {
                    b@[start + k] == t@[k]
                } else {
                    fold_char(b@[start + k]) == fold_char(t@[k])
                },
        decreases tlen - j,
    {
        let x = b[start + j];
        let y = t[j];
        if case_sensitive {
            if x != y {
                assert(tail[j as int] != t@[j as int]);
                return false;
            }
        } else {
            if lower_char(x) != lower_char(y) {
                assert(fold(tail)[j as int] != fold(t@)[j as int]);
                return false;
            }
        }
        j = j + 1;
    }
    if case_sensitive {
        assert(tail =~= t@);
    } else {
        assert(fold(tail) =~= fold(t@));
    }
    true
}

fn completes_exec(h: &AhkHotstring, b: &Vec<char>, c: char) -> (r: bool)
    requires
        b@.len() > 0,
    ensures
        r == completes(*h, b@, c),
{
    let t = to_chars(h.trigger.as_str());
    assert(b@.subrange(0, b@.len() as int) =~= b@);
    assert(b@.subrange(0, b@.len() - 1) =~= b@.drop_last());
    if h.immediate {
        tail_matches_exec(b, b.len(), &t, h.case_sensitive)
    } else {
        let delim = !(('a' <= c && c <= 'z') || ('A' <= c && c <= 'Z') || ('0' <= c && c <= '9'));
        delim && tail_matches_exec(b, b.len() - 1, &t, h.case_sensitive)
    }
}

impl HotstringMatcher {
    pub fn new(hotstrings: Vec<AhkHotstring>) -> (r: HotstringMatcher)
        ensures
            r.hotstrings@ == hotstrings@,
    {
        HotstringMatcher { hotstrings }
    }

    /// Advances the matcher by one typed character. Returns the new state and
    /// the index of the hotstring that completed, if one did.
    pub fn process(&self, state: &HotstringMatcherState, c: char) -> (r: (
        HotstringMatcherState,
        Option<usize>,
    ))
        ensures
            r.0.buffer@ == next_buffer(self.hotstrings@, state.buffer@, c),
            match r.1 {
                Some(i) => match_at(self.hotstrings@, state.buffer@, c) == Some(i as int),
                None => match_at(self.hotstrings@, state.buffer@, c) is None,
            },
    {
        let mut b: Vec<char> = Vec::new();
        let old_len = state.buffer.len();
        let from: usize = if old_len >= BUFFER_CAP {
            old_len - (BUFFER_CAP - 1)
        } else {
            0
        };
        let mut k: usize = from;
        while k < old_len
            invariant
                from <= k <= old_len,
                old_len == state.buffer@.len(),
                b@ == state.buffer@.subrange(from as int, k as int),
            decreases old_len - k,
        {
            b.push(state.buffer[k]);
            k = k + 1;
            assert(b@ =~= state.buffer@.subrange(from as int, k as int));
        }
        b.push(c);
        assert(b@ =~= push_capped(state.buffer@, c));
        let mut i: usize = 0;
        while i < self.hotstrings.len()
            invariant
                i <= self.hotstrings@.len(),
                b@ == push_capped(state.buffer@, c),
                first_complete(self.hotstrings@, b@, c, 0) == first_complete(
                    self.hotstrings@,
                    b@,
                    c,
                    i as int,
                ),
            decreases self.hotstrings@.len() - i,
        {
            if completes_exec(&self.hotstrings[i], &b, c) {
                return (HotstringMatcherState { buffer: Vec::new() }, Some(i));
            }
            i = i + 1;
        }
        (HotstringMatcherState { buffer: b }, None)
    }
}

/// Typing the same input from the idle state always leads to the same
/// state: when no hotstring completes along the way, that state is the
/// input's last `BUFFER_CAP` characters, whatever came before.
pub proof fn lemma_feed_depends_on_input_only(hs: Seq<AhkHotstring>, input: Seq<char>)
    requires
        no_match_along(hs, input),
    ensures
        feed(hs, input) == capped(input),
    decreases input.len(),
{
    if input.len() > 0 {
        let init = input.drop_last();
        lemma_feed_depends_on_input_only(hs, init);
        assert(init.push(input.last()) =~= input);
        assert(push_capped(capped(init), input.last()) =~= capped(input));
    }
}

proof fn lemma_short_prefix(h: AhkHotstring, p: Seq<char>)
    requires
        p.len() <= BUFFER_CAP,
        h.immediate ==> p.len() < h.trigger@.len(),
        !h.immediate ==> p.len() <= h.trigger@.len(),
    ensures
        no_match_along(seq![h], p),
        feed(seq![h], p) == p,
    decreases p.len(),
{
    if p.len() > 0 {
        let init = p.drop_last();
        lemma_short_prefix(h, init);
        assert(init.push(p.last()) =~= p);
        assert(push_capped(init, p.last()) == p);
        assert(!completes(h, p, p.last()));
        assert(first_complete(seq![h], p, p.last(), 1) is None);
    }
}

proof fn lemma_tail_matches_self(t: Seq<char>, cs: bool)
    ensures
        tail_matches(t, t, cs),
{
    assert(t.subrange(0, t.len() as int) =~= t);
}

/// An immediate trigger, typed from the idle state, completes exactly at its
/// last character: no earlier character completes it, and no delimiter is
/// needed.
pub proof fn lemma_immediate_completes_at_last_char(h: AhkHotstring)
    requires
        h.immediate,
        0 < h.trigger@.len() <= BUFFER_CAP,
    ensures
        no_match_along(seq![h], h.trigger@.drop_last()),
        match_at(seq![h], feed(seq![h], h.trigger@.drop_last()), h.trigger@.last()) == Some(0int),
{
    let t = h.trigger@;
    lemma_short_prefix(h, t.drop_last());
    assert(t.drop_last().push(t.last()) =~= t);
    lemma_tail_matches_self(t, h.case_sensitive);
}

/// A trigger that is not immediate does not complete while it is typed, not
/// even at its last character; it completes on the delimiter that follows.
pub proof fn lemma_word_trigger_waits_for_delimiter(h: AhkHotstring, d: char)
    requires
        !h.immediate,
        0 < h.trigger@.len() < BUFFER_CAP,
        is_delimiter(d),
    ensures
        no_match_along(seq![h], h.trigger@),
        match_at(seq![h], feed(seq![h], h.trigger@), d) == Some(0int),
{
    let t = h.trigger@;
    lemma_short_prefix(h, t);
    assert(push_capped(t, d) == t.push(d));
    assert(t.push(d).drop_last() =~= t);
    lemma_tail_matches_self(t, h.case_sensitive);
}

/// A hotstring that completes is one whose trigger fits in the buffer.
pub proof fn lemma_match_fits(hs: Seq<AhkHotstring>, buf: Seq<char>, c: char)
    requires
        match_at(hs, buf, c) is Some,
    ensures
        0 <= match_at(hs, buf, c)->0 < hs.len(),
        completes(hs[match_at(hs, buf, c)->0], push_capped(buf, c), c),
        hs[match_at(hs, buf, c)->0].trigger@.len() <= BUFFER_CAP,
        !hs[match_at(hs, buf, c)->0].immediate ==> hs[match_at(hs, buf, c)->0].trigger@.len() < BUFFER_CAP,
{
    lemma_first_complete(hs, push_capped(buf, c), c, 0);
}

proof fn lemma_first_complete(hs: Seq<AhkHotstring>, b: Seq<char>, c: char, i: int)
    requires
        0 <= i,
        first_complete(hs, b, c, i) is Some,
    ensures
        i <= first_complete(hs, b, c, i)->0 < hs.len(),
        completes(hs[first_complete(hs, b, c, i)->0], b, c),
    decreases hs.len() - i,
{
    if i < hs.len() && !completes(hs[i], b, c) {
        lemma_first_complete(hs, b, c, i + 1);
    }
}

} // verus!
