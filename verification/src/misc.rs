//! The viewer's cache: search matches and the active match, navigation
//! between matches, link hooks, and the state that persists between frames.

use crate::alerts::{is_gfm, AlertBundle};
use crate::matches::{
    build_regex, collect_search_ranges, regex_escape, spec_collect_search_ranges,
    spec_regex_error, spec_regex_escape, RegexSpec,
};
use crate::pulldown::{parse_markdown, spec_markdown_events, SEARCH_PARSER_OPTIONS};
use std::ops::Range;
use vstd::prelude::*;

verus! {

/// Options of a search, as bits: [`SearchOptions::CASE_SENSITIVE`],
/// [`SearchOptions::WHOLE_WORD`] and [`SearchOptions::REGEX`].
#[derive(Clone, Copy, PartialEq, Eq, Debug)]
pub struct SearchOptions {
    pub bits: u8,
}

impl SearchOptions {
    pub const CASE_SENSITIVE: u8 = 1;

    pub const WHOLE_WORD: u8 = 2;

    pub const REGEX: u8 = 4;

    /// No option set.
    pub fn empty() -> (res: Self)
        ensures
            res.bits == 0,
    {
        SearchOptions { bits: 0 }
    }

    /// Whether every bit of `flag` is set.
    pub fn contains(&self, flag: u8) -> (res: bool)
        ensures
            res == (self.bits & flag == flag),
    {
        self.bits & flag == flag
    }
}

/// The first value stored under `key` (compared by its characters).
pub open spec fn hook_lookup(entries: Seq<(String, bool)>, key: Seq<char>) -> Option<bool>
    decreases entries.len(),
{
    if entries.len() == 0 {
        None
    } else if entries[0].0@ == key {
        Some(entries[0].1)
    } else {
        hook_lookup(entries.drop_first(), key)
    }
}

/// Link destinations whose clicks the caller watches, each with whether it
/// was clicked.
#[derive(Debug)]
pub struct LinkHooks {
    entries: Vec<(String, bool)>,
}

impl LinkHooks {
    /// Every hook as a map from destination to its state.
    pub closed spec fn view(&self) -> Map<Seq<char>, bool> {
        Map::new(
            |k: Seq<char>| hook_lookup(self.entries@, k) is Some,
            |k: Seq<char>| hook_lookup(self.entries@, k)->0,
        )
    }

    #[verifier::type_invariant]
    closed spec fn keys_distinct(&self) -> bool {
        forall|i: int, j: int|
            0 <= i < self.entries@.len() && 0 <= j < self.entries@.len() && i != j
                ==> self.entries@[i].0@ != self.entries@[j].0@
    }

    /// No hooks.
    pub fn new() -> (res: Self)
        ensures
            res@ == Map::<Seq<char>, bool>::empty(),
    {
        let res = LinkHooks { entries: Vec::new() };
        assert(res@ =~= Map::<Seq<char>, bool>::empty());
        res
    }

    /// Index of the entry for `key`, if any.
    fn position(&self, key: &String) -> (res: Option<usize>)
        ensures
            match res {
                Some(i) => i < self.entries@.len() && self.entries@[i as int].0@ == key@ && forall|
                    k: int,
                | 0 <= k < i ==> self.entries@[k].0@ != key@,
                None => forall|i: int|
                    0 <= i < self.entries@.len() ==> self.entries@[i].0@ != key@,
            },
    {
        let mut i: usize = 0;
        while i < self.entries.len()
            invariant
                i <= self.entries@.len(),
                forall|k: int| 0 <= k < i ==> self.entries@[k].0@ != key@,
            decreases self.entries@.len() - i,
        {
            if self.entries[i].0 == *key {
                return Some(i);
            }
            i = i + 1;
        }
        None
    }

    proof fn lemma_lookup_at(entries: Seq<(String, bool)>, i: int, key: Seq<char>)
        requires
            0 <= i < entries.len(),
            entries[i].0@ == key,
            forall|k: int| 0 <= k < i ==> entries[k].0@ != key,
        ensures
            hook_lookup(entries, key) == Some(entries[i].1),
        decreases i,
    {
        if i > 0 {
            Self::lemma_lookup_at(entries.drop_first(), i - 1, key);
        }
    }

    proof fn lemma_lookup_absent(entries: Seq<(String, bool)>, key: Seq<char>)
        requires
            forall|k: int| 0 <= k < entries.len() ==> entries[k].0@ != key,
        ensures
            hook_lookup(entries, key) is None,
        decreases entries.len(),
    {
        if entries.len() > 0 {
            Self::lemma_lookup_absent(entries.drop_first(), key);
        }
    }

    /// The state of the hook for `name`.
    pub fn get(&self, name: &str) -> (res: Option<bool>)
        ensures
            res == (if self@.contains_key(name@) {
                Some(self@[name@])
            } else {
                None
            }),
    {
        let key = name.to_owned();
        match self.position(&key) {
            Some(i) => {
                proof {
                    Self::lemma_lookup_at(self.entries@, i as int, key@);
                    use_type_invariant(self);
                }
                Some(self.entries[i].1)
            },
            None => {
                proof {
                    Self::lemma_lookup_absent(self.entries@, key@);
                }
                None
            },
        }
    }

    /// Sets the hook for `name` to `value`, adding it if it is new.
    pub fn insert(&mut self, name: String, value: bool)
        ensures
            final(self)@ == old(self)@.insert(name@, value),
    {
        proof {
            use_type_invariant(&*self);
        }
        let ghost key = name@;
        let ghost before = self.entries@;
        let pos = self.position(&name);
        let mut entries: Vec<(String, bool)> = Vec::new();
        std::mem::swap(&mut entries, &mut self.entries);
        match pos {
            Some(i) => {
                let entry = (name, value);
                entries.set(i, entry);
                proof {
                    assert forall|k: Seq<char>| #![auto] k != key implies hook_lookup(entries@, k)
                        == hook_lookup(before, k) by {
                        lemma_lookup_update(before, i as int, entry, k);
                    }
                    assert forall|k: int| 0 <= k < i implies entries@[k].0@ != key by {
                        assert(before[k].0@ != before[i as int].0@);
                    }
                    Self::lemma_lookup_at(entries@, i as int, key);
                    assert forall|p: int, q: int|
                        0 <= p < entries@.len() && 0 <= q < entries@.len() && p != q
                            implies entries@[p].0@ != entries@[q].0@ by {
                        assert(before[p].0@ != before[q].0@);
                    }
                }
            },
            None => {
                entries.push((name, value));
                proof {
                    assert forall|k: Seq<char>| #![auto] k != key implies hook_lookup(entries@, k)
                        == hook_lookup(before, k) by {
                        lemma_lookup_push(before, (entries@.last().0, value), k);
                    }
                    Self::lemma_lookup_at(entries@, before.len() as int, key);
                    assert forall|p: int, q: int|
                        0 <= p < entries@.len() && 0 <= q < entries@.len() && p != q
                            implies entries@[p].0@ != entries@[q].0@ by {
                        if p < before.len() && q < before.len() {
                            assert(before[p].0@ != before[q].0@);
                        }
                    }
                }
            },
        }
        self.entries = entries;
        assert(self@ =~= old(self)@.insert(key, value));
    }

    /// Removes the hook for `name`, returning its last state.
    pub fn remove(&mut self, name: &str) -> (res: Option<bool>)
        ensures
            res == (if old(self)@.contains_key(name@) {
                Some(old(self)@[name@])
            } else {
                None
            }),
            final(self)@ == old(self)@.remove(name@),
    {
        proof {
            use_type_invariant(&*self);
        }
        let key = name.to_owned();
        let ghost before = self.entries@;
        match self.position(&key) {
            Some(i) => {
                proof {
                    Self::lemma_lookup_at(before, i as int, key@);
                }
                let mut entries: Vec<(String, bool)> = Vec::new();
                std::mem::swap(&mut entries, &mut self.entries);
                let (_, value) = entries.remove(i);
                proof {
                    assert forall|k: Seq<char>| #![auto] k != key@ implies hook_lookup(entries@, k)
                        == hook_lookup(before, k) by {
                        lemma_lookup_remove(before, i as int, k);
                    }
                    assert forall|k: int| 0 <= k < entries@.len() implies entries@[k].0@
                        != key@ by {
                        if k < i {
                            assert(entries@[k] == before[k]);
                        } else {
                            assert(entries@[k] == before[k + 1]);
                        }
                    }
                    Self::lemma_lookup_absent(entries@, key@);
                    assert forall|p: int, q: int|
                        0 <= p < entries@.len() && 0 <= q < entries@.len() && p != q
                            implies entries@[p].0@ != entries@[q].0@ by {
                        let p1 = if p < i { p } else { p + 1 };
                        let q1 = if q < i { q } else { q + 1 };
                        assert(entries@[p] == before[p1]);
                        assert(entries@[q] == before[q1]);
                    }
                }
                self.entries = entries;
                assert(self@ =~= old(self)@.remove(key@));
                Some(value)
            },
            None => {
                proof {
                    Self::lemma_lookup_absent(before, key@);
                }
                assert(self@ =~= old(self)@.remove(key@));
                None
            },
        }
    }

    /// Removes every hook.
    pub fn clear(&mut self)
        ensures
            final(self)@ == Map::<Seq<char>, bool>::empty(),
    {
        self.entries = Vec::new();
        assert(self@ =~= Map::<Seq<char>, bool>::empty());
    }

    /// Whether `name` has a hook.
    pub fn contains_key(&self, name: &str) -> (res: bool)
        ensures
            res == self@.contains_key(name@),
    {
        self.get(name).is_some()
    }

    /// Sets every hook to not clicked, keeping the hooks.
    pub fn deactivate(&mut self)
        ensures
            final(self)@.dom() == old(self)@.dom(),
            forall|k: Seq<char>| #[trigger] final(self)@.contains_key(k) ==> !final(self)@[k],
    {
        proof {
            use_type_invariant(&*self);
        }
        let ghost before = self.entries@;
        let mut entries: Vec<(String, bool)> = Vec::new();
        std::mem::swap(&mut entries, &mut self.entries);
        let mut i: usize = 0;
        while i < entries.len()
            invariant
                i <= entries@.len(),
                entries@.len() == before.len(),
                forall|k: int| 0 <= k < before.len() ==> #[trigger] entries@[k].0 == before[k].0,
                forall|k: int| 0 <= k < i ==> !#[trigger] entries@[k].1,
            decreases entries@.len() - i,
        {
            let (name, _) = entries.remove(i);
            entries.insert(i, (name, false));
            i = i + 1;
        }
        proof {
            assert forall|k: Seq<char>| hook_lookup(entries@, k) is Some == hook_lookup(before, k)
                is Some && (hook_lookup(entries@, k) is Some ==> !hook_lookup(entries@, k)->0) by {
                lemma_lookup_same_keys(before, entries@, k);
            }
            assert forall|p: int, q: int|
                0 <= p < entries@.len() && 0 <= q < entries@.len() && p != q implies entries@[p].0@
                    != entries@[q].0@ by {
                assert(entries@[p].0 == before[p].0);
                assert(entries@[q].0 == before[q].0);
            }
        }
        self.entries = entries;
        proof {
            assert(self@.dom() =~= old(self)@.dom());
        }
    }
}

proof fn lemma_lookup_update(s: Seq<(String, bool)>, i: int, e: (String, bool), k: Seq<char>)
    requires
        0 <= i < s.len(),
        s[i].0@ == e.0@,
        k != e.0@,
    ensures
        hook_lookup(s.update(i, e), k) == hook_lookup(s, k),
    decreases s.len(),
{
    if i > 0 {
        assert(s.update(i, e).drop_first() =~= s.drop_first().update(i - 1, e));
        lemma_lookup_update(s.drop_first(), i - 1, e, k);
    } else {
        assert(s.update(i, e).drop_first() =~= s.drop_first());
    }
}

proof fn lemma_lookup_push(s: Seq<(String, bool)>, e: (String, bool), k: Seq<char>)
    requires
        k != e.0@,
    ensures
        hook_lookup(s.push(e), k) == hook_lookup(s, k),
    decreases s.len(),
{
    if s.len() > 0 {
        assert(s.push(e).drop_first() =~= s.drop_first().push(e));
        lemma_lookup_push(s.drop_first(), e, k);
    } else {
        assert(s.push(e).drop_first() =~= s);
    }
}

proof fn lemma_lookup_remove(s: Seq<(String, bool)>, i: int, k: Seq<char>)
    requires
        0 <= i < s.len(),
        k != s[i].0@,
    ensures
        hook_lookup(s.remove(i), k) == hook_lookup(s, k),
    decreases s.len(),
{
    if i > 0 {
        assert(s.remove(i).drop_first() =~= s.drop_first().remove(i - 1));
        lemma_lookup_remove(s.drop_first(), i - 1, k);
    } else {
        assert(s.remove(i) =~= s.drop_first());
    }
}

proof fn lemma_lookup_same_keys(s: Seq<(String, bool)>, t: Seq<(String, bool)>, k: Seq<char>)
    requires
        s.len() == t.len(),
        forall|q: int| 0 <= q < s.len() ==> #[trigger] t[q].0 == s[q].0,
        forall|q: int| 0 <= q < t.len() ==> !#[trigger] t[q].1,
    ensures
        hook_lookup(t, k) is Some == hook_lookup(s, k) is Some,
        hook_lookup(t, k) is Some ==> !hook_lookup(t, k)->0,
    decreases s.len(),
{
    if s.len() > 0 {
        assert(t[0].0 == s[0].0);
        lemma_lookup_same_keys(s.drop_first(), t.drop_first(), k);
    }
}


/// The keys pressed in a frame that can scroll the document.
#[derive(Clone, Copy, PartialEq, Eq, Structural, Debug)]
pub struct ScrollKeys {
    pub home: bool,
    pub end: bool,
    pub page_up: bool,
    pub page_down: bool,
    pub arrow_up: bool,
    pub arrow_down: bool,
    /// The command modifier (Ctrl, or Cmd on macOS) is held.
    pub command: bool,
}

/// Which way a key press scrolls the document.
#[derive(Clone, Copy, PartialEq, Eq, Structural, Debug)]
pub enum KeyScroll {
    ToTop,
    ToBottom,
    PageUp,
    PageDown,
    LineUp,
    LineDown,
}

/// The scroll that the keys ask for: Home (or command and up) to the top,
/// End (or command and down) to the bottom, Page Up and Page Down by a
/// page, and up and down by a line, in that order of precedence.
pub open spec fn spec_key_scroll(keys: ScrollKeys) -> Option<KeyScroll> {
    if keys.home || (keys.command && keys.arrow_up) {
        Some(KeyScroll::ToTop)
    } else if keys.end || (keys.command && keys.arrow_down) {
        Some(KeyScroll::ToBottom)
    } else if keys.page_up {
        Some(KeyScroll::PageUp)
    } else if keys.page_down {
        Some(KeyScroll::PageDown)
    } else if !keys.command && keys.arrow_up {
        Some(KeyScroll::LineUp)
    } else if !keys.command && keys.arrow_down {
        Some(KeyScroll::LineDown)
    } else {
        None
    }
}

/// The scroll that the keys pressed in a frame ask for, if any.
pub fn key_scroll(keys: ScrollKeys) -> (res: Option<KeyScroll>)
    ensures
        res == spec_key_scroll(keys),
{
    if keys.home || (keys.command && keys.arrow_up) {
        Some(KeyScroll::ToTop)
    } else if keys.end || (keys.command && keys.arrow_down) {
        Some(KeyScroll::ToBottom)
    } else if keys.page_up {
        Some(KeyScroll::PageUp)
    } else if keys.page_down {
        Some(KeyScroll::PageDown)
    } else if !keys.command && keys.arrow_up {
        Some(KeyScroll::LineUp)
    } else if !keys.command && keys.arrow_down {
        Some(KeyScroll::LineDown)
    } else {
        None
    }
}

/// The keys with up and down exchanged: Home with End, Page Up with Page
/// Down, the up arrow with the down arrow.
pub open spec fn mirrored_keys(k: ScrollKeys) -> ScrollKeys {
    ScrollKeys {
        home: k.end,
        end: k.home,
        page_up: k.page_down,
        page_down: k.page_up,
        arrow_up: k.arrow_down,
        arrow_down: k.arrow_up,
        command: k.command,
    }
}

/// The same scroll in the other direction.
pub open spec fn mirrored_scroll(s: Option<KeyScroll>) -> Option<KeyScroll> {
    match s {
        Some(KeyScroll::ToTop) => Some(KeyScroll::ToBottom),
        Some(KeyScroll::ToBottom) => Some(KeyScroll::ToTop),
        Some(KeyScroll::PageUp) => Some(KeyScroll::PageDown),
        Some(KeyScroll::PageDown) => Some(KeyScroll::PageUp),
        Some(KeyScroll::LineUp) => Some(KeyScroll::LineDown),
        Some(KeyScroll::LineDown) => Some(KeyScroll::LineUp),
        None => None,
    }
}

/// Some key that points up is pressed.
pub open spec fn up_pressed(k: ScrollKeys) -> bool {
    k.home || k.page_up || k.arrow_up
}

/// Some key that points down is pressed.
pub open spec fn down_pressed(k: ScrollKeys) -> bool {
    k.end || k.page_down || k.arrow_down
}

/// Whether a scroll moves towards the top.
pub open spec fn scrolls_up(s: KeyScroll) -> bool {
    s == KeyScroll::ToTop || s == KeyScroll::PageUp || s == KeyScroll::LineUp
}

/// Keys pointing one way only scroll that way, and pressing the mirror
/// keys scrolls just as far the other way.
pub proof fn lemma_key_scroll_directions(keys: ScrollKeys)
    requires
        !(up_pressed(keys) && down_pressed(keys)),
    ensures
        spec_key_scroll(mirrored_keys(keys)) == mirrored_scroll(spec_key_scroll(keys)),
        up_pressed(keys) ==> (spec_key_scroll(keys) matches Some(s) && scrolls_up(s)),
        down_pressed(keys) ==> (spec_key_scroll(keys) matches Some(s) && !scrolls_up(s)),
        !up_pressed(keys) && !down_pressed(keys) ==> spec_key_scroll(keys) is None,
{
}

/// How far the keys scroll: an arrow alone by a line, an arrow with the
/// command modifier to the end it points to, Page Up or Page Down alone by
/// a page, Home or End to the top or bottom.
pub proof fn lemma_key_scroll_reach(keys: ScrollKeys)
    requires
        !(up_pressed(keys) && down_pressed(keys)),
    ensures
        !keys.home && !keys.end && !keys.page_up && !keys.page_down && !keys.command && (
        keys.arrow_up || keys.arrow_down) ==> (spec_key_scroll(keys) == Some(KeyScroll::LineUp)
            || spec_key_scroll(keys) == Some(KeyScroll::LineDown)),
        keys.command && (keys.arrow_up || keys.arrow_down) ==> (spec_key_scroll(keys) == Some(
            KeyScroll::ToTop,
        ) || spec_key_scroll(keys) == Some(KeyScroll::ToBottom)),
        !keys.home && !keys.end && !keys.arrow_up && !keys.arrow_down && (keys.page_up
            || keys.page_down) ==> (spec_key_scroll(keys) == Some(KeyScroll::PageUp)
            || spec_key_scroll(keys) == Some(KeyScroll::PageDown)),
        keys.home || keys.end ==> (spec_key_scroll(keys) == Some(KeyScroll::ToTop)
            || spec_key_scroll(keys) == Some(KeyScroll::ToBottom)),
{
}

/// How many frames a search-initiated scroll is protected from being
/// overridden by viewport-driven updates of the active match.
pub const SEARCH_SCROLL_PROTECTION_FRAMES: u32 = 30;

/// How many times a pending scroll to the active match is retried before it
/// is dropped.
pub const MAX_SCROLL_RETRIES: u8 = 8;

/// The active search range that belongs to match number `active`.
pub open spec fn range_of_match(ranges: Seq<Range<usize>>, active: Option<usize>) -> Option<
    Range<usize>,
> {
    match active {
        Some(i) => if i < ranges.len() {
            Some(ranges[i as int])
        } else {
            None
        },
        None => None,
    }
}

/// The number of leading ranges that start before `offset`.
pub open spec fn count_starting_before(ranges: Seq<Range<usize>>, offset: usize) -> nat
    decreases ranges.len(),
{
    if ranges.len() == 0 {
        0
    } else if ranges[0].start < offset {
        1 + count_starting_before(ranges.drop_first(), offset)
    } else {
        0
    }
}

/// The Euclidean remainder of a negative `x`, from that of `-x - 1`.
proof fn lemma_negative_mod(x: int, n: int, m: int)
    requires
        x < 0,
        n > 0,
        m == -x - 1,
    ensures
        0 <= n - 1 - m % n < n,
        x % n == n - 1 - m % n,
{
    vstd::arithmetic::div_mod::lemma_fundamental_div_mod(m, n);
    let q = m / n;
    let r = m % n;
    assert(0 <= r < n);
    assert(x == (-q - 1) * n + (n - 1 - r)) by (nonlinear_arith)
        requires
            m == n * q + r,
            x == -m - 1,
    ;
    vstd::arithmetic::div_mod::lemma_fundamental_div_mod_converse(x, n, -q - 1, n - 1 - r);
}

/// The match that stepping `delta` matches from `active` lands on, among
/// `len` matches: counted from the active match and wrapping around the
/// ends; without an active match, the first match for `delta >= 0` and the
/// last one otherwise.
pub open spec fn stepped_match(active: Option<usize>, len: int, delta: int) -> int {
    match active {
        Some(i) => (i + delta) % len,
        None => if delta >= 0 {
            0
        } else {
            len - 1
        },
    }
}

/// One retry of a pending scroll with `retries` retries made so far:
/// whether it is granted, and the retries made afterwards.
pub open spec fn retry_step(retries: u8) -> (bool, u8) {
    if retries < MAX_SCROLL_RETRIES {
        (true, (retries + 1) as u8)
    } else {
        (false, retries)
    }
}

/// One frame's gate on viewport-driven moves of the active match, from the
/// protection frames left and the lock of an explicit step: the
/// protection and lock afterwards, and whether the active match may move
/// this frame. User scrolling clears both; the protection counts down one
/// frame per call.
pub open spec fn sync_gate(protection: u32, locked: bool, user_scrolled: bool) -> (u32, bool, bool) {
    let p = if user_scrolled {
        0
    } else {
        protection
    };
    let l = !user_scrolled && locked;
    (if p > 0 {
        (p - 1) as u32
    } else {
        0
    }, l, p == 0 && !l)
}

/// The regex pattern that a search for `query` uses: the query itself for
/// a regex search, else the query with its meta characters escaped; for a
/// whole-word search, wrapped in word boundaries.
pub open spec fn search_pattern(query: Seq<char>, options: u8) -> Seq<char> {
    let base = if options & SearchOptions::REGEX == SearchOptions::REGEX {
        query
    } else {
        spec_regex_escape(query)
    };
    if options & SearchOptions::WHOLE_WORD == SearchOptions::WHOLE_WORD {
        seq!['\\', 'b', '(', '?', ':'] + base + seq![')', '\\', 'b']
    } else {
        base
    }
}

/// The pattern of a search is its core, the query itself for a regex
/// search and the query with its meta characters escaped otherwise, and a
/// whole-word search only wraps that same core in word boundaries: turning
/// whole word on or off never changes how the query itself is read.
pub proof fn lemma_search_pattern_core(query: Seq<char>, options: u8)
    ensures
        ({
            let plain = options & !SearchOptions::WHOLE_WORD;
            let whole = options | SearchOptions::WHOLE_WORD;
            &&& options & SearchOptions::REGEX == SearchOptions::REGEX ==> search_pattern(
                query,
                plain,
            ) == query
            &&& options & SearchOptions::REGEX != SearchOptions::REGEX ==> search_pattern(
                query,
                plain,
            ) == spec_regex_escape(query)
            &&& search_pattern(query, whole) == seq!['\\', 'b', '(', '?', ':'] + search_pattern(
                query,
                plain,
            ) + seq![')', '\\', 'b']
        }),
{
    let plain = options & !SearchOptions::WHOLE_WORD;
    let whole = options | SearchOptions::WHOLE_WORD;
    assert(plain & 2u8 != 2u8) by (bit_vector)
        requires
            plain == options & !2u8,
    ;
    assert(whole & 2u8 == 2u8) by (bit_vector)
        requires
            whole == options | 2u8,
    ;
    assert((plain & 4u8 == 4u8) == (options & 4u8 == 4u8)) by (bit_vector)
        requires
            plain == options & !2u8,
    ;
    assert((whole & 4u8 == 4u8) == (options & 4u8 == 4u8)) by (bit_vector)
        requires
            whole == options | 2u8,
    ;
}

/// Whether a search with `options` ignores case.
pub open spec fn search_case_insensitive(options: u8) -> bool {
    options & SearchOptions::CASE_SENSITIVE != SearchOptions::CASE_SENSITIVE
}

/// The index of the first range that starts at or after `anchor`; 0 if
/// none does.
pub open spec fn first_at_or_after(ranges: Seq<Range<usize>>, anchor: usize) -> nat {
    let c = count_starting_before(ranges, anchor);
    if c < ranges.len() {
        c
    } else {
        0
    }
}

/// The number of leading ranges that start before `offset`: for ranges
/// sorted by start, the partition point of the ranges before `offset`.
fn count_before(ranges: &Vec<Range<usize>>, offset: usize) -> (res: usize)
    ensures
        res == count_starting_before(ranges@, offset),
{
    let mut i: usize = 0;
    assert(ranges@.skip(0) =~= ranges@);
    while i < ranges.len()
        invariant
            i <= ranges@.len(),
            count_starting_before(ranges@, offset) == i + count_starting_before(
                ranges@.skip(i as int),
                offset,
            ),
        decreases ranges@.len() - i,
    {
        assert(ranges@.skip(i as int)[0] == ranges@[i as int]);
        if ranges[i].start >= offset {
            return i;
        }
        assert(ranges@.skip(i as int).drop_first() =~= ranges@.skip(i + 1));
        i = i + 1;
    }
    i
}

/// A cache used for storing content such as link hooks and the state of a
/// search.
#[derive(Debug)]
pub struct CommonMarkCache {
    /// The ID of the heading to scroll to. This is set when a link whose destination is a fragment (e.g. `#my-heading`) has been clicked.
    scroll_to_id_target: Option<String>,
    link_hooks: LinkHooks,
    has_installed_loaders: bool,
    /// The alert bundle used to detect alert markers in blockquotes so that
    /// [`update_search_matches`](Self::update_search_matches) can skip them.
    pub alerts: AlertBundle,
    /// The search query text
    pub search_query: String,
    /// The search options
    pub search_options: SearchOptions,
    /// Any regex message, e.g. when an escape character is being typed
    pub search_regex_error: Option<String>,
    /// Byte ranges (into the source text passed to the viewer) that should
    /// be highlighted as search matches.
    search_ranges: Vec<Range<usize>>,
    /// The currently active (focused) search match.
    active_search_range: Option<Range<usize>>,
    /// The ordinal number of the active search match
    active_match: Option<usize>,
    /// The byte offset of the last viewport, relative to the document.
    last_viewport_offset: usize,
    /// Counts down after a search-initiated scroll.
    search_scroll_protection: u32,
    /// Holds the explicitly chosen match until the user next scrolls.
    go_to_match_locked: bool,
    /// Set when a scroll to the active match is requested, cleared once a
    /// render pass takes it.
    pending_scroll_to_active_match: bool,
    /// Number of consecutive retries of the pending scroll.
    pending_scroll_to_active_match_retries: u8,
}

impl Default for CommonMarkCache {
    fn default() -> (res: Self)
        ensures
            res.spec_scroll_to_id_target() is None,
            res.spec_link_hooks() == Map::<Seq<char>, bool>::empty(),
            !res.spec_has_installed_loaders(),
            is_gfm(&res.spec_alerts()),
            res.spec_search_query()@ == Seq::<char>::empty(),
            res.spec_search_options().bits == 0,
            res.spec_search_regex_error() is None,
            res.spec_search_ranges() == Seq::<Range<usize>>::empty(),
            res.spec_active_search_range() is None,
            res.spec_active_match() is None,
            res.spec_last_viewport_offset() == 0,
            res.spec_search_scroll_protection() == 0,
            !res.spec_go_to_match_locked(),
            !res.spec_pending_scroll(),
            res.spec_pending_scroll_retries() == 0,
    {
        CommonMarkCache::new()
    }
}

impl CommonMarkCache {
    pub closed spec fn spec_scroll_to_id_target(&self) -> Option<String> {
        self.scroll_to_id_target
    }

    pub closed spec fn spec_link_hooks(&self) -> Map<Seq<char>, bool> {
        self.link_hooks@
    }

    pub closed spec fn spec_has_installed_loaders(&self) -> bool {
        self.has_installed_loaders
    }

    pub closed spec fn spec_alerts(&self) -> AlertBundle {
        self.alerts
    }

    pub closed spec fn spec_search_query(&self) -> String {
        self.search_query
    }

    pub closed spec fn spec_search_options(&self) -> SearchOptions {
        self.search_options
    }

    pub closed spec fn spec_search_regex_error(&self) -> Option<String> {
        self.search_regex_error
    }

    pub closed spec fn spec_search_ranges(&self) -> Seq<Range<usize>> {
        self.search_ranges@
    }

    pub closed spec fn spec_active_search_range(&self) -> Option<Range<usize>> {
        self.active_search_range
    }

    pub closed spec fn spec_active_match(&self) -> Option<usize> {
        self.active_match
    }

    pub closed spec fn spec_last_viewport_offset(&self) -> usize {
        self.last_viewport_offset
    }

    pub closed spec fn spec_search_scroll_protection(&self) -> u32 {
        self.search_scroll_protection
    }

    pub closed spec fn spec_go_to_match_locked(&self) -> bool {
        self.go_to_match_locked
    }

    pub closed spec fn spec_pending_scroll(&self) -> bool {
        self.pending_scroll_to_active_match
    }

    pub closed spec fn spec_pending_scroll_retries(&self) -> u8 {
        self.pending_scroll_to_active_match_retries
    }

    /// The active range is the range of the active match.
    pub open spec fn active_in_sync(&self) -> bool {
        self.spec_active_search_range() == range_of_match(
            self.spec_search_ranges(),
            self.spec_active_match(),
        )
    }

    /// Everything that a viewport-driven update may change is unchanged:
    /// the search state apart from the active match, its range and the
    /// scroll bookkeeping.
    pub open spec fn same_search(&self, other: &Self) -> bool {
        &&& self.spec_search_ranges() == other.spec_search_ranges()
        &&& self.spec_link_hooks() == other.spec_link_hooks()
        &&& self.spec_has_installed_loaders() == other.spec_has_installed_loaders()
        &&& self.spec_alerts() == other.spec_alerts()
        &&& self.spec_search_query() == other.spec_search_query()
        &&& self.spec_search_options() == other.spec_search_options()
        &&& self.spec_search_regex_error() == other.spec_search_regex_error()
        &&& self.spec_pending_scroll() == other.spec_pending_scroll()
        &&& self.spec_pending_scroll_retries() == other.spec_pending_scroll_retries()
    }

    /// The fields that no search or scroll operation touches: the heading
    /// scroll target, the alerts, the search query and the search options.
    pub open spec fn same_settings(&self, other: &Self) -> bool {
        &&& self.spec_scroll_to_id_target() == other.spec_scroll_to_id_target()
        &&& self.spec_alerts() == other.spec_alerts()
        &&& self.spec_search_query() == other.spec_search_query()
        &&& self.spec_search_options() == other.spec_search_options()
    }

    /// The whole state of the search and its scrolling is unchanged: the
    /// matches, the active one and its range, the regex error, the last
    /// viewport offset, the protection, the lock and the pending scroll.
    pub open spec fn same_search_state(&self, other: &Self) -> bool {
        &&& self.spec_search_ranges() == other.spec_search_ranges()
        &&& self.spec_active_match() == other.spec_active_match()
        &&& self.spec_active_search_range() == other.spec_active_search_range()
        &&& self.spec_search_regex_error() == other.spec_search_regex_error()
        &&& self.spec_last_viewport_offset() == other.spec_last_viewport_offset()
        &&& self.spec_search_scroll_protection() == other.spec_search_scroll_protection()
        &&& self.spec_go_to_match_locked() == other.spec_go_to_match_locked()
        &&& self.spec_pending_scroll() == other.spec_pending_scroll()
        &&& self.spec_pending_scroll_retries() == other.spec_pending_scroll_retries()
    }

    /// A fresh cache: no search, no hooks, the GitHub-flavoured alerts.
    pub fn new() -> (res: Self)
        ensures
            res.spec_scroll_to_id_target() is None,
            res.spec_link_hooks() == Map::<Seq<char>, bool>::empty(),
            !res.spec_has_installed_loaders(),
            is_gfm(&res.spec_alerts()),
            res.spec_search_query()@ == Seq::<char>::empty(),
            res.spec_search_options().bits == 0,
            res.spec_search_regex_error() is None,
            res.spec_search_ranges() == Seq::<Range<usize>>::empty(),
            res.spec_active_search_range() is None,
            res.spec_active_match() is None,
            res.spec_last_viewport_offset() == 0,
            res.spec_search_scroll_protection() == 0,
            !res.spec_go_to_match_locked(),
            !res.spec_pending_scroll(),
            res.spec_pending_scroll_retries() == 0,
    {
        CommonMarkCache {
            scroll_to_id_target: None,
            link_hooks: LinkHooks::new(),
            has_installed_loaders: false,
            alerts: AlertBundle::gfm(),
            search_query: String::new(),
            search_options: SearchOptions::empty(),
            search_regex_error: None,
            search_ranges: Vec::new(),
            active_search_range: None,
            active_match: None,
            last_viewport_offset: 0,
            search_scroll_protection: 0,
            go_to_match_locked: false,
            pending_scroll_to_active_match: false,
            pending_scroll_to_active_match_retries: 0,
        }
    }

    /// Get the desired fragment. This is the id which will be scrolled to if it is found in the markdown.
    pub fn scroll_to_id_target(&self) -> (res: Option<&str>)
        ensures
            match res {
                Some(s) => self.spec_scroll_to_id_target() matches Some(t) && s@ == t@,
                None => self.spec_scroll_to_id_target() is None,
            },
    {
        match &self.scroll_to_id_target {
            Some(s) => Some(s.as_str()),
            None => None,
        }
    }

    /// Sets the desired fragment; `None` prevents scrolling.
    pub fn set_scroll_to_id_target(&mut self, target: Option<String>)
        ensures
            final(self).spec_scroll_to_id_target() == target,
            final(self).same_search(old(self)),
            final(self).same_search_state(old(self)),
    {
        self.scroll_to_id_target = target;
    }

    /// Takes the desired fragment out, leaving none.
    pub fn take_scroll_to_id_target(&mut self) -> (res: Option<String>)
        ensures
            res == old(self).spec_scroll_to_id_target(),
            final(self).spec_scroll_to_id_target() is None,
            final(self).same_search(old(self)),
            final(self).same_search_state(old(self)),
    {
        self.scroll_to_id_target.take()
    }

    /// Set the byte ranges (into the source text passed to the viewer) that
    /// should be highlighted as search matches.
    pub fn set_search_ranges(&mut self, ranges: Vec<Range<usize>>)
        ensures
            final(self).spec_search_ranges() == ranges@,
            final(self).spec_active_match() == old(self).spec_active_match(),
            final(self).spec_active_search_range() == old(self).spec_active_search_range(),
            final(self).spec_pending_scroll() == old(self).spec_pending_scroll(),
            final(self).spec_pending_scroll_retries() == old(self).spec_pending_scroll_retries(),
            final(self).spec_search_regex_error() == old(self).spec_search_regex_error(),
            final(self).spec_last_viewport_offset() == old(self).spec_last_viewport_offset(),
            final(self).spec_search_scroll_protection() == old(self).spec_search_scroll_protection(),
            final(self).spec_go_to_match_locked() == old(self).spec_go_to_match_locked(),
            final(self).same_settings(old(self)),
            final(self).spec_link_hooks() == old(self).spec_link_hooks(),
            final(self).spec_has_installed_loaders() == old(self).spec_has_installed_loaders(),
    {
        self.search_ranges = ranges;
    }

    /// The search match ranges currently set for highlighting.
    pub fn search_ranges(&self) -> (res: &[Range<usize>])
        ensures
            res@ == self.spec_search_ranges(),
    {
        self.search_ranges.as_slice()
    }

    /// Set the active (focused) search match. Pass `None` to clear it.
    pub fn set_active_search_range(&mut self, range: Option<Range<usize>>)
        ensures
            final(self).spec_active_search_range() == range,
            final(self).same_search(old(self)),
            final(self).same_settings(old(self)),
            final(self).spec_active_match() == old(self).spec_active_match(),
            final(self).spec_search_regex_error() == old(self).spec_search_regex_error(),
            final(self).spec_last_viewport_offset() == old(self).spec_last_viewport_offset(),
            final(self).spec_search_scroll_protection() == old(self).spec_search_scroll_protection(),
            final(self).spec_go_to_match_locked() == old(self).spec_go_to_match_locked(),
    {
        self.active_search_range = range;
    }

    /// The currently active (focused) search match, if any.
    pub fn active_search_range(&self) -> (res: Option<&Range<usize>>)
        ensures
            match res {
                Some(r) => self.spec_active_search_range() == Some(*r),
                None => self.spec_active_search_range() is None,
            },
    {
        self.active_search_range.as_ref()
    }

    /// The ordinal number of the currently active (focused) search match, if any.
    pub fn active_match(&self) -> (res: Option<usize>)
        ensures
            res == self.spec_active_match(),
    {
        self.active_match
    }

    /// Request that the view scroll so that the active search match becomes
    /// visible. The request is consumed by the next render.
    pub fn scroll_to_active_search_match(&mut self)
        ensures
            final(self).spec_pending_scroll(),
            final(self).spec_pending_scroll_retries() == 0,
            final(self).spec_search_ranges() == old(self).spec_search_ranges(),
            final(self).spec_active_match() == old(self).spec_active_match(),
            final(self).spec_active_search_range() == old(self).spec_active_search_range(),
            final(self).spec_link_hooks() == old(self).spec_link_hooks(),
            final(self).spec_alerts() == old(self).spec_alerts(),
            final(self).spec_search_query() == old(self).spec_search_query(),
            final(self).spec_search_options() == old(self).spec_search_options(),
            final(self).spec_search_regex_error() == old(self).spec_search_regex_error(),
            final(self).spec_go_to_match_locked() == old(self).spec_go_to_match_locked(),
            final(self).spec_search_scroll_protection() == old(self).spec_search_scroll_protection(),
            final(self).spec_last_viewport_offset() == old(self).spec_last_viewport_offset(),
            final(self).spec_scroll_to_id_target() == old(self).spec_scroll_to_id_target(),
            final(self).spec_has_installed_loaders() == old(self).spec_has_installed_loaders(),
    {
        self.pending_scroll_to_active_match = true;
        self.pending_scroll_to_active_match_retries = 0;
    }

    /// Takes (and clears) the pending scroll-to-active-match request.
    pub fn take_pending_scroll_to_active_match(&mut self) -> (res: bool)
        ensures
            res == old(self).spec_pending_scroll(),
            !final(self).spec_pending_scroll(),
            final(self).spec_pending_scroll_retries() == old(self).spec_pending_scroll_retries(),
            final(self).spec_search_ranges() == old(self).spec_search_ranges(),
            final(self).spec_active_match() == old(self).spec_active_match(),
            final(self).spec_active_search_range() == old(self).spec_active_search_range(),
            final(self).spec_search_regex_error() == old(self).spec_search_regex_error(),
            final(self).spec_last_viewport_offset() == old(self).spec_last_viewport_offset(),
            final(self).spec_search_scroll_protection() == old(self).spec_search_scroll_protection(),
            final(self).spec_go_to_match_locked() == old(self).spec_go_to_match_locked(),
            final(self).same_settings(old(self)),
            final(self).spec_link_hooks() == old(self).spec_link_hooks(),
            final(self).spec_has_installed_loaders() == old(self).spec_has_installed_loaders(),
    {
        let pending = self.pending_scroll_to_active_match;
        self.pending_scroll_to_active_match = false;
        pending
    }

    /// Re-arms the pending scroll-to-active-match request for another
    /// attempt, unless the retry budget has been exhausted, in which case
    /// the request is dropped and `false` is returned.
    pub fn retry_scroll_to_active_match(&mut self) -> (res: bool)
        ensures
            (res, final(self).spec_pending_scroll_retries()) == retry_step(
                old(self).spec_pending_scroll_retries(),
            ),
            final(self).spec_pending_scroll() == res,
            final(self).spec_search_ranges() == old(self).spec_search_ranges(),
            final(self).spec_active_match() == old(self).spec_active_match(),
            final(self).spec_active_search_range() == old(self).spec_active_search_range(),
            final(self).spec_search_regex_error() == old(self).spec_search_regex_error(),
            final(self).spec_last_viewport_offset() == old(self).spec_last_viewport_offset(),
            final(self).spec_search_scroll_protection() == old(self).spec_search_scroll_protection(),
            final(self).spec_go_to_match_locked() == old(self).spec_go_to_match_locked(),
            final(self).same_settings(old(self)),
            final(self).spec_link_hooks() == old(self).spec_link_hooks(),
            final(self).spec_has_installed_loaders() == old(self).spec_has_installed_loaders(),
    {
        if self.pending_scroll_to_active_match_retries >= MAX_SCROLL_RETRIES {
            self.pending_scroll_to_active_match = false;
            return false;
        }
        self.pending_scroll_to_active_match_retries = self.pending_scroll_to_active_match_retries
            + 1;
        self.pending_scroll_to_active_match = true;
        true
    }

    // Update the active search range to the desired ordinal value
    fn sync_active_search_range(&mut self)
        ensures
            final(self).active_in_sync(),
            final(self).spec_active_match() == old(self).spec_active_match(),
            final(self).same_search(old(self)),
            final(self).spec_last_viewport_offset() == old(self).spec_last_viewport_offset(),
            final(self).spec_search_scroll_protection() == old(self).spec_search_scroll_protection(),
            final(self).spec_go_to_match_locked() == old(self).spec_go_to_match_locked(),
            final(self).same_settings(old(self)),
            final(self).spec_search_regex_error() == old(self).spec_search_regex_error(),
    {
        let r = match self.active_match {
            Some(i) => if i < self.search_ranges.len() {
                Some(Range { start: self.search_ranges[i].start, end: self.search_ranges[i].end })
            } else {
                None
            },
            None => None,
        };
        self.active_search_range = r;
    }

    /// Scroll back or forward `delta` matches (according to the sign of
    /// `delta`) if applicable: from the active match, wrapping around the
    /// ends; without an active match, to the first match for `delta >= 0`
    /// and to the last one otherwise.
    pub fn go_to_match(&mut self, delta: isize)
        requires
            match old(self).spec_active_match() {
                Some(i) => old(self).spec_search_ranges().len() > 0 ==> i <= isize::MAX
                    && isize::MIN <= i + delta <= isize::MAX,
                None => true,
            },
            old(self).spec_search_ranges().len() <= isize::MAX,
        ensures
            old(self).spec_search_ranges().len() == 0 ==> *final(self) == *old(self),
            old(self).spec_search_ranges().len() > 0 ==> {
                let len = old(self).spec_search_ranges().len() as int;
                &&& final(self).spec_active_match() == Some(
                    stepped_match(old(self).spec_active_match(), len, delta as int) as usize,
                )
                &&& final(self).active_in_sync()
                &&& final(self).spec_search_ranges() == old(self).spec_search_ranges()
                &&& final(self).spec_pending_scroll()
                &&& final(self).spec_pending_scroll_retries() == 0
                &&& final(self).spec_search_scroll_protection()
                    == SEARCH_SCROLL_PROTECTION_FRAMES
                &&& final(self).spec_go_to_match_locked()
                &&& final(self).same_settings(old(self))
                &&& final(self).spec_link_hooks() == old(self).spec_link_hooks()
                &&& final(self).spec_has_installed_loaders()
                    == old(self).spec_has_installed_loaders()
                &&& final(self).spec_search_regex_error() == old(self).spec_search_regex_error()
                &&& final(self).spec_last_viewport_offset()
                    == old(self).spec_last_viewport_offset()
            },
    {
        if self.search_ranges.len() == 0 {
            return;
        }
        let len = self.search_ranges.len();
        let next: usize = match self.active_match {
            Some(i) => {
                let sum = i as isize + delta;
                if sum >= 0 {
                    let r = (sum as usize) % len;
                    proof {
                        vstd::arithmetic::div_mod::lemma_fundamental_div_mod(sum as int, len as int);
                    }
                    r
                } else {
                    let m = (-(sum + 1)) as usize;
                    let r = len - 1 - m % len;
                    proof {
                        lemma_negative_mod(sum as int, len as int, m as int);
                    }
                    r
                }
            },
            None => if delta >= 0 {
                0
            } else {
                len - 1
            },
        };
        self.active_match = Some(next);
        self.sync_active_search_range();
        self.scroll_to_active_search_match();
        self.search_scroll_protection = SEARCH_SCROLL_PROTECTION_FRAMES;
        self.go_to_match_locked = true;
    }

    /// The active match after a viewport-driven sync that no user scroll
    /// forces: `nearest` where the active match is another one and is off
    /// screen, else the active match unchanged.
    pub open spec fn synced_match(
        &self,
        nearest: usize,
        active_in_viewport: bool,
    ) -> Option<usize> {
        if self.spec_active_match() != Some(nearest) && !active_in_viewport {
            Some(nearest)
        } else {
            self.spec_active_match()
        }
    }

    /// What `self` becomes when [`sync_active_match`](Self::sync_active_match)
    /// is called on `old` with these arguments.
    pub open spec fn synced_by(
        &self,
        old: &Self,
        user_scrolled: bool,
        nearest: Option<usize>,
        active_in_viewport: bool,
    ) -> bool {
        let (protection, locked, may_move) = sync_gate(
            old.spec_search_scroll_protection(),
            old.spec_go_to_match_locked(),
            user_scrolled,
        );
        &&& self.spec_go_to_match_locked() == locked
        &&& self.spec_search_scroll_protection() == protection
        &&& self.spec_active_match() == (if may_move && old.spec_search_ranges().len() > 0
            && nearest is Some {
            if user_scrolled {
                Some(nearest->0)
            } else {
                old.synced_match(nearest->0, active_in_viewport)
            }
        } else {
            old.spec_active_match()
        })
        &&& self.spec_active_match() != old.spec_active_match() ==> self.active_in_sync()
        &&& self.spec_active_match() == old.spec_active_match()
            ==> self.spec_active_search_range() == old.spec_active_search_range()
        &&& self.same_search(old)
        &&& self.same_settings(old)
        &&& self.spec_last_viewport_offset() == old.spec_last_viewport_offset()
    }

    /// Synchronises the active search match to the current scroll position
    /// for documents displayed without a viewport cache. Call this once per
    /// frame immediately after showing the document.
    ///
    /// `user_scrolled` is whether the frame received explicit user scroll
    /// input: it cancels the protection of a search-initiated scroll and the
    /// lock set by [`go_to_match`](Self::go_to_match), and the active match
    /// re-anchors at once to `nearest`. Otherwise the protection counts
    /// down, one frame per call, and once it and the lock are gone the
    /// active match moves to `nearest` only when it has scrolled out of the
    /// viewport.
    ///
    /// `nearest` is the first match at or after the viewport top (or the
    /// last match if none is), `None` if no match positions were recorded;
    /// `active_in_viewport` is whether the active match is on screen.
    pub fn sync_active_match(
        &mut self,
        user_scrolled: bool,
        nearest: Option<usize>,
        active_in_viewport: bool,
    )
        ensures
            final(self).synced_by(old(self), user_scrolled, nearest, active_in_viewport),
    {
        if user_scrolled {
            self.search_scroll_protection = 0;
            self.go_to_match_locked = false;
        }
        if self.search_scroll_protection > 0 {
            self.search_scroll_protection = self.search_scroll_protection - 1;
            return;
        }
        if self.go_to_match_locked {
            return;
        }
        if self.search_ranges.len() == 0 {
            return;
        }
        let nearest = match nearest {
            Some(n) => n,
            None => {
                return;
            },
        };
        if self.active_match != Some(nearest) {
            if user_scrolled || !active_in_viewport {
                self.active_match = Some(nearest);
                self.sync_active_search_range();
            }
        }
    }

    /// Synchronises the active search match after the viewer has shown a
    /// scrollable document. With the viewport cache, the active match
    /// follows the viewport's byte offset `current_offset`: whenever it
    /// changed and no search scroll is still protected, the active match
    /// becomes the last match starting before it (the last match if none
    /// does), unless the active match is still in the viewport. Without the
    /// viewport cache this is [`sync_active_match`](Self::sync_active_match).
    pub fn sync_scrollable_active_match(
        &mut self,
        current_offset: usize,
        viewport_cache: bool,
        user_scrolled: bool,
        nearest: Option<usize>,
        active_in_viewport: bool,
    )
        ensures
            !viewport_cache ==> final(self).synced_by(
                old(self),
                user_scrolled,
                nearest,
                active_in_viewport,
            ),
            viewport_cache ==> ({
                let protection = if user_scrolled {
                    0
                } else {
                    old(self).spec_search_scroll_protection()
                };
                let ranges = old(self).spec_search_ranges();
                let idx = count_starting_before(ranges, current_offset);
                let target = if idx > 0 {
                    (idx - 1) as usize
                } else {
                    (ranges.len() - 1) as usize
                };
                &&& final(self).spec_go_to_match_locked() == (!user_scrolled
                    && old(self).spec_go_to_match_locked())
                &&& final(self).spec_last_viewport_offset() == current_offset
                &&& final(self).spec_search_scroll_protection() == (if protection > 0 {
                    (protection - 1) as u32
                } else {
                    0
                })
                &&& final(self).spec_active_match() == (if ranges.len() > 0 && protection == 0
                    && current_offset != old(self).spec_last_viewport_offset() {
                    old(self).synced_match(target, active_in_viewport)
                } else {
                    old(self).spec_active_match()
                })
                &&& final(self).spec_active_match() != old(self).spec_active_match()
                    ==> final(self).active_in_sync()
                &&& final(self).spec_active_match() == old(self).spec_active_match()
                    ==> final(self).spec_active_search_range()
                    == old(self).spec_active_search_range()
            }),
            final(self).same_search(old(self)),
            final(self).same_settings(old(self)),
    {
        if !viewport_cache {
            self.sync_active_match(user_scrolled, nearest, active_in_viewport);
            return;
        }
        if user_scrolled {
            self.search_scroll_protection = 0;
            self.go_to_match_locked = false;
        }
        if self.search_ranges.len() > 0 && self.search_scroll_protection == 0 && current_offset
            != self.last_viewport_offset {
            let len = self.search_ranges.len();
            let idx = count_before(&self.search_ranges, current_offset);
            let target = if idx > 0 {
                idx - 1
            } else {
                len - 1
            };
            if self.active_match != Some(target) {
                if !active_in_viewport {
                    self.active_match = Some(target);
                    self.sync_active_search_range();
                }
            }
        }
        self.last_viewport_offset = current_offset;
        if self.search_scroll_protection > 0 {
            self.search_scroll_protection = self.search_scroll_protection - 1;
        }
    }

    /// Cancels the protection of a search-initiated scroll, as explicit user
    /// scroll input does.
    pub fn reset_search_scroll_protection(&mut self)
        ensures
            final(self).spec_search_scroll_protection() == 0,
            final(self).same_search(old(self)),
            final(self).same_settings(old(self)),
            final(self).spec_active_match() == old(self).spec_active_match(),
            final(self).spec_active_search_range() == old(self).spec_active_search_range(),
            final(self).spec_go_to_match_locked() == old(self).spec_go_to_match_locked(),
            final(self).spec_search_regex_error() == old(self).spec_search_regex_error(),
            final(self).spec_last_viewport_offset() == old(self).spec_last_viewport_offset(),
    {
        self.search_scroll_protection = 0;
    }

    /// Should be called before any rendering: returns whether the image
    /// loaders still have to be installed (only the first time), and sets
    /// every link hook to not clicked.
    pub fn prepare_show(&mut self) -> (res: bool)
        ensures
            res == !old(self).spec_has_installed_loaders(),
            final(self).spec_has_installed_loaders(),
            final(self).spec_link_hooks().dom() == old(self).spec_link_hooks().dom(),
            forall|k: Seq<char>|
                #[trigger] final(self).spec_link_hooks().contains_key(k)
                    ==> !final(self).spec_link_hooks()[k],
            final(self).same_settings(old(self)),
            final(self).same_search_state(old(self)),
    {
        let install = !self.has_installed_loaders;
        self.has_installed_loaders = true;
        self.link_hooks.deactivate();
        install
    }

    /// Watch clicks on links to `name`. Its state is set to false.
    pub fn add_link_hook(&mut self, name: String)
        ensures
            final(self).spec_link_hooks() == old(self).spec_link_hooks().insert(name@, false),
            final(self).same_settings(old(self)),
            final(self).same_search_state(old(self)),
            final(self).spec_has_installed_loaders() == old(self).spec_has_installed_loaders(),
    {
        self.link_hooks.insert(name, false);
    }

    /// Returns None if the link hook could not be found. Returns the last known status of the
    /// hook otherwise.
    pub fn remove_link_hook(&mut self, name: &str) -> (res: Option<bool>)
        ensures
            res == (if old(self).spec_link_hooks().contains_key(name@) {
                Some(old(self).spec_link_hooks()[name@])
            } else {
                None
            }),
            final(self).spec_link_hooks() == old(self).spec_link_hooks().remove(name@),
            final(self).same_settings(old(self)),
            final(self).same_search_state(old(self)),
            final(self).spec_has_installed_loaders() == old(self).spec_has_installed_loaders(),
    {
        self.link_hooks.remove(name)
    }

    /// Get status of link. Returns true if it was clicked
    pub fn get_link_hook(&self, name: &str) -> (res: Option<bool>)
        ensures
            res == (if self.spec_link_hooks().contains_key(name@) {
                Some(self.spec_link_hooks()[name@])
            } else {
                None
            }),
    {
        self.link_hooks.get(name)
    }

    /// Remove all link hooks
    pub fn link_hooks_clear(&mut self)
        ensures
            final(self).spec_link_hooks() == Map::<Seq<char>, bool>::empty(),
            final(self).same_settings(old(self)),
            final(self).same_search_state(old(self)),
            final(self).spec_has_installed_loaders() == old(self).spec_has_installed_loaders(),
    {
        self.link_hooks.clear();
    }

    /// All link hooks
    pub fn link_hooks(&self) -> (res: &LinkHooks)
        ensures
            res@ == self.spec_link_hooks(),
    {
        &self.link_hooks
    }

    /// Raw access to link hooks
    pub fn link_hooks_mut(&mut self) -> (res: &mut LinkHooks)
        ensures
            res@ == old(self).spec_link_hooks(),
            final(self).spec_link_hooks() == final(res)@,
            final(self).same_settings(old(self)),
            final(self).same_search_state(old(self)),
            final(self).spec_has_installed_loaders() == old(self).spec_has_installed_loaders(),
    {
        &mut self.link_hooks
    }


    /// Where a new search anchors: the start of the active match's range if
    /// there is one, else the viewport's byte offset, else the top.
    pub open spec fn search_anchor(&self, viewport_start: Option<usize>) -> usize {
        match range_of_match(self.spec_search_ranges(), self.spec_active_match()) {
            Some(r) => r.start,
            None => match viewport_start {
                Some(v) => v,
                None => 0,
            },
        }
    }

    /// Recomputes the search matches from the *rendered* text of `content`
    /// only (text and code, never link destinations, heading attributes or
    /// other markdown syntax), and advances the active match to the first
    /// match at or after the anchor: the active match's position if there
    /// is one, else `viewport_start`, the byte offset of the top of the
    /// viewport if the caller knows it, else the top of the document.
    /// Wraps to the first match if none is after the anchor.
    ///
    /// An empty query clears the matches. A pattern that does not build
    /// records the error message and clears the matches.
    pub fn update_search_matches(&mut self, viewport_start: Option<usize>, content: &str)
        ensures
            ({
                let anchor = old(self).search_anchor(viewport_start);
                let query = old(self).spec_search_query()@;
                let opts = old(self).spec_search_options().bits;
                let pattern = search_pattern(query, opts);
                let ci = search_case_insensitive(opts);
                &&& final(self).spec_search_query() == old(self).spec_search_query()
                &&& final(self).spec_search_options() == old(self).spec_search_options()
                &&& final(self).spec_alerts() == old(self).spec_alerts()
                &&& final(self).spec_link_hooks() == old(self).spec_link_hooks()
                &&& final(self).spec_go_to_match_locked() == old(self).spec_go_to_match_locked()
                &&& final(self).same_settings(old(self))
                &&& final(self).spec_has_installed_loaders()
                    == old(self).spec_has_installed_loaders()
                &&& final(self).spec_last_viewport_offset() == old(self).spec_last_viewport_offset()
                &&& if query.len() == 0 || spec_regex_error(pattern, ci) is Some {
                    &&& final(self).spec_search_ranges() == Seq::<Range<usize>>::empty()
                    &&& final(self).spec_active_match() == old(self).spec_active_match()
                    &&& final(self).spec_active_search_range()
                        == old(self).spec_active_search_range()
                    &&& final(self).spec_pending_scroll() == old(self).spec_pending_scroll()
                    &&& final(self).spec_pending_scroll_retries()
                        == old(self).spec_pending_scroll_retries()
                    &&& final(self).spec_search_scroll_protection()
                        == old(self).spec_search_scroll_protection()
                    &&& query.len() == 0 ==> final(self).spec_search_regex_error()
                        == old(self).spec_search_regex_error()
                    &&& query.len() > 0 ==> (final(self).spec_search_regex_error() matches Some(
                        e,
                    ) && spec_regex_error(pattern, ci) == Some(e@))
                } else {
                    let found = spec_collect_search_ranges(
                        spec_markdown_events(content@, SEARCH_PARSER_OPTIONS),
                        RegexSpec { pattern, case_insensitive: ci },
                        &old(self).spec_alerts(),
                    );
                    &&& final(self).spec_search_regex_error() is None
                    &&& final(self).spec_search_ranges() == found
                    &&& final(self).active_in_sync()
                    &&& if found.len() == 0 {
                        &&& final(self).spec_active_match() is None
                        &&& final(self).spec_pending_scroll() == old(self).spec_pending_scroll()
                        &&& final(self).spec_pending_scroll_retries()
                            == old(self).spec_pending_scroll_retries()
                        &&& final(self).spec_search_scroll_protection()
                            == old(self).spec_search_scroll_protection()
                    } else {
                        &&& final(self).spec_active_match() == Some(
                            first_at_or_after(found, anchor) as usize,
                        )
                        &&& final(self).spec_pending_scroll()
                        &&& final(self).spec_pending_scroll_retries() == 0
                        &&& final(self).spec_search_scroll_protection()
                            == SEARCH_SCROLL_PROTECTION_FRAMES
                    }
                }
            }),
    {
        let anchor = match self.active_match {
            Some(i) => if i < self.search_ranges.len() {
                self.search_ranges[i].start
            } else {
                match viewport_start {
                    Some(v) => v,
                    None => 0,
                }
            },
            None => match viewport_start {
                Some(v) => v,
                None => 0,
            },
        };
        self.search_ranges = Vec::new();
        if self.search_query.as_str().is_empty() {
            return;
        }
        let regex_search = self.search_options.contains(SearchOptions::REGEX);
        let whole_word = self.search_options.contains(SearchOptions::WHOLE_WORD);
        let case_sensitive = self.search_options.contains(SearchOptions::CASE_SENSITIVE);
        let base = if regex_search {
            self.search_query.clone()
        } else {
            regex_escape(self.search_query.as_str())
        };
        let pattern = if whole_word {
            let mut p = "\\b(?:".to_owned();
            p.append(base.as_str());
            p.append(")\\b");
            proof {
                reveal_strlit("\\b(?:");
                reveal_strlit(")\\b");
            }
            assert(p@ =~= seq!['\\', 'b', '(', '?', ':'] + base@ + seq![')', '\\', 'b']);
            p
        } else {
            base
        };
        let re = match build_regex(pattern.as_str(), !case_sensitive) {
            Ok(re) => {
                self.search_regex_error = None;
                re
            },
            Err(err) => {
                self.search_regex_error = Some(err);
                return;
            },
        };
        let events = parse_markdown(content, SEARCH_PARSER_OPTIONS);
        let found = collect_search_ranges(events.as_slice(), &re, &self.alerts);
        self.search_ranges = found;
        if self.search_ranges.len() == 0 {
            self.active_match = None;
            self.sync_active_search_range();
            return;
        }
        let c = count_before(&self.search_ranges, anchor);
        let nearest = if c < self.search_ranges.len() {
            c
        } else {
            0
        };
        self.active_match = Some(nearest);
        self.sync_active_search_range();
        self.scroll_to_active_search_match();
        self.search_scroll_protection = SEARCH_SCROLL_PROTECTION_FRAMES;
    }

}

} // verus!
