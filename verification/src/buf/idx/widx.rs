//! The display width index of one line.
//!
//! The index remembers, for a prefix of a line's characters, the display
//! width of the line up to and including each character. It holds no text:
//! every query brings the line and the buffer's options along, and an index
//! is meant for one line under one tab stop. It grows forward only, one
//! character after the last one it knows, and never works an entry out twice.
//!
//! When the line is edited the index is cut back: `set_width_at` and
//! `set_width_between` drop every entry from the first edited character on,
//! write the entries of the edited characters anew from the widths they are
//! given, and leave what follows to the next query.

use crate::buf::opt::BufferLocalOptions;
use crate::buf::unicode::{char_width, char_width_spec, char_widths, prefix_width, saturate};
use crate::buf::{slice_char, slice_chars, slice_len_chars};
use ropey::RopeSlice;
use std::collections::BTreeMap;
use std::ops::RangeInclusive;
use vstd::prelude::*;

verus! {

/// `RangeInclusive::start` gives the lower bound of the range.
pub assume_specification<Idx>[ RangeInclusive::<Idx>::start ](range: &RangeInclusive<Idx>) -> (start: &Idx)
    ensures
        *start == range@.start,
;

/// `RangeInclusive::end` gives the upper bound of the range.
pub assume_specification<Idx>[ RangeInclusive::<Idx>::end ](range: &RangeInclusive<Idx>) -> (end: &Idx)
    ensures
        *end == range@.end,
;

/// Calls `BTreeMap::first_key_value`: the smallest key of the map, and
/// nothing where the map is empty.
#[verifier::external_body]
fn first_key(widths: &BTreeMap<usize, usize>) -> (first: Option<usize>)
    ensures
        match first {
            Some(k) => widths@.contains_key(k) && forall|j: usize|
                widths@.contains_key(j) ==> k <= j,
            None => forall|j: usize| !widths@.contains_key(j),
        },
{
    widths.first_key_value().map(|entry| *entry.0)
}

/// The sum of two widths, or the largest word where it does not fit.
pub open spec fn saturating_sum(a: usize, b: usize) -> usize {
    if a + b > usize::MAX {
        usize::MAX
    } else {
        (a + b) as usize
    }
}

/// The last of the cached widths, and 0 where nothing is cached.
pub open spec fn last_or_zero(cached: Seq<usize>) -> usize {
    if cached.len() == 0 {
        0
    } else {
        cached.last()
    }
}

/// The cached widths after the index has grown to the first `n` characters
/// of a line: what was cached stays, and each new entry is the entry before
/// it plus the width of its character.
pub open spec fn grown(cached: Seq<usize>, tab_stop: u16, text: Seq<char>, n: int) -> Seq<usize>
    decreases n,
{
    if n <= cached.len() || n > text.len() {
        cached
    } else {
        let before = grown(cached, tab_stop, text, n - 1);
        before.push(
            saturating_sum(last_or_zero(before), saturate(char_width_spec(tab_stop, text[n - 1]))),
        )
    }
}

/// The cached widths after a query for `char_idx`: grown up to that
/// character where the line has it and the index did not, unchanged
/// otherwise.
pub open spec fn extended(cached: Seq<usize>, tab_stop: u16, text: Seq<char>, char_idx: usize) -> Seq<
    usize,
> {
    if cached.len() <= char_idx < text.len() {
        grown(cached, tab_stop, text, char_idx + 1)
    } else {
        cached
    }
}

/// The entry of a character, if it is cached.
pub open spec fn lookup(cached: Seq<usize>, char_idx: usize) -> Option<usize> {
    if char_idx < cached.len() {
        Some(cached[char_idx as int])
    } else {
        None
    }
}

/// The display width of a line up to and including a character, and nothing
/// where the line has no such character.
pub open spec fn width_until_spec(tab_stop: u16, text: Seq<char>, char_idx: usize) -> Option<usize> {
    if char_idx < text.len() {
        Some(saturate(prefix_width(char_widths(tab_stop, text), char_idx + 1)))
    } else {
        None
    }
}

/// The display width of the characters after `first` up to and including
/// `last`, and nothing where the line lacks one of the two.
pub open spec fn width_between_spec(tab_stop: u16, text: Seq<char>, first: usize, last: usize) -> Option<
    usize,
> {
    match (width_until_spec(tab_stop, text, first), width_until_spec(tab_stop, text, last)) {
        (Some(first_width), Some(last_width)) => Some((last_width - first_width) as usize),
        _ => None,
    }
}

/// Cached widths belong to a line when each entry is the line's width up to
/// and including its character.
pub open spec fn caches(cached: Seq<usize>, tab_stop: u16, text: Seq<char>) -> bool {
    &&& cached.len() <= text.len()
    &&& forall|i: int|
        0 <= i < cached.len() ==> #[trigger] cached[i] == saturate(
            prefix_width(char_widths(tab_stop, text), i + 1),
        )
}

/// The two halves of an index agree: the cached widths never decrease, and
/// the reverse map holds exactly the cached widths, each with the last
/// character that has it.
pub open spec fn index_consistent(cached: Seq<usize>, rightmost: Map<usize, usize>) -> bool {
    &&& forall|i: int, j: int| 0 <= i <= j < cached.len() ==> cached[i] <= cached[j]
    &&& forall|i: int|
        0 <= i < cached.len() ==> rightmost.contains_key(#[trigger] cached[i]) && i
            <= rightmost[cached[i]]
    &&& forall|w: usize| #[trigger]
        rightmost.contains_key(w) ==> rightmost[w] < cached.len() && cached[rightmost[w] as int]
            == w
}

/// The answer of `char_at` over cached widths: the last character whose
/// entry is exactly `width`; where there is none, the first character whose
/// entry is larger; nothing where every entry is smaller.
pub open spec fn char_at_spec(cached: Seq<usize>, width: usize, found: Option<usize>) -> bool {
    match found {
        None => forall|i: int| 0 <= i < cached.len() ==> cached[i] < width,
        Some(k) => {
            &&& k < cached.len()
            &&& cached[k as int] >= width
            &&& forall|i: int| 0 <= i < cached.len() && cached[i] < width ==> i < k
            &&& cached[k as int] == width ==> forall|i: int|
                0 <= i < cached.len() && cached[i] == width ==> i <= k
            &&& cached[k as int] > width ==> forall|i: int|
                0 <= i < k ==> cached[i] < width
        },
    }
}

/// The cached widths after the entries from `char_idx` on are dropped and
/// the character at `char_idx` is given the width `width`. An index that
/// has not reached `char_idx` stays as it is.
pub open spec fn with_width_at(cached: Seq<usize>, char_idx: usize, width: usize) -> Seq<usize> {
    if char_idx <= cached.len() {
        let kept = cached.take(char_idx as int);
        kept.push(saturating_sum(last_or_zero(kept), width))
    } else {
        cached
    }
}

/// The keys of a map are the integers from `first` up to `first + count`.
pub open spec fn keys_from(widths: Map<usize, usize>, first: usize, count: nat) -> bool {
    &&& first + count <= usize::MAX
    &&& forall|k: usize| widths.contains_key(k) <==> first <= k < first + count
}

/// The keys of a map follow one another without a gap.
pub open spec fn continuous_keys(widths: Map<usize, usize>) -> bool {
    exists|first: usize, count: nat| keys_from(widths, first, count)
}

/// The cached widths after the characters `first`, `first + 1`, up to
/// `first + count`, are given the widths of a map, one after the other.
pub open spec fn with_widths_from(
    cached: Seq<usize>,
    widths: Map<usize, usize>,
    first: usize,
    count: nat,
) -> Seq<usize>
    decreases count,
{
    if count == 0 {
        cached
    } else {
        let k = (first + count - 1) as usize;
        with_width_at(with_widths_from(cached, widths, first, (count - 1) as nat), k, widths[k])
    }
}

/// The reverse map holds each cached width once: it is never larger than
/// the cache.
pub proof fn lemma_reverse_map_is_no_larger(cached: Seq<usize>, rightmost: Map<usize, usize>)
    requires
        index_consistent(cached, rightmost),
    ensures
        rightmost.dom().finite(),
        rightmost.len() <= cached.len(),
{
    assert(rightmost.dom() =~= cached.to_set()) by {
        assert forall|w: usize| rightmost.dom().contains(w) implies cached.to_set().contains(w) by {
            assert(cached[rightmost[w] as int] == w);
        }
        assert forall|w: usize| cached.to_set().contains(w) implies rightmost.dom().contains(w) by {
            let i = choose|i: int| 0 <= i < cached.len() && cached[i] == w;
            assert(rightmost.contains_key(cached[i]));
        }
    }
    cached.lemma_cardinality_of_set();
    vstd::seq_lib::seq_to_set_is_finite(cached);
}

/// Entries that are added by growing follow the line.
pub proof fn lemma_grown_caches(cached: Seq<usize>, tab_stop: u16, text: Seq<char>, n: int)
    requires
        caches(cached, tab_stop, text),
    ensures
        caches(grown(cached, tab_stop, text, n), tab_stop, text),
        n <= cached.len() || n > text.len() ==> grown(cached, tab_stop, text, n) == cached,
        cached.len() <= n <= text.len() ==> grown(cached, tab_stop, text, n).len() == n,
        cached.len() <= grown(cached, tab_stop, text, n).len(),
        grown(cached, tab_stop, text, n).take(cached.len() as int) == cached,
    decreases n,
{
    if n <= cached.len() || n > text.len() {
        assert(cached.take(cached.len() as int) =~= cached);
    } else {
        lemma_grown_caches(cached, tab_stop, text, n - 1);
        let before = grown(cached, tab_stop, text, n - 1);
        let widths = char_widths(tab_stop, text);
        let after = grown(cached, tab_stop, text, n);
        assert(before.len() == n - 1);
        assert(last_or_zero(before) == saturate(prefix_width(widths, n - 1))) by {
            if before.len() > 0 {
                assert(before[n - 2] == saturate(prefix_width(widths, n - 2 + 1)));
            }
        }
        assert(widths[n - 1] == char_width_spec(tab_stop, text[n - 1]));
        assert(after[n - 1] == saturate(prefix_width(widths, n)));
        assert forall|i: int| 0 <= i < after.len() implies #[trigger] after[i] == saturate(
            prefix_width(widths, i + 1),
        ) by {
            if i < n - 1 {
                assert(after[i] == before[i]);
            }
        }
        assert(after.take(cached.len() as int) =~= before.take(cached.len() as int));
    }
}

/// Growing without a line to follow: what was cached stays, and the length
/// is the one asked for.
pub proof fn lemma_grown_shape(cached: Seq<usize>, tab_stop: u16, text: Seq<char>, n: int)
    ensures
        cached.len() <= n <= text.len() ==> grown(cached, tab_stop, text, n).len() == n,
        cached.len() <= grown(cached, tab_stop, text, n).len(),
        grown(cached, tab_stop, text, n).take(cached.len() as int) == cached,
    decreases n,
{
    if n <= cached.len() || n > text.len() {
        assert(cached.take(cached.len() as int) =~= cached);
    } else {
        lemma_grown_shape(cached, tab_stop, text, n - 1);
        let before = grown(cached, tab_stop, text, n - 1);
        let after = grown(cached, tab_stop, text, n);
        assert(after.take(cached.len() as int) =~= before.take(cached.len() as int));
    }
}

/// In a cache that belongs to a line, each entry is the entry before it
/// plus the width of its character: the entries never decrease, and two
/// that follow one another are equal only where the character has no width
/// or the sum does not fit.
pub proof fn lemma_cache_steps(cached: Seq<usize>, tab_stop: u16, text: Seq<char>, i: int)
    requires
        caches(cached, tab_stop, text),
        0 <= i < cached.len(),
    ensures
        i == 0 ==> cached[i] == saturate(char_width_spec(tab_stop, text[i])),
        i > 0 ==> cached[i] == saturating_sum(
            cached[i - 1],
            saturate(char_width_spec(tab_stop, text[i])),
        ),
        i > 0 ==> cached[i - 1] <= cached[i],
{
    let widths = char_widths(tab_stop, text);
    assert(widths[i] == char_width_spec(tab_stop, text[i]));
    assert(prefix_width(widths, i + 1) == prefix_width(widths, i) + widths[i]);
    if i == 0 {
        assert(prefix_width(widths, 0) == 0);
    } else {
        assert(cached[i - 1] == saturate(prefix_width(widths, i - 1 + 1)));
    }
}

/// An index that belongs to a line answers every query with the line's
/// width up to the character, whatever it had cached before: the answers do
/// not depend on the order of the queries.
pub proof fn lemma_query_order_independent(
    cached: Seq<usize>,
    tab_stop: u16,
    text: Seq<char>,
    char_idx: usize,
)
    requires
        caches(cached, tab_stop, text),
    ensures
        caches(extended(cached, tab_stop, text, char_idx), tab_stop, text),
        lookup(extended(cached, tab_stop, text, char_idx), char_idx) == width_until_spec(
            tab_stop,
            text,
            char_idx,
        ),
{
    lemma_grown_caches(cached, tab_stop, text, char_idx + 1);
    let after = extended(cached, tab_stop, text, char_idx);
    if char_idx < after.len() {
        assert(after[char_idx as int] == saturate(
            prefix_width(char_widths(tab_stop, text), char_idx as int + 1),
        ));
    }
}

/// The width up to a character never decreases as the character moves to
/// the right.
pub proof fn lemma_width_until_monotonic(tab_stop: u16, text: Seq<char>, i: usize, j: usize)
    requires
        i <= j < text.len(),
    ensures
        width_until_spec(tab_stop, text, i) is Some,
        width_until_spec(tab_stop, text, j) is Some,
        width_until_spec(tab_stop, text, i)->0 <= width_until_spec(tab_stop, text, j)->0,
{
    crate::buf::unicode::lemma_prefix_width_monotonic(
        char_widths(tab_stop, text),
        i as int + 1,
        j as int + 1,
    );
}

/// The width between two characters is the difference of the widths up to
/// each of them, and it is never negative.
pub proof fn lemma_width_between_is_difference(tab_stop: u16, text: Seq<char>, a: usize, b: usize)
    requires
        a <= b < text.len(),
    ensures
        width_between_spec(tab_stop, text, a, b) is Some,
        width_between_spec(tab_stop, text, a, b)->0 == width_until_spec(tab_stop, text, b)->0
            - width_until_spec(tab_stop, text, a)->0,
{
    lemma_width_until_monotonic(tab_stop, text, a, b);
}

/// The display width index of one line: for each character of a prefix of
/// the line, the width of the line up to and including it, and for each of
/// those widths the last character that has it.
#[derive(Debug)]
pub struct BufWindex {
    char2width: Vec<usize>,
    width2char: BTreeMap<usize, usize>,
}

/// Grows both halves of an index by the characters from the end of the
/// cache up to and including `char_idx`.
fn grow_index(
    char2width: &mut Vec<usize>,
    width2char: &mut BTreeMap<usize, usize>,
    options: &BufferLocalOptions,
    rope_line: &RopeSlice,
    char_idx: usize,
)
    requires
        index_consistent(old(char2width)@, old(width2char)@),
        old(char2width)@.len() <= char_idx < slice_chars(*rope_line).len(),
    ensures
        index_consistent(final(char2width)@, final(width2char)@),
        final(char2width)@ == grown(
            old(char2width)@,
            options.spec_tab_stop(),
            slice_chars(*rope_line),
            char_idx + 1,
        ),
{
    let ghost text = slice_chars(*rope_line);
    let ghost tab_stop = options.spec_tab_stop();
    let ghost start = char2width@;
    let line_len = slice_len_chars(rope_line);
    let n = char2width.len();
    let mut prefix: usize = if n == 0 {
        0
    } else {
        char2width[n - 1]
    };
    let mut i: usize = n;
    while i <= char_idx
        invariant
            text == slice_chars(*rope_line),
            tab_stop == options.spec_tab_stop(),
            start.len() <= i <= char_idx + 1,
            char_idx < line_len == text.len(),
            char2width@ == grown(start, tab_stop, text, i as int),
            char2width@.len() == i,
            prefix == last_or_zero(char2width@),
            index_consistent(char2width@, width2char@),
        decreases char_idx + 1 - i,
    {
        let c = slice_char(rope_line, i);
        let w = char_width(options, c);
        let ghost before = char2width@;
        let ghost before_map = width2char@;
        prefix = prefix.saturating_add(w);
        char2width.push(prefix);
        width2char.insert(prefix, i);
        proof {
            lemma_grown_shape(start, tab_stop, text, i as int);
            assert(char2width@ =~= grown(start, tab_stop, text, i + 1));
            let after = char2width@;
            assert forall|a: int, b: int| 0 <= a <= b < after.len() implies after[a] <= after[b] by {
                if b < i {
                    assert(after[a] == before[a] && after[b] == before[b]);
                } else if a < i {
                    assert(after[a] == before[a]);
                    assert(before[a] <= before[i - 1]);
                }
            }
            assert forall|a: int| 0 <= a < after.len() implies width2char@.contains_key(
                #[trigger] after[a],
            ) && a <= width2char@[after[a]] by {
                if a < i {
                    assert(after[a] == before[a]);
                    assert(before_map.contains_key(before[a]));
                }
            }
            assert forall|key: usize| #[trigger] width2char@.contains_key(key) implies width2char@[key]
                < after.len() && after[width2char@[key] as int] == key by {
                if key != prefix {
                    assert(before_map.contains_key(key));
                    assert(after[before_map[key] as int] == before[before_map[key] as int]);
                }
            }
        }
        i = i + 1;
    }
}

/// Cuts both halves of an index back to the first `len` characters.
fn cut_index(char2width: &mut Vec<usize>, width2char: &mut BTreeMap<usize, usize>, len: usize)
    requires
        index_consistent(old(char2width)@, old(width2char)@),
        len <= old(char2width)@.len(),
    ensures
        index_consistent(final(char2width)@, final(width2char)@),
        final(char2width)@ == old(char2width)@.take(len as int),
{
    let ghost start = char2width@;
    let ghost kept = start.take(len as int);
    while char2width.len() > len
        invariant
            len <= char2width@.len() <= start.len(),
            char2width@ == start.take(char2width@.len() as int),
            forall|i: int, j: int| 0 <= i <= j < start.len() ==> start[i] <= start[j],
            index_consistent(char2width@, width2char@),
        decreases char2width@.len(),
    {
        let ghost before = char2width@;
        let ghost before_map = width2char@;
        let n = char2width.len();
        let w = char2width[n - 1];
        char2width.pop();
        width2char.remove(&w);
        if n >= 2 {
            let below = char2width[n - 2];
            if below == w {
                width2char.insert(w, n - 2);
            }
        }
        proof {
            let after = char2width@;
            assert(after =~= start.take(after.len() as int));
            assert forall|a: int| 0 <= a < after.len() implies width2char@.contains_key(
                #[trigger] after[a],
            ) && a <= width2char@[after[a]] by {
                assert(after[a] == before[a]);
                assert(before_map.contains_key(before[a]));
                if before[a] == w {
                    assert(before[a] <= before[n - 2] <= before[n - 1]);
                }
            }
            assert forall|key: usize| #[trigger] width2char@.contains_key(key) implies width2char@[key]
                < after.len() && after[width2char@[key] as int] == key by {
                if key != w {
                    assert(before_map.contains_key(key));
                    let at = before_map[key];
                    assert(before[at as int] == key);
                    assert(at != n - 1);
                    assert(after[at as int] == before[at as int]);
                }
            }
        }
    }
    assert(char2width@ =~= kept);
}

/// Gives the character after the cached ones the width `width`.
fn push_width(char2width: &mut Vec<usize>, width2char: &mut BTreeMap<usize, usize>, width: usize)
    requires
        index_consistent(old(char2width)@, old(width2char)@),
    ensures
        index_consistent(final(char2width)@, final(width2char)@),
        final(char2width)@ == old(char2width)@.push(
            saturating_sum(last_or_zero(old(char2width)@), width),
        ),
{
    let ghost before = char2width@;
    let ghost before_map = width2char@;
    let n = char2width.len();
    let last: usize = if n == 0 {
        0
    } else {
        char2width[n - 1]
    };
    let prefix = last.saturating_add(width);
    char2width.push(prefix);
    width2char.insert(prefix, n);
    proof {
        let after = char2width@;
        assert forall|a: int, b: int| 0 <= a <= b < after.len() implies after[a] <= after[b] by {
            if b < n {
                assert(after[a] == before[a] && after[b] == before[b]);
            } else if a < n {
                assert(after[a] == before[a]);
                assert(before[a] <= before[n - 1]);
            }
        }
        assert forall|a: int| 0 <= a < after.len() implies width2char@.contains_key(
            #[trigger] after[a],
        ) && a <= width2char@[after[a]] by {
            if a < n {
                assert(after[a] == before[a]);
                assert(before_map.contains_key(before[a]));
            }
        }
        assert forall|key: usize| #[trigger] width2char@.contains_key(key) implies width2char@[key]
            < after.len() && after[width2char@[key] as int] == key by {
            if key != prefix {
                assert(before_map.contains_key(key));
                assert(after[before_map[key] as int] == before[before_map[key] as int]);
            }
        }
    }
}

impl Clone for BufWindex {
    fn clone(&self) -> (index: Self)
        ensures
            index.cached() == self.cached(),
            index.rightmost() == self.rightmost(),
    {
        proof {
            use_type_invariant(self);
        }
        BufWindex { char2width: self.char2width.clone(), width2char: self.width2char.clone() }
    }
}

impl Default for BufWindex {
    fn default() -> (index: Self)
        ensures
            index.cached().len() == 0,
            index.rightmost() == Map::<usize, usize>::empty(),
    {
        BufWindex::new()
    }
}

impl BufWindex {
    #[verifier::type_invariant]
    spec fn consistent(self) -> bool {
        index_consistent(self.char2width@, self.width2char@)
    }

    /// The cached widths: entry `i` is the width of the line up to and
    /// including character `i`.
    pub closed spec fn cached(&self) -> Seq<usize> {
        self.char2width@
    }

    /// The reverse map: each cached width with the last character that has
    /// it.
    pub closed spec fn rightmost(&self) -> Map<usize, usize> {
        self.width2char@
    }

    /// An index that has cached nothing. It belongs to every line.
    pub fn new() -> (index: Self)
        ensures
            index.cached().len() == 0,
            index.rightmost() == Map::<usize, usize>::empty(),
    {
        BufWindex { char2width: Vec::new(), width2char: BTreeMap::new() }
    }

    /// Checks that the two halves of the index agree: the reverse map is
    /// not larger than the cache, the cached widths never decrease, and each
    /// of them stands in the reverse map with a character at or after its
    /// own. The answer is always `true`: no operation leaves the index in
    /// another state.
    pub fn _internal_check(&self) -> (ok: bool)
        ensures
            ok,
            index_consistent(self.cached(), self.rightmost()),
            self.rightmost().len() <= self.cached().len(),
    {
        proof {
            use_type_invariant(self);
            lemma_reverse_map_is_no_larger(self.char2width@, self.width2char@);
        }
        let mut ok = self.char2width.len() >= self.width2char.len();
        let mut last_width: usize = 0;
        let mut i: usize = 0;
        while i < self.char2width.len()
            invariant
                ok,
                i <= self.char2width@.len(),
                i > 0 ==> last_width == self.char2width@[i - 1],
                index_consistent(self.char2width@, self.width2char@),
            decreases self.char2width@.len() - i,
        {
            let w = self.char2width[i];
            if i > 0 && w < last_width {
                ok = false;
            }
            last_width = w;
            match self.width2char.get(&w) {
                Some(c) => {
                    if i > *c {
                        ok = false;
                    }
                },
                None => {
                    ok = false;
                },
            }
            i = i + 1;
        }
        ok
    }

    /// The display width of the line from its first character up to and
    /// including the character at `char_idx`, and nothing where the line has
    /// no such character. An entry that is cached is answered from the
    /// cache; otherwise the cache grows up to `char_idx` first.
    pub fn width_until(
        &mut self,
        options: &BufferLocalOptions,
        rope_line: &RopeSlice,
        char_idx: usize,
    ) -> (width: Option<usize>)
        ensures
            final(self).cached() == extended(
                old(self).cached(),
                options.spec_tab_stop(),
                slice_chars(*rope_line),
                char_idx,
            ),
            width == lookup(final(self).cached(), char_idx),
            index_consistent(final(self).cached(), final(self).rightmost()),
            caches(old(self).cached(), options.spec_tab_stop(), slice_chars(*rope_line)) ==> caches(
                final(self).cached(),
                options.spec_tab_stop(),
                slice_chars(*rope_line),
            ) && width == width_until_spec(options.spec_tab_stop(), slice_chars(*rope_line), char_idx),
    {
        proof {
            use_type_invariant(&*self);
            if caches(self.cached(), options.spec_tab_stop(), slice_chars(*rope_line)) {
                lemma_query_order_independent(
                    self.cached(),
                    options.spec_tab_stop(),
                    slice_chars(*rope_line),
                    char_idx,
                );
            }
        }
        if char_idx >= self.char2width.len() {
            if char_idx < slice_len_chars(rope_line) {
                let mut index = BufWindex::new();
                std::mem::swap(self, &mut index);
                let BufWindex { mut char2width, mut width2char } = index;
                grow_index(&mut char2width, &mut width2char, options, rope_line, char_idx);
                *self = BufWindex { char2width, width2char };
            }
        }
        if char_idx < self.char2width.len() {
            Some(self.char2width[char_idx])
        } else {
            None
        }
    }

    /// The display width of the characters after the first of the range up
    /// to and including its last: the difference of the widths up to the
    /// two. Nothing where the line lacks one of them.
    pub fn width_between(
        &mut self,
        options: &BufferLocalOptions,
        rope_line: &RopeSlice,
        char_idx_range: RangeInclusive<usize>,
    ) -> (width: Option<usize>)
        requires
            char_idx_range@.start <= char_idx_range@.end,
        ensures
            final(self).cached() == extended(
                extended(
                    old(self).cached(),
                    options.spec_tab_stop(),
                    slice_chars(*rope_line),
                    char_idx_range@.start,
                ),
                options.spec_tab_stop(),
                slice_chars(*rope_line),
                char_idx_range@.end,
            ),
            index_consistent(final(self).cached(), final(self).rightmost()),
            width == (match (
                lookup(final(self).cached(), char_idx_range@.start),
                lookup(final(self).cached(), char_idx_range@.end),
            ) {
                (Some(first_width), Some(last_width)) => Some((last_width - first_width) as usize),
                _ => None,
            }),
            caches(old(self).cached(), options.spec_tab_stop(), slice_chars(*rope_line)) ==> caches(
                final(self).cached(),
                options.spec_tab_stop(),
                slice_chars(*rope_line),
            ) && width == width_between_spec(
                options.spec_tab_stop(),
                slice_chars(*rope_line),
                char_idx_range@.start,
                char_idx_range@.end,
            ),
    {
        let c_start = *char_idx_range.start();
        let c_last = *char_idx_range.end();
        let ghost text = slice_chars(*rope_line);
        let ghost tab_stop = options.spec_tab_stop();
        let ghost before = self.cached();
        let w_start = self.width_until(options, rope_line, c_start);
        let ghost middle = self.cached();
        let w_last = self.width_until(options, rope_line, c_last);
        proof {
            lemma_grown_shape(middle, tab_stop, text, c_last + 1);
            lemma_grown_shape(before, tab_stop, text, c_start + 1);
            assert(self.cached().take(middle.len() as int) == middle);
            if c_start < middle.len() {
                assert(self.cached().take(middle.len() as int)[c_start as int] == self.cached()[c_start as int]);
            }
        }
        match (w_start, w_last) {
            (Some(start_width), Some(last_width)) => {
                assert(start_width <= last_width);
                Some(last_width - start_width)
            },
            _ => None,
        }
    }

    /// The character that a display width falls on, among the cached ones:
    /// the last character whose width up to it is exactly `width`; where
    /// there is none, the first character whose width up to it is larger;
    /// nothing where every cached width is smaller.
    pub fn char_at(&self, width: usize) -> (found: Option<usize>)
        ensures
            char_at_spec(self.cached(), width, found),
    {
        proof {
            use_type_invariant(self);
        }
        let mut low: usize = 0;
        let mut high: usize = self.char2width.len();
        while low < high
            invariant
                low <= high <= self.char2width@.len(),
                index_consistent(self.char2width@, self.width2char@),
                forall|i: int| 0 <= i < low ==> self.char2width@[i] < width,
                forall|i: int| high <= i < self.char2width@.len() ==> self.char2width@[i] >= width,
            decreases high - low,
        {
            let middle: usize = low + (high - low) / 2;
            if self.char2width[middle] < width {
                low = middle + 1;
            } else {
                high = middle;
            }
        }
        if low >= self.char2width.len() {
            None
        } else if self.char2width[low] == width {
            match self.width2char.get(&width) {
                Some(last) => Some(*last),
                None => Some(low),
            }
        } else {
            Some(low)
        }
    }

    /// Gives the character at `char_idx` the width `width`: the entries
    /// from `char_idx` on are dropped, and the entry of `char_idx` is written
    /// anew as the entry before it plus `width`. What follows is worked out
    /// again by the next query that asks for it. An index that has not
    /// reached `char_idx` stays as it is.
    pub fn set_width_at(&mut self, char_idx: usize, width: usize)
        ensures
            final(self).cached() == with_width_at(old(self).cached(), char_idx, width),
            index_consistent(final(self).cached(), final(self).rightmost()),
    {
        proof {
            use_type_invariant(&*self);
        }
        if char_idx <= self.char2width.len() {
            let mut index = BufWindex::new();
            std::mem::swap(self, &mut index);
            let BufWindex { mut char2width, mut width2char } = index;
            cut_index(&mut char2width, &mut width2char, char_idx);
            push_width(&mut char2width, &mut width2char, width);
            *self = BufWindex { char2width, width2char };
        }
    }

    /// Gives a run of characters that follow one another the widths of a
    /// map from character to width: as `set_width_at` for each of them, from
    /// the first to the last. The keys of the map must be without a gap.
    pub fn set_width_between(&mut self, widths: &BTreeMap<usize, usize>)
        requires
            continuous_keys(widths@),
        ensures
            forall|first: usize, count: nat| #[trigger]
                keys_from(widths@, first, count) ==> final(self).cached() == with_widths_from(
                    old(self).cached(),
                    widths@,
                    first,
                    count,
                ),
            index_consistent(final(self).cached(), final(self).rightmost()),
    {
        proof {
            use_type_invariant(&*self);
        }
        let ghost before = self.cached();
        match first_key(widths) {
            None => {
                assert forall|first: usize, count: nat| #[trigger]
                    keys_from(widths@, first, count) implies self.cached() == with_widths_from(
                    before,
                    widths@,
                    first,
                    count,
                ) by {
                    if count > 0 {
                        assert(widths@.contains_key(first));
                    }
                }
            },
            Some(first) => {
                let ghost (lowest, count) = choose|lowest: usize, count: nat|
                    keys_from(widths@, lowest, count);
                assert(lowest == first && count > 0) by {
                    assert(widths@.contains_key(first));
                    if lowest < first {
                        assert(widths@.contains_key(lowest));
                    }
                }
                let mut k: usize = first;
                loop
                    invariant
                        keys_from(widths@, first, count),
                        first <= k <= first + count,
                        self.cached() == with_widths_from(before, widths@, first, (k - first) as nat),
                    ensures
                        k == first + count,
                    decreases first + count - k,
                {
                    match widths.get(&k) {
                        Some(w) => {
                            assert(widths@.contains_key(k));
                            self.set_width_at(k, *w);
                            k = k + 1;
                        },
                        None => {
                            assert(!widths@.contains_key(k));
                            break ;
                        },
                    }
                }
                proof {
                    use_type_invariant(&*self);
                }
                assert forall|f: usize, c: nat| #[trigger] keys_from(widths@, f, c) implies self.cached()
                    == with_widths_from(before, widths@, f, c) by {
                    assert(widths@.contains_key(first));
                    if f < first {
                        assert(widths@.contains_key(f));
                    }
                    assert(f == first);
                    if c < count {
                        assert(widths@.contains_key((first + c) as usize));
                    }
                    if c > count {
                        assert(widths@.contains_key((first + count) as usize));
                    }
                }
            },
        }
    }
}

} // verus!
