//! The range scan: pairs come from a forward iterator of the store, one at a
//! time, positioned at the inclusive lower bound; the cursor decides which of
//! them are shown. It stops at the first key at or past the exclusive upper
//! bound, or once the cap on results is reached.
use vstd::prelude::*;
use crate::codec::{display, encode_display, Modes};
use crate::compare::{compare, lex_le, lex_less};
use core::cmp::Ordering;

verus! {

/// Whether the pair at position `count` of the scan, with key `key`, is shown.
pub open spec fn admits(to: Option<Seq<u8>>, max: Option<usize>, count: nat, key: Seq<u8>) -> bool {
    &&& max matches Some(m) ==> count < m
    &&& to matches Some(t) ==> lex_less(key, t)
}

/// The keys that a scan shows, given the keys that the store handed it in
/// order: the longest prefix whose every key is admitted at its position.
pub open spec fn emitted_keys(keys: Seq<Seq<u8>>, to: Option<Seq<u8>>, max: Option<usize>) -> Seq<
    Seq<u8>,
>
    decreases keys.len(),
{
    if keys.len() == 0 {
        Seq::empty()
    } else {
        let prev = emitted_keys(keys.drop_last(), to, max);
        if prev.len() == keys.len() - 1 && admits(to, max, prev.len(), keys.last()) {
            prev.push(keys.last())
        } else {
            prev
        }
    }
}

/// What a scan shows is a prefix of what the store handed it.
pub proof fn lemma_emitted_prefix(keys: Seq<Seq<u8>>, to: Option<Seq<u8>>, max: Option<usize>)
    ensures
        emitted_keys(keys, to, max).len() <= keys.len(),
        emitted_keys(keys, to, max) == keys.take(emitted_keys(keys, to, max).len() as int),
        forall|i: int|
            0 <= i < emitted_keys(keys, to, max).len() ==> admits(
                to,
                max,
                i as nat,
                #[trigger] emitted_keys(keys, to, max)[i],
            ),
    decreases keys.len(),
{
    if keys.len() > 0 {
        let prev = emitted_keys(keys.drop_last(), to, max);
        lemma_emitted_prefix(keys.drop_last(), to, max);
        if prev.len() == keys.len() - 1 && admits(to, max, prev.len(), keys.last()) {
            assert(keys.drop_last().take(prev.len() as int) == prev);
            assert(prev.push(keys.last()) =~= keys.take(keys.len() as int));
            assert forall|i: int| 0 <= i < prev.len() + 1 implies admits(
                to,
                max,
                i as nat,
                #[trigger] prev.push(keys.last())[i],
            ) by {
                if i < prev.len() {
                    assert(prev.push(keys.last())[i] == prev[i]);
                }
            }
        } else {
            assert(keys.drop_last().take(prev.len() as int) =~= keys.take(prev.len() as int));
        }
    }
}

/// A scan from `from` up to `to` shows only keys `k` with `from <= k < to`,
/// in strictly increasing order, where the store hands out its keys in
/// strictly increasing order starting at the first one not below `from`.
pub proof fn lemma_scan_within_bounds(
    keys: Seq<Seq<u8>>,
    from: Seq<u8>,
    to: Seq<u8>,
    max: Option<usize>,
)
    requires
        lex_less(from, to),
        forall|i: int, j: int| 0 <= i < j < keys.len() ==> lex_less(#[trigger] keys[i], #[trigger] keys[j]),
        forall|i: int| 0 <= i < keys.len() ==> lex_le(from, #[trigger] keys[i]),
    ensures
        forall|i: int|
            0 <= i < emitted_keys(keys, Some(to), max).len() ==> lex_le(
                from,
                #[trigger] emitted_keys(keys, Some(to), max)[i],
            ) && lex_less(emitted_keys(keys, Some(to), max)[i], to),
        forall|i: int, j: int|
            0 <= i < j < emitted_keys(keys, Some(to), max).len() ==> lex_less(
                #[trigger] emitted_keys(keys, Some(to), max)[i],
                #[trigger] emitted_keys(keys, Some(to), max)[j],
            ),
{
    let shown = emitted_keys(keys, Some(to), max);
    lemma_emitted_prefix(keys, Some(to), max);
    assert forall|i: int| 0 <= i < shown.len() implies lex_le(from, #[trigger] shown[i]) && lex_less(
        shown[i],
        to,
    ) by {
        assert(shown[i] == keys[i]);
        assert(admits(Some(to), max, i as nat, shown[i]));
    }
    assert forall|i: int, j: int| 0 <= i < j < shown.len() implies lex_less(
        #[trigger] shown[i],
        #[trigger] shown[j],
    ) by {
        assert(shown[i] == keys[i]);
        assert(shown[j] == keys[j]);
    }
}

/// Separator between key and value on a line of output.
#[derive(PartialEq, Eq, Structural, Clone, Copy, Debug)]
pub enum LineStyle {
    /// `key : value`, for the terminal.
    Listing,
    /// `key ==> value`, for a dump file.
    Dump,
}

pub open spec fn separator(style: LineStyle) -> Seq<char> {
    match style {
        LineStyle::Listing => " : "@,
        LineStyle::Dump => " ==> "@,
    }
}

/// One line of output for a pair.
pub open spec fn pair_line(key: Seq<u8>, value: Seq<u8>, modes: Modes, style: LineStyle) -> Seq<
    char,
> {
    display(key, modes.key) + separator(style) + display(value, modes.value)
}

/// Formats one pair: key and value each in their own mode.
pub fn format_pair(key: &[u8], value: &[u8], modes: Modes, style: LineStyle) -> (r: String)
    ensures
        r@ == pair_line(key@, value@, modes, style),
{
    let mut line = encode_display(key, modes.key);
    let sep = match style {
        LineStyle::Listing => " : ",
        LineStyle::Dump => " ==> ",
    };
    line.append(sep);
    let v = encode_display(value, modes.value);
    line.append(v.as_str());
    line
}

/// The state of one scan in progress.
pub struct ScanCursor {
    start: Option<Vec<u8>>,
    to: Option<Vec<u8>>,
    max: Option<usize>,
    modes: Modes,
    style: LineStyle,
    emitted: usize,
    stopped: bool,
    /// The keys handed to the cursor so far, in order.
    fed: Ghost<Seq<Seq<u8>>>,
}

impl ScanCursor {
    pub closed spec fn start_view(&self) -> Option<Seq<u8>> {
        match self.start {
            Some(s) => Some(s@),
            None => None,
        }
    }

    pub closed spec fn to_view(&self) -> Option<Seq<u8>> {
        match self.to {
            Some(t) => Some(t@),
            None => None,
        }
    }

    pub closed spec fn max_view(&self) -> Option<usize> {
        self.max
    }

    pub closed spec fn modes_view(&self) -> Modes {
        self.modes
    }

    pub closed spec fn style_view(&self) -> LineStyle {
        self.style
    }

    /// The keys handed to the cursor so far.
    pub closed spec fn fed_keys(&self) -> Seq<Seq<u8>> {
        self.fed@
    }

    /// The keys shown so far.
    pub open spec fn shown(&self) -> Seq<Seq<u8>> {
        emitted_keys(self.fed_keys(), self.to_view(), self.max_view())
    }

    /// The scan has ended: a key was refused, and every later one will be.
    pub open spec fn finished(&self) -> bool {
        self.shown().len() < self.fed_keys().len()
    }

    pub closed spec fn wf(&self) -> bool {
        &&& self.max is Some ==> self.emitted as nat == self.shown().len()
        &&& self.stopped == self.finished()
    }

    /// A cursor that has seen nothing yet.
    pub fn new(
        start: Option<Vec<u8>>,
        to: Option<Vec<u8>>,
        max: Option<usize>,
        modes: Modes,
        style: LineStyle,
    ) -> (r: ScanCursor)
        ensures
            r.wf(),
            r.start_view() == (match start {
                Some(s) => Some(s@),
                None => None,
            }),
            r.to_view() == (match to {
                Some(t) => Some(t@),
                None => None,
            }),
            r.max_view() == max,
            r.modes_view() == modes,
            r.style_view() == style,
            r.fed_keys() == Seq::<Seq<u8>>::empty(),
    {
        ScanCursor {
            start,
            to,
            max,
            modes,
            style,
            emitted: 0,
            stopped: false,
            fed: Ghost(Seq::empty()),
        }
    }

    /// Where the store's iterator is positioned: the first key at or after
    /// this one, or the first key of the store where there is none.
    pub fn start(&self) -> (r: Option<&[u8]>)
        ensures
            r matches Some(s) ==> self.start_view() == Some(s@),
            r is None ==> self.start_view() is None,
    {
        match &self.start {
            Some(s) => Some(s.as_slice()),
            None => None,
        }
    }

    /// Whether the scan has ended; the caller then stops fetching pairs.
    pub fn is_finished(&self) -> (r: bool)
        requires
            self.wf(),
        ensures
            r == self.finished(),
    {
        self.stopped
    }

    /// Takes the next pair from the store: the line to show for it, or
    /// `None` where the scan stops (or had already stopped) before it.
    pub fn next(&mut self, key: &[u8], value: &[u8]) -> (r: Option<String>)
        requires
            old(self).wf(),
        ensures
            final(self).wf(),
            final(self).fed_keys() == old(self).fed_keys().push(key@),
            final(self).start_view() == old(self).start_view(),
            final(self).to_view() == old(self).to_view(),
            final(self).max_view() == old(self).max_view(),
            final(self).modes_view() == old(self).modes_view(),
            final(self).style_view() == old(self).style_view(),
            r is Some <==> !old(self).finished() && admits(
                old(self).to_view(),
                old(self).max_view(),
                old(self).shown().len(),
                key@,
            ),
            r matches Some(line) ==> line@ == pair_line(
                key@,
                value@,
                old(self).modes_view(),
                old(self).style_view(),
            ),
    {
        let ghost before = self.fed@;
        let ghost shown_before = emitted_keys(before, self.to_view(), self.max);
        proof {
            self.fed = Ghost(before.push(key@));
            assert(self.fed@.drop_last() =~= before);
            assert(self.fed@.last() == key@);
            lemma_emitted_prefix(before, self.to_view(), self.max);
        }
        if self.stopped {
            assert(self.shown() == shown_before);
            return None;
        }
        let within_cap = match self.max {
            Some(m) => self.emitted < m,
            None => true,
        };
        let below_bound = match &self.to {
            Some(t) => matches!(compare(key, t.as_slice()), Ordering::Less),
            None => true,
        };
        if within_cap && below_bound {
            if self.max.is_some() {
                self.emitted = self.emitted + 1;
            }
            assert(self.shown() == shown_before.push(key@));
            Some(format_pair(key, value, self.modes, self.style))
        } else {
            self.stopped = true;
            assert(self.shown() == shown_before);
            None
        }
    }
}

} // verus!
