//! Batched writes: an alternating list of keys and values, decoded pairwise
//! and written as one atomic unit.
use vstd::prelude::*;
use crate::codec::{
    decode_param, modes_of, param_bytes, resolve_modes, resolved_modes, EncodingMode, HexFlags, Modes,
};
use crate::hex::DecodeError;

verus! {

/// A store's contents: each key mapped to its value.
pub type Contents = Map<Seq<u8>, Seq<u8>>;

/// The store after writing `entries` in order: where a key occurs twice,
/// the later entry wins.
pub open spec fn put_all(store: Contents, entries: Seq<(Seq<u8>, Seq<u8>)>) -> Contents
    decreases entries.len(),
{
    if entries.len() == 0 {
        store
    } else {
        put_all(store, entries.drop_last()).insert(entries.last().0, entries.last().1)
    }
}

/// The mode in which the token at `j` is read: keys at even places, values at odd ones.
pub open spec fn token_mode(modes: Modes, j: int) -> EncodingMode {
    if j % 2 == 0 {
        modes.key
    } else {
        modes.value
    }
}

/// The bytes of the token at `j`, if it is well formed in its mode.
pub open spec fn token_bytes(tokens: Seq<String>, modes: Modes, j: int) -> Option<Seq<u8>> {
    param_bytes(tokens[j]@, token_mode(modes, j))
}

/// Whether every token decodes in its mode.
pub open spec fn all_tokens_decode(tokens: Seq<String>, modes: Modes) -> bool {
    forall|j: int| 0 <= j < tokens.len() ==> #[trigger] token_bytes(tokens, modes, j) is Some
}

/// The entries of a batch: pairs of consecutive tokens, decoded, in order;
/// none where the count of tokens is odd or a token is malformed.
pub open spec fn batch_entries(tokens: Seq<String>, modes: Modes) -> Option<Seq<(Seq<u8>, Seq<u8>)>> {
    if tokens.len() % 2 == 0 && all_tokens_decode(tokens, modes) {
        Some(
            Seq::new(
                tokens.len() / 2,
                |i: int|
                    (
                        token_bytes(tokens, modes, 2 * i)->0,
                        token_bytes(tokens, modes, 2 * i + 1)->0,
                    ),
            ),
        )
    } else {
        None
    }
}

/// The store after a batch put: every entry written, or nothing at all.
pub open spec fn batch_put_effect(store: Contents, tokens: Seq<String>, modes: Modes) -> Contents {
    match batch_entries(tokens, modes) {
        Some(entries) => put_all(store, entries),
        None => store,
    }
}

/// The first malformed token is at `j`.
pub open spec fn first_bad_token(tokens: Seq<String>, modes: Modes, j: int) -> bool {
    &&& 0 <= j < tokens.len()
    &&& token_bytes(tokens, modes, j) is None
    &&& forall|i: int| 0 <= i < j ==> #[trigger] token_bytes(tokens, modes, i) is Some
}

/// Why a batch was refused.
#[derive(Debug)]
pub enum BatchError {
    /// The tokens do not pair up; holds the number given.
    OddTokenCount(usize),
    /// A token is not well formed in its mode.
    Decode(DecodeError),
}

/// The byte pairs of a list of entries.
pub open spec fn entries_view(v: Seq<(Vec<u8>, Vec<u8>)>) -> Seq<(Seq<u8>, Seq<u8>)> {
    Seq::new(v.len(), |i: int| (v[i].0@, v[i].1@))
}

/// A batch put: keys and values alternating, in the modes of its switches.
#[derive(Debug)]
pub struct BatchPut {
    pub key_values: Vec<String>,
    pub key_hex: bool,
    pub value_hex: bool,
}

impl BatchPut {
    pub open spec fn modes(&self) -> Modes {
        modes_of(self.key_hex, self.value_hex)
    }

    /// A batch put of `key_values` under the given switches.
    pub fn new(key_values: Vec<String>, flags: HexFlags) -> (r: BatchPut)
        ensures
            r.key_values@ == key_values@,
            r.modes() == resolved_modes(flags),
    {
        let modes = resolve_modes(flags);
        BatchPut {
            key_values,
            key_hex: modes.key == EncodingMode::Hex,
            value_hex: modes.value == EncodingMode::Hex,
        }
    }

    /// Validates and decodes the batch, before anything is written: the
    /// count of tokens must be even and every token well formed.
    pub fn plan(&self) -> (r: Result<Vec<(Vec<u8>, Vec<u8>)>, BatchError>)
        ensures
            match r {
                Ok(v) => batch_entries(self.key_values@, self.modes()) == Some(entries_view(v@)),
                Err(BatchError::OddTokenCount(n)) => {
                    &&& self.key_values@.len() % 2 == 1
                    &&& n == self.key_values@.len()
                },
                Err(BatchError::Decode(DecodeError::InvalidHex { input })) => {
                    &&& self.key_values@.len() % 2 == 0
                    &&& exists|j: int|
                        first_bad_token(self.key_values@, self.modes(), j) && input@
                            == #[trigger] self.key_values@[j]@
                },
            },
    {
        let tokens = &self.key_values;
        let n = tokens.len();
        if n % 2 != 0 {
            return Err(BatchError::OddTokenCount(n));
        }
        let ghost modes = self.modes();
        let key_mode = if self.key_hex {
            EncodingMode::Hex
        } else {
            EncodingMode::Text
        };
        let value_mode = if self.value_hex {
            EncodingMode::Hex
        } else {
            EncodingMode::Text
        };
        let mut entries: Vec<(Vec<u8>, Vec<u8>)> = Vec::new();
        let mut i: usize = 0;
        while i < n
            invariant
                tokens@ == self.key_values@,
                modes == self.modes(),
                n == tokens@.len(),
                n % 2 == 0,
                i % 2 == 0,
                i <= n,
                key_mode == modes.key,
                value_mode == modes.value,
                entries@.len() == i / 2,
                forall|j: int| 0 <= j < i ==> #[trigger] token_bytes(tokens@, modes, j) is Some,
                forall|k: int|
                    0 <= k < i / 2 ==> (#[trigger] entries@[k]).0@ == token_bytes(
                        tokens@,
                        modes,
                        2 * k,
                    )->0 && entries@[k].1@ == token_bytes(tokens@, modes, 2 * k + 1)->0,
            decreases n - i,
        {
            let k = match decode_param(tokens[i].as_str(), key_mode) {
                Ok(k) => k,
                Err(DecodeError::InvalidHex { input }) => {
                    assert(first_bad_token(tokens@, modes, i as int) && input@ == tokens@[i as int]@);
                    return Err(BatchError::Decode(DecodeError::InvalidHex { input }));
                },
            };
            let v = match decode_param(tokens[i + 1].as_str(), value_mode) {
                Ok(v) => v,
                Err(DecodeError::InvalidHex { input }) => {
                    assert(first_bad_token(tokens@, modes, i + 1) && input@ == tokens@[i + 1]@);
                    return Err(BatchError::Decode(DecodeError::InvalidHex { input }));
                },
            };
            entries.push((k, v));
            i = i + 2;
        }
        assert(entries_view(entries@) =~= batch_entries(tokens@, modes)->0);
        Ok(entries)
    }
}

/// Within one batch the last entry for a key decides its value: where no
/// later entry names the key of entry `j`, the store ends up holding the
/// value of entry `j` under it.
pub proof fn lemma_last_entry_wins(store: Contents, entries: Seq<(Seq<u8>, Seq<u8>)>, j: int)
    requires
        0 <= j < entries.len(),
        forall|i: int| j < i < entries.len() ==> #[trigger] entries[i].0 != entries[j].0,
    ensures
        put_all(store, entries).contains_key(entries[j].0),
        put_all(store, entries)[entries[j].0] == entries[j].1,
    decreases entries.len(),
{
    let n = entries.len() - 1;
    if j < n {
        let init = entries.drop_last();
        assert(entries[n].0 != entries[j].0);
        assert forall|i: int| j < i < init.len() implies #[trigger] init[i].0 != init[j].0 by {
            assert(init[i] == entries[i]);
        }
        lemma_last_entry_wins(store, init, j);
    }
}

/// Keys that no entry of a batch names keep their values.
pub proof fn lemma_unnamed_key_kept(store: Contents, entries: Seq<(Seq<u8>, Seq<u8>)>, key: Seq<u8>)
    requires
        forall|j: int| 0 <= j < entries.len() ==> #[trigger] entries[j].0 != key,
    ensures
        put_all(store, entries).contains_key(key) == store.contains_key(key),
        store.contains_key(key) ==> put_all(store, entries)[key] == store[key],
    decreases entries.len(),
{
    if entries.len() > 0 {
        let init = entries.drop_last();
        assert(entries[entries.len() - 1].0 != key);
        assert forall|j: int| 0 <= j < init.len() implies #[trigger] init[j].0 != key by {
            assert(init[j] == entries[j]);
        }
        lemma_unnamed_key_kept(store, init, key);
    }
}

/// A batch with an odd number of tokens is refused whole: it has no
/// entries, and the store stays as it was.
pub proof fn lemma_odd_batch_leaves_store(store: Contents, tokens: Seq<String>, modes: Modes)
    requires
        tokens.len() % 2 == 1,
    ensures
        batch_entries(tokens, modes) is None,
        batch_put_effect(store, tokens, modes) == store,
{
}

} // verus!
