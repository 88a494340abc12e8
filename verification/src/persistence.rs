//! The high-score table and the data that is saved between runs: what gets
//! written and what a saved file gives back. Reading and writing the file
//! itself happens outside this library.

use std::collections::HashMap;
use vstd::prelude::*;

use crate::game::{GameMode, HighScoreKey};
use crate::settings::Settings;

verus! {

broadcast use vstd::std_specs::hash::group_hash_axioms;

/// `2^31`: added to a board dimension to make it a 32-bit unsigned number.
pub const CODE_OFFSET: i64 = 2_147_483_648;

/// `2^32`: the room each of the two board dimensions takes in a key code.
pub const CODE_UNIT: u128 = 4_294_967_296;

/// The number a key is stored under: the mode's rank, the width and the
/// height, each shifted by `CODE_OFFSET`, as digits in base `CODE_UNIT`.
pub open spec fn spec_key_code(k: HighScoreKey) -> int {
    let u = CODE_UNIT as int;
    (spec_mode_rank(k.mode) * u + (k.grid_width + CODE_OFFSET)) * u + (k.grid_height + CODE_OFFSET)
}

/// The mode of rank `r` (a rank above 2 is read as Zen).
pub open spec fn spec_mode_of_rank(r: int) -> GameMode {
    if r == 0 {
        GameMode::Classic
    } else if r == 1 {
        GameMode::Wrap
    } else {
        GameMode::Zen
    }
}

/// The key that code `c` stands for.
pub open spec fn spec_key_of_code(c: int) -> HighScoreKey {
    let u = CODE_UNIT as int;
    HighScoreKey {
        mode: spec_mode_of_rank(c / u / u),
        grid_width: (c / u % u - CODE_OFFSET) as i32,
        grid_height: (c % u - CODE_OFFSET) as i32,
    }
}

/// Every key has a code below `3 * 2^64` that gives the key back.
proof fn lemma_key_code(k: HighScoreKey)
    ensures
        0 <= spec_key_code(k) < 3 * CODE_UNIT * CODE_UNIT,
        spec_key_of_code(spec_key_code(k)) == k,
{
    let u = CODE_UNIT as int;
    let r = spec_mode_rank(k.mode);
    let a = k.grid_width + CODE_OFFSET;
    let b = k.grid_height + CODE_OFFSET;
    let c = spec_key_code(k);
    assert(0 <= r * u + a < 3 * u) by (nonlinear_arith)
        requires
            0 <= r <= 2,
            0 <= a < u,
            u == 4_294_967_296,
    ;
    assert(0 <= c < 3 * u * u) by (nonlinear_arith)
        requires
            0 <= r * u + a < 3 * u,
            0 <= b < u,
            c == (r * u + a) * u + b,
            u == 4_294_967_296,
    ;
    vstd::arithmetic::div_mod::lemma_fundamental_div_mod_converse(c, u, r * u + a, b);
    vstd::arithmetic::div_mod::lemma_fundamental_div_mod_converse(r * u + a, u, r, a);
}

/// The key `k` as it is stored.
fn key_code(k: &HighScoreKey) -> (r: u128)
    ensures
        r == spec_key_code(*k),
{
    proof {
        lemma_key_code(*k);
    }
    let rank: u128 = match k.mode {
        GameMode::Classic => 0,
        GameMode::Wrap => 1,
        GameMode::Zen => 2,
    };
    let a: u128 = (k.grid_width as i64 + CODE_OFFSET) as u128;
    let b: u128 = (k.grid_height as i64 + CODE_OFFSET) as u128;
    (rank * CODE_UNIT + a) * CODE_UNIT + b
}

/// The key that a stored code stands for.
fn key_of_code(c: u128) -> (r: HighScoreKey)
    requires
        c == spec_key_code(spec_key_of_code(c as int)),
    ensures
        r == spec_key_of_code(c as int),
{
    proof {
        lemma_key_code(spec_key_of_code(c as int));
    }
    let rank = c / CODE_UNIT / CODE_UNIT;
    let mode = if rank == 0 {
        GameMode::Classic
    } else if rank == 1 {
        GameMode::Wrap
    } else {
        GameMode::Zen
    };
    let w: i64 = (c / CODE_UNIT % CODE_UNIT) as i64 - CODE_OFFSET;
    let h: i64 = (c % CODE_UNIT) as i64 - CODE_OFFSET;
    HighScoreKey { mode, grid_width: w as i32, grid_height: h as i32 }
}

/// The best score of each mode and board size.
pub struct HighScoreMap {
    scores: HashMap<u128, u32>,
}

impl HighScoreMap {
    /// Every stored code is the code of the key it stands for.
    #[verifier::type_invariant]
    closed spec fn codes_valid(self) -> bool {
        forall|c: u128| #[trigger] self.scores@.contains_key(c) ==> c == spec_key_code(spec_key_of_code(c as int))
    }
}

impl View for HighScoreMap {
    type V = Map<HighScoreKey, u32>;

    closed spec fn view(&self) -> Map<HighScoreKey, u32> {
        Map::new(
            |k: HighScoreKey| self.scores@.contains_key(spec_key_code(k) as u128),
            |k: HighScoreKey| self.scores@[spec_key_code(k) as u128],
        )
    }
}

impl HighScoreMap {
    /// An empty table.
    pub fn new() -> (r: Self)
        ensures
            r@ == Map::<HighScoreKey, u32>::empty(),
    {
        let r = HighScoreMap { scores: HashMap::new() };
        assert(r@ =~= Map::<HighScoreKey, u32>::empty());
        r
    }

    /// The score kept for `key`, if any.
    pub fn get(&self, key: &HighScoreKey) -> (r: Option<&u32>)
        ensures
            match r {
                Some(v) => self@.contains_key(*key) && *v == self@[*key],
                None => !self@.contains_key(*key),
            },
    {
        let code = key_code(key);
        proof {
            lemma_key_code(*key);
        }
        self.scores.get(&code)
    }

    /// The keys of the table are the keys of the stored codes.
    proof fn lemma_domain(self)
        requires
            self.codes_valid(),
        ensures
            self@.dom() == self.scores@.dom().map(|c: u128| spec_key_of_code(c as int)),
            self@.dom().finite(),
            self@.len() == self.scores@.len(),
    {
        let f = |c: u128| spec_key_of_code(c as int);
        let codes = self.scores@.dom();
        assert forall|k: HighScoreKey| #[trigger] self@.dom().contains(k) <==> codes.map(f).contains(k) by {
            lemma_key_code(k);
            if self@.dom().contains(k) {
                assert(codes.contains(spec_key_code(k) as u128));
                assert(f(spec_key_code(k) as u128) == k);
            }
            if codes.map(f).contains(k) {
                let c = choose|c: u128| codes.contains(c) && f(c) == k;
                assert(c == spec_key_code(k));
            }
        }
        assert(self@.dom() =~= codes.map(f));
        assert(vstd::relations::injective_on(f, codes)) by {
            assert forall|c1: u128, c2: u128| codes.contains(c1) && codes.contains(c2) && #[trigger] f(c1)
                == #[trigger] f(c2) implies c1 == c2 by {
                assert(c1 == spec_key_code(spec_key_of_code(c1 as int)));
                assert(c2 == spec_key_code(spec_key_of_code(c2 as int)));
            }
        }
        vstd::set_lib::lemma_map_size(codes, self@.dom(), f);
    }

    /// The number of keys in the table.
    pub fn len(&self) -> (r: usize)
        ensures
            r == self@.len(),
            self@.dom().finite(),
    {
        proof {
            use_type_invariant(self);
            self.lemma_domain();
        }
        self.scores.len()
    }

    pub fn is_empty(&self) -> (r: bool)
        ensures
            r == (self@.len() == 0),
            self@.dom().finite(),
    {
        self.len() == 0
    }

    /// Keeps `value` for `key`; returns the value it replaces, if any.
    pub fn insert(&mut self, key: HighScoreKey, value: u32) -> (r: Option<u32>)
        ensures
            final(self)@ == old(self)@.insert(key, value),
            r == (if old(self)@.contains_key(key) {
                Some(old(self)@[key])
            } else {
                None
            }),
    {
        proof {
            use_type_invariant(&*self);
            lemma_key_code(key);
        }
        let ghost before = self@;
        let code = key_code(&key);
        let mut scores = HashMap::new();
        std::mem::swap(&mut scores, &mut self.scores);
        let r = scores.insert(code, value);
        self.scores = scores;
        proof {
            assert forall|k: HighScoreKey| #[trigger] self@.contains_key(k) == before.insert(key, value).contains_key(k) by {
                lemma_key_code(k);
            }
            assert forall|k: HighScoreKey| #[trigger] self@.contains_key(k) implies self@[k] == before.insert(key, value)[k] by {
                lemma_key_code(k);
            }
            assert(self@ =~= before.insert(key, value));
        }
        r
    }

    /// The table's entries, each key once, in no particular order.
    fn stored_entries(&self) -> (r: Vec<(HighScoreKey, u32)>)
        ensures
            r@.len() == self@.len(),
            forall|i: int, j: int| 0 <= i < j < r@.len() ==> (#[trigger] r@[i]).0 != (#[trigger] r@[j]).0,
            forall|i: int| 0 <= i < r@.len() ==> self@.contains_key((#[trigger] r@[i]).0) && self@[r@[i].0] == r@[i].1,
            forall|k: HighScoreKey| #[trigger] self@.contains_key(k) ==> exists|i: int| 0 <= i < r@.len() && r@[i].0 == k,
    {
        proof {
            use_type_invariant(self);
            self.lemma_domain();
        }
        let m = &self.scores;
        let mut out: Vec<(HighScoreKey, u32)> = Vec::new();
        let ghost s = vstd::std_specs::iter::IteratorSpec::remaining(
            &vstd::std_specs::hash::spec_hash_map_iter(m),
        );
        for (c, v) in it: m.iter()
            invariant
                it.seq() == s,
                s.no_duplicates(),
                self.codes_valid(),
                m == &self.scores,
                out@.len() == it.index(),
                forall|i: int| 0 <= i < out@.len() ==> #[trigger] out@[i] == (spec_key_of_code(*s[i].0 as int), *s[i].1),
        {
            proof {
                assert(m@.contains_key(*c));
            }
            out.push((key_of_code(*c), *v));
        }
        proof {
            assert forall|i: int, j: int| 0 <= i < j < out@.len() implies (#[trigger] out@[i]).0 != (#[trigger] out@[j]).0 by {
                let (ci, cj) = (*s[i].0, *s[j].0);
                assert(m@.contains_key(ci) && m@.contains_key(cj));
                if out@[i].0 == out@[j].0 {
                    assert(ci == spec_key_code(spec_key_of_code(ci as int)));
                    assert(cj == spec_key_code(spec_key_of_code(cj as int)));
                    assert(s[i] == s[j]);
                }
            }
            assert forall|i: int| 0 <= i < out@.len() implies self@.contains_key((#[trigger] out@[i]).0) && self@[out@[i].0] == out@[i].1 by {
                let c = *s[i].0;
                assert(m@.contains_key(c));
                assert(c == spec_key_code(spec_key_of_code(c as int)));
            }
            assert forall|k: HighScoreKey| #[trigger] self@.contains_key(k) implies exists|i: int| 0 <= i < out@.len() && out@[i].0 == k by {
                lemma_key_code(k);
                let c = spec_key_code(k) as u128;
                assert(s.contains((&c, &m@[c])));
                let j = choose|j: int| 0 <= j < s.len() && s[j] == (&c, &m@[c]);
                assert(out@[j].0 == k);
            }
        }
        out
    }
}

} // verus!

verus! {

/// One saved high score.
#[derive(Clone, Copy, Debug, PartialEq, Eq, Structural)]
pub struct PersistedHighScore {
    pub mode: GameMode,
    pub grid_width: i32,
    pub grid_height: i32,
    pub score: u32,
}

pub open spec fn spec_key_of(e: PersistedHighScore) -> HighScoreKey {
    HighScoreKey { mode: e.mode, grid_width: e.grid_width, grid_height: e.grid_height }
}

/// The rank of a mode in the saved order: Classic, Wrap, Zen.
pub open spec fn spec_mode_rank(m: GameMode) -> int {
    match m {
        GameMode::Classic => 0,
        GameMode::Wrap => 1,
        GameMode::Zen => 2,
    }
}

/// The saved order: by mode, then board width, board height and score.
pub open spec fn spec_entry_before(a: PersistedHighScore, b: PersistedHighScore) -> bool {
    let (ra, rb) = (spec_mode_rank(a.mode), spec_mode_rank(b.mode));
    ||| ra < rb
    ||| ra == rb && a.grid_width < b.grid_width
    ||| ra == rb && a.grid_width == b.grid_width && a.grid_height < b.grid_height
    ||| ra == rb && a.grid_width == b.grid_width && a.grid_height == b.grid_height && a.score
        < b.score
}

/// `entries` lists the table `m` in the saved order: one entry per key, with
/// its score, strictly ascending.
pub open spec fn spec_lists_table(entries: Seq<PersistedHighScore>, m: Map<HighScoreKey, u32>) -> bool {
    &&& entries.len() == m.len()
    &&& forall|i: int|
        0 <= i < entries.len() ==> m.contains_key(spec_key_of(#[trigger] entries[i])) && m[spec_key_of(
            entries[i],
        )] == entries[i].score
    &&& forall|k: HighScoreKey|
        #[trigger] m.contains_key(k) ==> exists|i: int| 0 <= i < entries.len() && spec_key_of(entries[i]) == k
    &&& forall|i: int, j: int|
        0 <= i < j < entries.len() ==> spec_entry_before(#[trigger] entries[i], #[trigger] entries[j])
}

/// The table that saved entries give back: for each mode and board, the best
/// of their scores, if it is above 0; later entries replace earlier ones only
/// with a higher score.
pub open spec fn spec_best_scores(entries: Seq<PersistedHighScore>) -> Map<HighScoreKey, u32>
    decreases entries.len(),
{
    if entries.len() == 0 {
        Map::empty()
    } else {
        let m = spec_best_scores(entries.drop_last());
        let e = entries.last();
        let k = spec_key_of(e);
        let current: u32 = if m.contains_key(k) { m[k] } else { 0 };
        if e.score > current {
            m.insert(k, e.score)
        } else {
            m
        }
    }
}

pub fn mode_sort_key(mode: GameMode) -> (r: i32)
    ensures
        r == spec_mode_rank(mode),
{
    match mode {
        GameMode::Classic => 0,
        GameMode::Wrap => 1,
        GameMode::Zen => 2,
    }
}

fn entry_before(a: &PersistedHighScore, b: &PersistedHighScore) -> (r: bool)
    ensures
        r == spec_entry_before(*a, *b),
{
    let ra = mode_sort_key(a.mode);
    let rb = mode_sort_key(b.mode);
    if ra != rb {
        ra < rb
    } else if a.grid_width != b.grid_width {
        a.grid_width < b.grid_width
    } else if a.grid_height != b.grid_height {
        a.grid_height < b.grid_height
    } else {
        a.score < b.score
    }
}

/// Entries with different keys are ordered one way or the other.
proof fn lemma_entry_order_total(a: PersistedHighScore, b: PersistedHighScore)
    requires
        spec_key_of(a) != spec_key_of(b),
    ensures
        spec_entry_before(a, b) || spec_entry_before(b, a),
        !(spec_entry_before(a, b) && spec_entry_before(b, a)),
{
}

/// The entries are strictly ascending in the saved order.
pub open spec fn spec_sorted(entries: Seq<PersistedHighScore>) -> bool {
    forall|i: int, j: int|
        0 <= i < j < entries.len() ==> spec_entry_before(#[trigger] entries[i], #[trigger] entries[j])
}

/// Inserts `e`, whose key none of the entries has, at its place in the
/// saved order.
fn insert_sorted(out: &mut Vec<PersistedHighScore>, e: PersistedHighScore)
    requires
        spec_sorted(old(out)@),
        forall|j: int| 0 <= j < old(out)@.len() ==> spec_key_of(#[trigger] old(out)@[j]) != spec_key_of(e),
    ensures
        spec_sorted(final(out)@),
        final(out)@.len() == old(out)@.len() + 1,
        forall|x: PersistedHighScore| #[trigger] final(out)@.contains(x) <==> (old(out)@.contains(x) || x == e),
{
    let m = out.len();
    let mut pos: usize = 0;
    while pos < m && entry_before(&out[pos], &e)
        invariant
            m == out@.len(),
            pos <= m,
            forall|j: int| 0 <= j < pos ==> spec_entry_before(#[trigger] out@[j], e),
        decreases m - pos,
    {
        pos = pos + 1;
    }
    let ghost before = out@;
    proof {
        assert forall|j: int| pos <= j < before.len() implies spec_entry_before(e, #[trigger] before[j]) by {
            lemma_entry_order_total(e, before[j]);
            if j > pos {
                lemma_entry_order_total(e, before[pos as int]);
            }
        }
    }
    out.insert(pos, e);
    proof {
        assert(out@ =~= before.insert(pos as int, e));
        assert forall|a: int, b: int| 0 <= a < b < out@.len() implies spec_entry_before(
            #[trigger] out@[a],
            #[trigger] out@[b],
        ) by {
            if b < pos {
                assert(out@[a] == before[a] && out@[b] == before[b]);
            } else if b == pos {
                assert(out@[a] == before[a]);
            } else if a < pos {
                assert(out@[a] == before[a] && out@[b] == before[b - 1]);
            } else if a == pos {
                assert(out@[b] == before[b - 1]);
            } else {
                assert(out@[a] == before[a - 1] && out@[b] == before[b - 1]);
            }
        }
        assert forall|x: PersistedHighScore| #[trigger] out@.contains(x) <==> (before.contains(x) || x == e) by {
            if out@.contains(x) {
                let j = choose|j: int| 0 <= j < out@.len() && out@[j] == x;
                if j < pos {
                    assert(before[j] == x);
                } else if j > pos {
                    assert(before[j - 1] == x);
                }
            }
            if before.contains(x) {
                let j = choose|j: int| 0 <= j < before.len() && before[j] == x;
                if j < pos {
                    assert(out@[j] == x);
                } else {
                    assert(out@[j + 1] == x);
                }
            }
            if x == e {
                assert(out@[pos as int] == x);
            }
        }
    }
}

/// The saved entry of the table entry `e`.
spec fn spec_entry_of(e: (HighScoreKey, u32)) -> PersistedHighScore {
    PersistedHighScore {
        mode: e.0.mode,
        grid_width: e.0.grid_width,
        grid_height: e.0.grid_height,
        score: e.1,
    }
}

/// The table as entries in the saved order.
pub fn map_to_scores(map: &HighScoreMap) -> (r: Vec<PersistedHighScore>)
    ensures
        spec_lists_table(r@, map@),
{
    let entries = map.stored_entries();
    let n = entries.len();
    let mut out: Vec<PersistedHighScore> = Vec::new();
    let mut i: usize = 0;
    while i < n
        invariant
            n == entries@.len(),
            forall|a: int, b: int| 0 <= a < b < n ==> (#[trigger] entries@[a]).0 != (#[trigger] entries@[b]).0,
            i <= n,
            out@.len() == i,
            forall|j: int|
                0 <= j < out@.len() ==> exists|p: int|
                    0 <= p < i && #[trigger] out@[j] == spec_entry_of(entries@[p]),
            forall|p: int| 0 <= p < i ==> out@.contains(spec_entry_of(#[trigger] entries@[p])),
            spec_sorted(out@),
        decreases n - i,
    {
        let (key, score) = entries[i];
        let e = PersistedHighScore {
            mode: key.mode,
            grid_width: key.grid_width,
            grid_height: key.grid_height,
            score,
        };
        proof {
            assert(e == spec_entry_of(entries@[i as int]));
            assert forall|j: int| 0 <= j < out@.len() implies spec_key_of(#[trigger] out@[j])
                != spec_key_of(e) by {
                let p = choose|p: int| 0 <= p < i && out@[j] == spec_entry_of(entries@[p]);
                assert(entries@[p].0 != entries@[i as int].0);
            }
        }
        let ghost before = out@;
        insert_sorted(&mut out, e);
        proof {
            assert forall|j: int| 0 <= j < out@.len() implies exists|p: int|
                0 <= p < i + 1 && #[trigger] out@[j] == spec_entry_of(entries@[p]) by {
                assert(out@.contains(out@[j]));
                if out@[j] != e {
                    let q = choose|q: int| 0 <= q < before.len() && before[q] == out@[j];
                    assert(before[q] == out@[j]);
                }
            }
            assert forall|p: int| 0 <= p < i + 1 implies out@.contains(
                spec_entry_of(#[trigger] entries@[p]),
            ) by {
                if p < i {
                    assert(before.contains(spec_entry_of(entries@[p])));
                }
            }
        }
        i = i + 1;
    }
    proof {
        assert forall|j: int| 0 <= j < out@.len() implies map@.contains_key(
            spec_key_of(#[trigger] out@[j]),
        ) && map@[spec_key_of(out@[j])] == out@[j].score by {
            let p = choose|p: int| 0 <= p < n && out@[j] == spec_entry_of(entries@[p]);
            assert(map@.contains_key(entries@[p].0));
        }
        assert forall|k: HighScoreKey| #[trigger] map@.contains_key(k) implies exists|j: int|
            0 <= j < out@.len() && spec_key_of(out@[j]) == k by {
            let p = choose|p: int| 0 <= p < entries@.len() && entries@[p].0 == k;
            assert(out@.contains(spec_entry_of(entries@[p])));
        }
    }
    out
}

/// The table that saved entries give back.
pub fn scores_to_map(scores: &[PersistedHighScore]) -> (r: HighScoreMap)
    ensures
        r@ == spec_best_scores(scores@),
{
    let mut map = HighScoreMap::new();
    let n = scores.len();
    let mut i: usize = 0;
    while i < n
        invariant
            n == scores@.len(),
            i <= n,
            map@ == spec_best_scores(scores@.subrange(0, i as int)),
        decreases n - i,
    {
        let entry = scores[i];
        let key = HighScoreKey::new(entry.mode, entry.grid_width, entry.grid_height);
        let current = match map.get(&key) {
            Some(v) => *v,
            None => 0,
        };
        if entry.score > current {
            map.insert(key, entry.score);
        }
        proof {
            let prefix = scores@.subrange(0, i + 1);
            assert(prefix.drop_last() =~= scores@.subrange(0, i as int));
            assert(prefix.last() == entry);
        }
        i = i + 1;
    }
    proof {
        assert(scores@.subrange(0, n as int) =~= scores@);
    }
    map
}

/// Everything that is saved between runs.
#[derive(Debug)]
pub struct PersistedData {
    pub settings: Settings,
    pub high_scores: Vec<PersistedHighScore>,
}

impl Default for PersistedData {
    fn default() -> (r: Self)
        ensures
            r.settings == Settings::spec_default(),
            r.high_scores@.len() == 0,
    {
        PersistedData { settings: Settings::default(), high_scores: Vec::new() }
    }
}

/// What to save: the settings brought into range, and the table in the saved
/// order.
pub fn to_persisted(settings: &Settings, high_scores: &HighScoreMap) -> (r: PersistedData)
    ensures
        r.settings == settings.spec_sanitized(),
        spec_lists_table(r.high_scores@, high_scores@),
{
    PersistedData { settings: settings.sanitized(), high_scores: map_to_scores(high_scores) }
}

/// The settings and table a load gives: the defaults and an empty table when
/// nothing usable was saved (no file, unreadable, or not valid data);
/// otherwise the saved settings brought into range and the best saved score
/// of each mode and board.
pub fn restore_persisted(data: Option<PersistedData>) -> (r: (Settings, HighScoreMap))
    ensures
        match data {
            None => r.0 == Settings::spec_default() && r.1@ == Map::<HighScoreKey, u32>::empty(),
            Some(d) => r.0 == d.settings.spec_sanitized() && r.1@ == spec_best_scores(d.high_scores@),
        },
{
    match data {
        None => (Settings::default(), HighScoreMap::new()),
        Some(d) => (d.settings.sanitized(), scores_to_map(d.high_scores.as_slice())),
    }
}

} // verus!

verus! {

// Laws of the saved data.

/// Entries with distinct keys give back exactly their positive scores.
proof fn lemma_best_scores_of_distinct(s: Seq<PersistedHighScore>)
    requires
        forall|i: int, j: int|
            0 <= i < j < s.len() ==> spec_key_of(#[trigger] s[i]) != spec_key_of(#[trigger] s[j]),
    ensures
        forall|k: HighScoreKey|
            #[trigger] spec_best_scores(s).contains_key(k) <==> exists|i: int|
                0 <= i < s.len() && spec_key_of(s[i]) == k && s[i].score > 0,
        forall|i: int|
            0 <= i < s.len() && s[i].score > 0 ==> #[trigger] spec_best_scores(s)[spec_key_of(s[i])]
                == s[i].score,
    decreases s.len(),
{
    if s.len() > 0 {
        let t = s.drop_last();
        lemma_best_scores_of_distinct(t);
        let e = s.last();
        let k = spec_key_of(e);
        assert(!spec_best_scores(t).contains_key(k)) by {
            if spec_best_scores(t).contains_key(k) {
                let i = choose|i: int| 0 <= i < t.len() && spec_key_of(t[i]) == k && t[i].score > 0;
                assert(spec_key_of(s[i]) == spec_key_of(s[s.len() - 1]));
            }
        }
        if e.score > 0 {
            assert(spec_best_scores(s) == spec_best_scores(t).insert(k, e.score));
        } else {
            assert(spec_best_scores(s) == spec_best_scores(t));
        }
        assert forall|k2: HighScoreKey|
            #[trigger] spec_best_scores(s).contains_key(k2) <==> exists|i: int|
                0 <= i < s.len() && spec_key_of(s[i]) == k2 && s[i].score > 0 by {
            if spec_best_scores(s).contains_key(k2) && k2 != k {
                let i = choose|i: int| 0 <= i < t.len() && spec_key_of(t[i]) == k2 && t[i].score > 0;
                assert(s[i] == t[i]);
            }
            if spec_best_scores(s).contains_key(k2) && k2 == k && e.score > 0 {
                assert(s[s.len() - 1] == e);
            }
            if spec_best_scores(s).contains_key(k2) && k2 == k && e.score == 0 {
                let i = choose|i: int| 0 <= i < t.len() && spec_key_of(t[i]) == k2 && t[i].score > 0;
                assert(s[i] == t[i]);
            }
            if exists|i: int| 0 <= i < s.len() && spec_key_of(s[i]) == k2 && s[i].score > 0 {
                let i = choose|i: int| 0 <= i < s.len() && spec_key_of(s[i]) == k2 && s[i].score > 0;
                if i < s.len() - 1 {
                    assert(t[i] == s[i]);
                }
            }
        }
        assert forall|i: int| 0 <= i < s.len() && s[i].score > 0 implies #[trigger] spec_best_scores(
            s,
        )[spec_key_of(s[i])] == s[i].score by {
            if i < s.len() - 1 {
                assert(t[i] == s[i]);
            }
        }
    }
}

/// The entries of table `m` above 0: what a load keeps.
pub open spec fn spec_positive_part(m: Map<HighScoreKey, u32>) -> Map<HighScoreKey, u32> {
    Map::new(|k: HighScoreKey| m.contains_key(k) && m[k] > 0, |k: HighScoreKey| m[k])
}

/// Saving a table and loading it back gives the table without its scores
/// of 0 (a score of 0 is never kept on load); a table of positive scores
/// comes back as it was.
pub proof fn lemma_table_round_trip(entries: Seq<PersistedHighScore>, m: Map<HighScoreKey, u32>)
    requires
        spec_lists_table(entries, m),
    ensures
        spec_best_scores(entries) == spec_positive_part(m),
        (forall|k: HighScoreKey| #[trigger] m.contains_key(k) ==> m[k] > 0) ==> spec_best_scores(
            entries,
        ) == m,
{
    assert forall|i: int, j: int| 0 <= i < j < entries.len() implies spec_key_of(#[trigger] entries[i])
        != spec_key_of(#[trigger] entries[j]) by {
        assert(spec_entry_before(entries[i], entries[j]));
    }
    lemma_best_scores_of_distinct(entries);
    let b = spec_best_scores(entries);
    let pm = spec_positive_part(m);
    assert forall|k: HighScoreKey| #[trigger] b.contains_key(k) <==> pm.contains_key(k) by {
        if b.contains_key(k) {
            let i = choose|i: int| 0 <= i < entries.len() && spec_key_of(entries[i]) == k && entries[i].score > 0;
            assert(m.contains_key(spec_key_of(entries[i])));
        }
        if pm.contains_key(k) {
            let i = choose|i: int| 0 <= i < entries.len() && spec_key_of(entries[i]) == k;
            assert(m[spec_key_of(entries[i])] == entries[i].score);
        }
    }
    assert forall|k: HighScoreKey| #[trigger] b.contains_key(k) implies b[k] == pm[k] by {
        let i = choose|i: int| 0 <= i < entries.len() && spec_key_of(entries[i]) == k && entries[i].score > 0;
        assert(b[spec_key_of(entries[i])] == entries[i].score);
    }
    assert(b =~= pm);
    if forall|k: HighScoreKey| #[trigger] m.contains_key(k) ==> m[k] > 0 {
        assert(pm =~= m);
    }
}

/// What is saved for settings `s` and a table `m` loads back as `s` brought
/// into range and `m` without its scores of 0.
pub proof fn lemma_save_then_load(s: Settings, m: Map<HighScoreKey, u32>, d: PersistedData)
    requires
        d.settings == s.spec_sanitized(),
        spec_lists_table(d.high_scores@, m),
    ensures
        d.settings.spec_sanitized() == s.spec_sanitized(),
        spec_best_scores(d.high_scores@) == spec_positive_part(m),
{
    lemma_table_round_trip(d.high_scores@, m);
}

/// A load keeps, for each mode and board, the best of the saved scores: no
/// saved positive score is above what is kept, every kept score was saved,
/// and no score of 0 is kept.
pub proof fn lemma_best_scores_keep_best(s: Seq<PersistedHighScore>)
    ensures
        forall|i: int|
            0 <= i < s.len() && #[trigger] s[i].score > 0 ==> spec_best_scores(s).contains_key(
                spec_key_of(s[i]),
            ) && spec_best_scores(s)[spec_key_of(s[i])] >= s[i].score,
        forall|k: HighScoreKey|
            #[trigger] spec_best_scores(s).contains_key(k) ==> spec_best_scores(s)[k] > 0 && exists|i: int|
                0 <= i < s.len() && spec_key_of(s[i]) == k && s[i].score == spec_best_scores(s)[k],
    decreases s.len(),
{
    if s.len() > 0 {
        let t = s.drop_last();
        lemma_best_scores_keep_best(t);
        let bt = spec_best_scores(t);
        let b = spec_best_scores(s);
        assert forall|i: int| 0 <= i < s.len() && #[trigger] s[i].score > 0 implies b.contains_key(
            spec_key_of(s[i]),
        ) && b[spec_key_of(s[i])] >= s[i].score by {
            if i < s.len() - 1 {
                assert(t[i] == s[i]);
            }
        }
        assert forall|k: HighScoreKey| #[trigger] b.contains_key(k) implies b[k] > 0 && exists|i: int|
            0 <= i < s.len() && spec_key_of(s[i]) == k && s[i].score == b[k] by {
            if k == spec_key_of(s.last()) && b[k] == s.last().score && b[k] > bt.index(k) {
                assert(s[s.len() - 1] == s.last());
            } else if bt.contains_key(k) && b[k] == bt[k] {
                let i = choose|i: int| 0 <= i < t.len() && spec_key_of(t[i]) == k && t[i].score == bt[k];
                assert(s[i] == t[i]);
            } else {
                assert(s[s.len() - 1] == s.last());
            }
        }
    }
}

} // verus!
