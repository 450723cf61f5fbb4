//! Lookup tables over evenly spaced fixed-point keys: a flat table, its
//! cyclic extension, and sine and cosine tables that serve a whole turn from
//! the samples of one quadrant.

use vstd::prelude::*;
use crate::bit_magic::Negate;
use rayon::iter::{IndexedParallelIterator, IntoParallelIterator, ParallelIterator};

verus! {

/// Conversion of a computed position into a table index, saturating at the
/// ends of `usize` (negative positions become `0`).
pub trait ToIndex {
    spec fn spec_to_index(&self) -> usize;

    fn to_index(&self) -> (r: usize)
        ensures
            r == self.spec_to_index(),
    ;
}

impl ToIndex for i128 {
    open spec fn spec_to_index(&self) -> usize {
        saturate_index(*self as int) as usize
    }

    fn to_index(&self) -> (r: usize) {
        if *self < 0 {
            0
        } else if *self > usize::MAX as i128 {
            usize::MAX
        } else {
            *self as usize
        }
    }
}

/// Conversion of a table index into the arithmetic type that positions are
/// computed in.
pub trait FromIndex: Sized {
    spec fn spec_from_index(index: usize) -> Self;

    fn from_index(index: usize) -> (r: Self)
        ensures
            r == Self::spec_from_index(index),
    ;
}

impl FromIndex for i128 {
    open spec fn spec_from_index(index: usize) -> i128 {
        index as i128
    }

    fn from_index(index: usize) -> (r: i128) {
        index as i128
    }
}

/// `v` clamped into the range of `usize`.
pub open spec fn saturate_index(v: int) -> int {
    if v < 0 {
        0
    } else if v > usize::MAX {
        usize::MAX as int
    } else {
        v
    }
}

/// The least integer not below `a / b`, for `b > 0`.
pub open spec fn ceil_div(a: int, b: int) -> int {
    -((-a) / b)
}

/// The position that interpolative search gives to `key` in a table of `len`
/// evenly spaced keys whose last key is `max_key`:
/// `ceil(key * (len - 1) / max_key)`, saturated into `usize`.
pub open spec fn interpolated_index(key: int, len: int, max_key: int) -> int {
    saturate_index(ceil_div(key * (len - 1), max_key))
}

/// The interpolated position clamped to the last entry of the table.
pub open spec fn clamped_index(key: int, len: int, max_key: int) -> int {
    let i = interpolated_index(key, len, max_key);
    if i < len { i } else { len - 1 }
}

/// Keys that rise by one fixed positive step from the first to the last.
pub open spec fn evenly_spaced(keys: Seq<i64>) -> bool {
    keys.len() >= 2 ==> {
        &&& keys[0] < keys[1]
        &&& forall|i: int|
            0 <= i < keys.len() ==> #[trigger] keys[i] == keys[0] + i * (keys[1] - keys[0])
    }
}

/// What a flat table needs of its data: as many values as keys, at least
/// one of each, evenly spaced keys and a positive last key.
pub open spec fn valid_layout<V>(keys: Seq<i64>, values: Seq<V>) -> bool {
    &&& keys.len() >= 1
    &&& keys.len() == values.len()
    &&& keys.last() > 0
    &&& evenly_spaced(keys)
}

/// Checks what a flat table needs of its data, so that a table is refused
/// when it is built rather than giving wrong values when it is queried.
pub fn valid_table_layout<V>(keys: &Vec<i64>, values: &Vec<V>) -> (r: bool)
    ensures
        r == valid_layout(keys@, values@),
{
    let n = keys.len();
    if n == 0 || n != values.len() || keys[n - 1] <= 0 {
        return false;
    }
    if n == 1 {
        return true;
    }
    let step: i128 = keys[1] as i128 - keys[0] as i128;
    if step <= 0 {
        return false;
    }
    let mut i: usize = 1;
    while i < n
        invariant
            n == keys@.len(),
            n >= 2,
            1 <= i <= n,
            step == keys@[1] - keys@[0],
            step > 0,
            forall|j: int| 0 <= j < i ==> #[trigger] keys@[j] == keys@[0] + j * step,
        decreases n - i,
    {
        if keys[i] as i128 - keys[i - 1] as i128 != step {
            assert(!evenly_spaced(keys@)) by {
                if evenly_spaced(keys@) {
                    let a = keys@[i as int];
                    let b = keys@[i - 1];
                    assert(a == keys@[0] + i * step);
                    assert(b == keys@[0] + (i - 1) * step);
                    assert(a - b == step) by (nonlinear_arith)
                        requires
                            a == keys@[0] + i * step,
                            b == keys@[0] + (i - 1) * step,
                    ;
                }
            }
            return false;
        }
        proof {
            let b = keys@[i - 1];
            assert(b == keys@[0] + (i - 1) * step);
            assert(keys@[i as int] == keys@[0] + i * step) by (nonlinear_arith)
                requires
                    b == keys@[0] + (i - 1) * step,
                    keys@[i as int] - b == step,
            ;
        }
        i = i + 1;
    }
    true
}

/// A table of values sampled at evenly spaced keys, queried in constant time
/// by interpolating the position of the key.
#[derive(Clone, Debug)]
pub struct FloatLookupTable<V> {
    keys: Vec<i64>,
    max_key: i64,
    values: Vec<V>,
}

impl<V> FloatLookupTable<V> {
    /// The keys the table was built from.
    pub closed spec fn spec_keys(&self) -> Seq<i64> {
        self.keys@
    }

    /// The sampled values, one for each key.
    pub closed spec fn spec_values(&self) -> Seq<V> {
        self.values@
    }

    /// The last key.
    pub closed spec fn spec_max_key(&self) -> int {
        self.max_key as int
    }

    pub open spec fn wf(&self) -> bool {
        &&& valid_layout(self.spec_keys(), self.spec_values())
        &&& self.spec_values().len() <= usize::MAX
        &&& self.spec_max_key() == self.spec_keys().last()
    }

    /// The value that a lookup of `key` returns.
    pub open spec fn spec_lookup(&self, key: int) -> V {
        self.spec_values()[clamped_index(key, self.spec_values().len() as int, self.spec_max_key())]
    }
}

proof fn lemma_ceil_div_positive(a: int, b: int, q: int)
    requires
        a > 0,
        b > 0,
        q == (a + b - 1) / b,
    ensures
        q == ceil_div(a, b),
        q >= 0,
{
    let f = (-a) / b;
    vstd::arithmetic::div_mod::lemma_fundamental_div_mod(a + b - 1, b);
    vstd::arithmetic::div_mod::lemma_fundamental_div_mod(-a, b);
    let r1 = (a + b - 1) % b;
    let r2 = (-a) % b;
    assert(0 <= r1 < b);
    assert(0 <= r2 < b);
    assert(a + b - 1 == b * q + r1);
    assert(-a == b * f + r2);
    // Adding the two divisions gives b * (q + f) == b - 1 - r1 - r2, which lies in (-b, b).
    assert(b * (q + f) == b - 1 - r1 - r2) by (nonlinear_arith)
        requires
            a + b - 1 == b * q + r1,
            -a == b * f + r2,
    ;
    if q + f >= 1 {
        assert(b * (q + f) >= b) by (nonlinear_arith)
            requires
                q + f >= 1,
                b > 0,
        ;
    }
    if q + f <= -1 {
        assert(b * (q + f) <= -b) by (nonlinear_arith)
            requires
                q + f <= -1,
                b > 0,
        ;
    }
    assert(q >= 0) by (nonlinear_arith)
        requires
            a + b - 1 == b * q + r1,
            0 <= r1 < b,
            a > 0,
            b > 0,
    ;
}

impl<V: Copy + Send + Sync> FloatLookupTable<V> {
    /// Builds a table from its keys and values.
    pub fn new(keys: Vec<i64>, values: Vec<V>) -> (r: Self)
        requires
            valid_layout(keys@, values@),
        ensures
            r.wf(),
            r.spec_keys() == keys@,
            r.spec_values() == values@,
    {
        let max_key = keys[keys.len() - 1];
        assert(values@.len() == values.len());
        FloatLookupTable { keys, max_key, values }
    }

    /// The interpolated position of `key`: `ceil(key * (len - 1) / max_key)`,
    /// saturated into `usize` (not yet clamped to the last entry).
    pub fn key_to_index(&self, key: i64) -> (r: usize)
        requires
            self.wf(),
        ensures
            r == interpolated_index(key as int, self.spec_values().len() as int, self.spec_max_key()),
    {
        let max_index: i128 = i128::from_index(self.values.len() - 1);
        let den: i128 = self.max_key as i128;
        let k: i128 = key as i128;
        proof {
            let lo: int = -0x8000_0000_0000_0000;
            let hi: int = 0xFFFF_FFFF_FFFF_FFFF;
            assert(lo * hi <= k * max_index <= -lo * hi) by (nonlinear_arith)
                requires
                    lo <= k <= -lo,
                    0 <= max_index <= hi,
                    lo < 0,
            ;
        }
        let num: i128 = k * max_index;
        let q: i128 = if num <= 0 {
            -((-num) / den)
        } else {
            let q = (num + den - 1) / den;
            proof {
                lemma_ceil_div_positive(num as int, den as int, q as int);
            }
            q
        };
        assert(q == ceil_div(num as int, den as int));
        q.to_index()
    }

    /// The value stored at the interpolated position of `key`, or the last
    /// value where that position lies past the end.
    pub fn get_next(&self, key: i64) -> (r: V)
        requires
            self.wf(),
        ensures
            r == self.spec_lookup(key as int),
    {
        let index = self.key_to_index(key);
        if index < self.values.len() {
            self.values[index]
        } else {
            self.values[self.values.len() - 1]
        }
    }

    /// Looks up `key`.
    pub fn lookup(&self, key: i64) -> (r: V)
        requires
            self.wf(),
        ensures
            r == self.spec_lookup(key as int),
    {
        self.get_next(key)
    }

    /// Looks up each key in turn; the results stand in the order of the keys.
    pub fn map_lookups(&self, keys: Vec<i64>) -> (r: Vec<V>)
        requires
            self.wf(),
        ensures
            r@.len() == keys@.len(),
            forall|i: int| 0 <= i < keys@.len() ==> r@[i] == self.spec_lookup(#[trigger] keys@[i] as int),
    {
        let mut out: Vec<V> = Vec::with_capacity(keys.len());
        let mut i: usize = 0;
        while i < keys.len()
            invariant
                self.wf(),
                i <= keys@.len(),
                out@.len() == i,
                forall|j: int| 0 <= j < i ==> out@[j] == self.spec_lookup(#[trigger] keys@[j] as int),
            decreases keys@.len() - i,
        {
            out.push(self.lookup(keys[i]));
            i = i + 1;
        }
        out
    }

    /// Looks up the keys on rayon's worker threads; the results stand in the
    /// order of the keys, as the sequential [`Self::map_lookups`] gives them.
    pub fn par_map_lookups(&self, keys: Vec<i64>) -> (r: Vec<V>)
        requires
            self.wf(),
        ensures
            r@.len() == keys@.len(),
            forall|i: int| 0 <= i < keys@.len() ==> r@[i] == self.spec_lookup(#[trigger] keys@[i] as int),
    {
        let f = |key: i64| -> (v: V)
            requires
                self.wf(),
            ensures
                v == self.spec_lookup(key as int),
            { self.lookup(key) };
        par_map_keys(keys, f)
    }
}

/// A flat table extended to a periodic function: a key is reduced into the
/// window `[lower_bound, lower_bound + range)` by whole periods, and then
/// looked up in the flat table.
#[derive(Clone, Debug)]
pub struct CyclingFloatLookupTable<V> {
    lookup_table: FloatLookupTable<V>,
    lower_bound: i64,
    range: i64,
}

impl<V> CyclingFloatLookupTable<V> {
    /// The flat table that reduced keys are looked up in.
    pub closed spec fn spec_table(&self) -> FloatLookupTable<V> {
        self.lookup_table
    }

    pub closed spec fn spec_lower_bound(&self) -> int {
        self.lower_bound as int
    }

    /// The length of one period.
    pub closed spec fn spec_range(&self) -> int {
        self.range as int
    }

    pub open spec fn wf(&self) -> bool {
        &&& self.spec_table().wf()
        &&& self.spec_range() > 0
        &&& self.spec_lower_bound() + self.spec_range() <= i64::MAX
    }

    /// The value that a lookup of `key` returns: the key is reduced into
    /// `[lower_bound, lower_bound + range)` (`%` on `int` is Euclidean, never
    /// negative for a positive `range`).
    pub open spec fn spec_lookup(&self, key: int) -> V {
        self.spec_table().spec_lookup(key % self.spec_range() + self.spec_lower_bound())
    }
}

impl<V: Copy + Send + Sync> CyclingFloatLookupTable<V> {
    /// Builds a table that repeats the samples with period
    /// `upper_bound - lower_bound`.
    pub fn new(keys: Vec<i64>, values: Vec<V>, lower_bound: i64, upper_bound: i64) -> (r: Self)
        requires
            valid_layout(keys@, values@),
            lower_bound < upper_bound,
            upper_bound - lower_bound <= i64::MAX,
        ensures
            r.wf(),
            r.spec_table().spec_keys() == keys@,
            r.spec_table().spec_values() == values@,
            r.spec_lower_bound() == lower_bound,
            r.spec_range() == upper_bound - lower_bound,
    {
        CyclingFloatLookupTable {
            lookup_table: FloatLookupTable::new(keys, values),
            lower_bound,
            range: upper_bound - lower_bound,
        }
    }

    /// Looks up `key`, reduced by whole periods into
    /// `[lower_bound, lower_bound + range)`, in the flat table.
    pub fn lookup(&self, key: i64) -> (r: V)
        requires
            self.wf(),
        ensures
            r == self.spec_lookup(key as int),
    {
        let k: i128 = key as i128;
        let m: i128 = self.range as i128;
        let rem: i128 = if k < 0 {
            let r = (-k) % m;
            proof {
                let d: int = (-k) as int / m as int;
                vstd::arithmetic::div_mod::lemma_fundamental_div_mod(-k as int, m as int);
                if r == 0 {
                    assert(k == (-d) * m) by (nonlinear_arith)
                        requires
                            -k == m * d + 0,
                    ;
                    vstd::arithmetic::div_mod::lemma_fundamental_div_mod_converse(k as int, m as int, -d, 0);
                } else {
                    assert(k == (-d - 1) * m + (m - r)) by (nonlinear_arith)
                        requires
                            -k == m * d + r,
                    ;
                    vstd::arithmetic::div_mod::lemma_fundamental_div_mod_converse(k as int, m as int, -d - 1, m - r);
                }
            }
            if r == 0 {
                0
            } else {
                m - r
            }
        } else {
            k % m
        };
        assert(rem == key as int % self.spec_range());
        let reduced: i64 = (rem + self.lower_bound as i128) as i64;
        self.lookup_table.lookup(reduced)
    }

    /// Looks up each key in turn; the results stand in the order of the keys.
    pub fn map_lookups(&self, keys: Vec<i64>) -> (r: Vec<V>)
        requires
            self.wf(),
        ensures
            r@.len() == keys@.len(),
            forall|i: int| 0 <= i < keys@.len() ==> r@[i] == self.spec_lookup(#[trigger] keys@[i] as int),
    {
        let mut out: Vec<V> = Vec::with_capacity(keys.len());
        let mut i: usize = 0;
        while i < keys.len()
            invariant
                self.wf(),
                i <= keys@.len(),
                out@.len() == i,
                forall|j: int| 0 <= j < i ==> out@[j] == self.spec_lookup(#[trigger] keys@[j] as int),
            decreases keys@.len() - i,
        {
            out.push(self.lookup(keys[i]));
            i = i + 1;
        }
        out
    }

    /// Looks up the keys on rayon's worker threads; the results stand in the
    /// order of the keys.
    pub fn par_map_lookups(&self, keys: Vec<i64>) -> (r: Vec<V>)
        requires
            self.wf(),
        ensures
            r@.len() == keys@.len(),
            forall|i: int| 0 <= i < keys@.len() ==> r@[i] == self.spec_lookup(#[trigger] keys@[i] as int),
    {
        let f = |key: i64| -> (v: V)
            requires
                self.wf(),
            ensures
                v == self.spec_lookup(key as int),
            { self.lookup(key) };
        par_map_keys(keys, f)
    }
}

/// `|x|`.
pub open spec fn abs(x: int) -> int {
    if x < 0 {
        -x
    } else {
        x
    }
}

/// Folds a position `a` of one turn `[0, 4 * q)`, where `q` is a quarter turn,
/// into the first quadrant by the symmetries of the sine:
/// the key to look up there, and whether the sampled value changes sign.
pub open spec fn fold_into_quadrant(a: int, q: int) -> (int, bool) {
    if a < q {
        (a, false)
    } else if a < 2 * q {
        (2 * q - a, false)
    } else if a < 3 * q {
        (a - 2 * q, true)
    } else {
        (4 * q - a, true)
    }
}

/// `v`, negated when `flip` holds.
pub open spec fn negate_if<V: Negate>(v: V, flip: bool) -> V {
    if flip {
        v.spec_negate()
    } else {
        v
    }
}

/// Keys of first-quadrant samples for a table whose half turn is `half_turn`:
/// they start at `0` and end by the quarter turn.
pub open spec fn first_quadrant_keys(keys: Seq<i64>, half_turn: int) -> bool {
    &&& keys.len() >= 1
    &&& keys[0] == 0
    &&& keys.last() <= half_turn / 2
}

/// A sine table that stores samples of the first quadrant only and serves
/// every key through the symmetries `sin(-x) = -sin(x)`, `sin(π - x) = sin(x)`
/// and `sin(x + π) = -sin(x)`.
///
/// Keys are fixed-point angles: the table's period `range` is the key that
/// stands for `π`, so a quarter turn is `range / 2` and a full turn `2 * range`.
/// The flat table holds the samples of `[0, π/2]`.
#[derive(Clone, Debug)]
pub struct EndoSinLookupTable<V> {
    lookup_table: CyclingFloatLookupTable<V>,
}

impl<V: Negate> EndoSinLookupTable<V> {
    pub closed spec fn spec_cycle(&self) -> CyclingFloatLookupTable<V> {
        self.lookup_table
    }

    /// The key that stands for `π / 2`.
    pub open spec fn quarter(&self) -> int {
        self.spec_cycle().spec_range() / 2
    }

    /// The key that stands for `2π`.
    pub open spec fn full_turn(&self) -> int {
        4 * self.quarter()
    }

    pub open spec fn wf(&self) -> bool {
        &&& self.spec_cycle().wf()
        &&& first_quadrant_keys(self.spec_cycle().spec_table().spec_keys(), self.spec_cycle().spec_range())
        &&& self.spec_cycle().spec_lower_bound() == 0
        &&& self.spec_cycle().spec_range() % 2 == 0
        &&& 2 * self.spec_cycle().spec_range() <= i64::MAX
    }

    /// The sampled value nearest above `key` in the first quadrant.
    pub open spec fn first_quadrant(&self, key: int) -> V {
        self.spec_cycle().spec_table().spec_lookup(key)
    }

    /// The value that a lookup of `key` returns: `|key|` is reduced to one
    /// turn, folded into the first quadrant, and the sample found there is
    /// negated when exactly one of "the fold changes sign" and "`key` is
    /// negative" holds.
    pub open spec fn spec_lookup(&self, key: int) -> V {
        let (x, flip) = fold_into_quadrant(abs(key) % self.full_turn(), self.quarter());
        negate_if(self.first_quadrant(x), flip != (key < 0))
    }

    /// Two tables that hold the same samples over the same turn.
    pub open spec fn same_samples(&self, other: &Self) -> bool {
        &&& self.spec_cycle().spec_table().spec_keys() == other.spec_cycle().spec_table().spec_keys()
        &&& self.spec_cycle().spec_table().spec_values() == other.spec_cycle().spec_table().spec_values()
        &&& self.spec_cycle().spec_range() == other.spec_cycle().spec_range()
    }
}

/// The index of the first bound above `x`, if any.
fn position_below(bounds: &[u64; 4], x: u64) -> (r: Option<usize>)
    requires
        bounds@[0] <= bounds@[1] <= bounds@[2] <= bounds@[3],
    ensures
        r.is_some() <==> x < bounds@[3],
        r matches Some(i) ==> i < 4 && x < bounds@[i as int] && (i > 0 ==> bounds@[i - 1] <= x),
{
    let mut i: usize = 0;
    while i < 4
        invariant
            i <= 4,
            bounds@[0] <= bounds@[1] <= bounds@[2] <= bounds@[3],
            forall|j: int| 0 <= j < i ==> bounds@[j] <= x,
        decreases 4 - i,
    {
        if x < bounds[i] {
            return Some(i);
        }
        i = i + 1;
    }
    None
}

impl<V: Negate + Send + Sync> EndoSinLookupTable<V> {
    /// Builds a sine table from first-quadrant samples; `half_turn` is the key
    /// that stands for `π`.
    pub fn new(keys: Vec<i64>, values: Vec<V>, half_turn: i64) -> (r: Self)
        requires
            valid_layout(keys@, values@),
            first_quadrant_keys(keys@, half_turn as int),
            half_turn > 0,
            half_turn % 2 == 0,
            2 * half_turn <= i64::MAX,
        ensures
            r.wf(),
            r.spec_cycle().spec_table().spec_keys() == keys@,
            r.spec_cycle().spec_table().spec_values() == values@,
            r.quarter() == half_turn / 2,
    {
        EndoSinLookupTable { lookup_table: CyclingFloatLookupTable::new(keys, values, 0, half_turn) }
    }

    /// The value stored at `key * len / quarter`: the quarter turn is cut into
    /// `len` equal steps, one for each sample, and the sample of the step that
    /// contains `key` is returned.
    pub fn key_to_value(&self, key: i64) -> (r: V)
        requires
            self.wf(),
            0 <= key < self.quarter(),
        ensures
            r == self.spec_cycle().spec_table().spec_values()[
                key * self.spec_cycle().spec_table().spec_values().len() / self.quarter()
            ],
    {
        let table = &self.lookup_table.lookup_table;
        let quarter: u128 = (self.lookup_table.range / 2) as u128;
        let len: u128 = table.values.len() as u128;
        let k: u128 = key as u128;
        assert(k * len < quarter * len) by (nonlinear_arith)
            requires
                k < quarter,
                len > 0,
        ;
        assert(k * len <= 0x7FFF_FFFF_FFFF_FFFF * 0xFFFF_FFFF_FFFF_FFFF) by (nonlinear_arith)
            requires
                k <= 0x7FFF_FFFF_FFFF_FFFF,
                len <= 0xFFFF_FFFF_FFFF_FFFF,
        ;
        let index: u128 = k * len / quarter;
        assert(index < len) by (nonlinear_arith)
            requires
                index == (k * len) as int / quarter as int,
                k * len < quarter * len,
                quarter > 0,
        ;
        table.values[index as usize]
    }

    /// Looks up a key of the first quadrant in the flat table.
    fn direct_lookup(&self, key: i64) -> (r: V)
        requires
            self.wf(),
        ensures
            r == self.first_quadrant(key as int),
    {
        self.lookup_table.lookup_table.get_next(key)
    }

    /// The table's approximation of `sin` at `key`.
    pub fn lookup(&self, key: i64) -> (r: V)
        requires
            self.wf(),
        ensures
            r == self.spec_lookup(key as int),
    {
        let half_turn: u64 = self.lookup_table.range as u64;
        let quarter: u64 = half_turn / 2;
        let full_turn: u64 = 2 * half_turn;
        let comparisons: [u64; 4] = [quarter, half_turn, half_turn + quarter, full_turn];
        let mut abs_key: u64 = if key < 0 {
            (-(key as i128)) as u64
        } else {
            key as u64
        };
        assert(full_turn == self.full_turn());
        let quadrant: usize = match position_below(&comparisons, abs_key) {
            Some(i) => {
                proof {
                    vstd::arithmetic::div_mod::lemma_small_mod(abs_key as nat, full_turn as nat);
                }
                i
            },
            None => {
                abs_key = abs_key % full_turn;
                position_below(&comparisons, abs_key).unwrap()
            },
        };
        assert(abs_key == abs(key as int) % self.full_turn());
        let (folded, flip): (u64, bool) = match quadrant {
            0 => (abs_key, false),
            1 => (half_turn - abs_key, false),
            2 => (abs_key - half_turn, true),
            _ => (full_turn - abs_key, true),
        };
        let v = self.direct_lookup(folded as i64);
        if flip != (key < 0) {
            v.negate()
        } else {
            v
        }
    }

    /// Looks up each key in turn; the results stand in the order of the keys.
    pub fn map_lookups(&self, keys: Vec<i64>) -> (r: Vec<V>)
        requires
            self.wf(),
        ensures
            r@.len() == keys@.len(),
            forall|i: int| 0 <= i < keys@.len() ==> r@[i] == self.spec_lookup(#[trigger] keys@[i] as int),
    {
        let mut out: Vec<V> = Vec::with_capacity(keys.len());
        let mut i: usize = 0;
        while i < keys.len()
            invariant
                self.wf(),
                i <= keys@.len(),
                out@.len() == i,
                forall|j: int| 0 <= j < i ==> out@[j] == self.spec_lookup(#[trigger] keys@[j] as int),
            decreases keys@.len() - i,
        {
            out.push(self.lookup(keys[i]));
            i = i + 1;
        }
        out
    }

    /// Looks up the keys on rayon's worker threads; the results stand in the
    /// order of the keys.
    pub fn par_map_lookups(&self, keys: Vec<i64>) -> (r: Vec<V>)
        requires
            self.wf(),
        ensures
            r@.len() == keys@.len(),
            forall|i: int| 0 <= i < keys@.len() ==> r@[i] == self.spec_lookup(#[trigger] keys@[i] as int),
    {
        let f = |key: i64| -> (v: V)
            requires
                self.wf(),
            ensures
                v == self.spec_lookup(key as int),
            { self.lookup(key) };
        par_map_keys(keys, f)
    }
}

/// A cosine table that stores no samples of its own: it looks up the sine
/// table at `key + π/2`, as `cos(x) = sin(x + π/2)`.
#[derive(Clone, Debug)]
pub struct EndoCosLookupTable<V> {
    lookup_table: EndoSinLookupTable<V>,
}

impl<V: Negate> EndoCosLookupTable<V> {
    /// The sine table that lookups are shifted into.
    pub closed spec fn sine(&self) -> EndoSinLookupTable<V> {
        self.lookup_table
    }

    pub open spec fn wf(&self) -> bool {
        self.sine().wf()
    }

    /// The value that a lookup of `key` returns: the sine table's value a
    /// quarter turn further on.
    pub open spec fn spec_lookup(&self, key: int) -> V {
        self.sine().spec_lookup(key + self.sine().quarter())
    }
}

impl<V: Negate + Send + Sync> EndoCosLookupTable<V> {
    /// Builds a cosine table from first-quadrant samples of the sine;
    /// `half_turn` is the key that stands for `π`.
    pub fn new(keys: Vec<i64>, values: Vec<V>, half_turn: i64) -> (r: Self)
        requires
            valid_layout(keys@, values@),
            first_quadrant_keys(keys@, half_turn as int),
            half_turn > 0,
            half_turn % 2 == 0,
            2 * half_turn <= i64::MAX,
        ensures
            r.wf(),
            r.sine().spec_cycle().spec_table().spec_keys() == keys@,
            r.sine().spec_cycle().spec_table().spec_values() == values@,
            r.sine().quarter() == half_turn / 2,
    {
        EndoCosLookupTable { lookup_table: EndoSinLookupTable::new(keys, values, half_turn) }
    }

    /// The table's approximation of `cos` at `key`.
    pub fn lookup(&self, key: i64) -> (r: V)
        requires
            self.wf(),
        ensures
            r == self.spec_lookup(key as int),
    {
        let quarter: i64 = self.lookup_table.lookup_table.range / 2;
        if key <= i64::MAX - quarter {
            self.lookup_table.lookup(key + quarter)
        } else {
            // `key + quarter` does not fit; a full turn back gives the same value.
            proof {
                lemma_sin_periodic(self.sine(), key + quarter, -1);
            }
            self.lookup_table.lookup(key - 3 * quarter)
        }
    }

    /// Looks up each key in turn; the results stand in the order of the keys.
    pub fn map_lookups(&self, keys: Vec<i64>) -> (r: Vec<V>)
        requires
            self.wf(),
        ensures
            r@.len() == keys@.len(),
            forall|i: int| 0 <= i < keys@.len() ==> r@[i] == self.spec_lookup(#[trigger] keys@[i] as int),
    {
        let mut out: Vec<V> = Vec::with_capacity(keys.len());
        let mut i: usize = 0;
        while i < keys.len()
            invariant
                self.wf(),
                i <= keys@.len(),
                out@.len() == i,
                forall|j: int| 0 <= j < i ==> out@[j] == self.spec_lookup(#[trigger] keys@[j] as int),
            decreases keys@.len() - i,
        {
            out.push(self.lookup(keys[i]));
            i = i + 1;
        }
        out
    }

    /// Looks up the keys on rayon's worker threads; the results stand in the
    /// order of the keys.
    pub fn par_map_lookups(&self, keys: Vec<i64>) -> (r: Vec<V>)
        requires
            self.wf(),
        ensures
            r@.len() == keys@.len(),
            forall|i: int| 0 <= i < keys@.len() ==> r@[i] == self.spec_lookup(#[trigger] keys@[i] as int),
    {
        let f = |key: i64| -> (v: V)
            requires
                self.wf(),
            ensures
                v == self.spec_lookup(key as int),
            { self.lookup(key) };
        par_map_keys(keys, f)
    }
}

/// Interpolative search is exact on the table's own keys: where the keys
/// start at `0`, looking up the `i`-th key gives the `i`-th value.
pub proof fn lemma_lookup_own_key<V>(t: FloatLookupTable<V>, i: int)
    requires
        t.wf(),
        t.spec_keys()[0] == 0,
        0 <= i < t.spec_keys().len(),
    ensures
        t.spec_lookup(t.spec_keys()[i] as int) == t.spec_values()[i],
{
    let keys = t.spec_keys();
    let n = keys.len() as int;
    let d = keys[1] - keys[0];
    assert(n >= 2);
    assert(keys[i] == i * d);
    assert(keys[n - 1] == (n - 1) * d);
    let max = t.spec_max_key();
    assert(max == (n - 1) * d);
    assert(-(keys[i] * (n - 1)) == (-i) * max) by (nonlinear_arith)
        requires
            keys[i] == i * d,
            max == (n - 1) * d,
    ;
    vstd::arithmetic::div_mod::lemma_fundamental_div_mod_converse(-(keys[i] * (n - 1)), max, -i, 0);
    assert(ceil_div(keys[i] * (n - 1), max) == i);
}

/// A position of one turn other than the zeros of the sine, reflected to the
/// other side of the turn, folds to the same key of the first quadrant with
/// the opposite sign.
proof fn lemma_fold_mirror(a: int, q: int)
    requires
        q > 0,
        0 < a < 4 * q,
        a != 2 * q,
    ensures
        fold_into_quadrant(4 * q - a, q).0 == fold_into_quadrant(a, q).0,
        fold_into_quadrant(4 * q - a, q).1 == !fold_into_quadrant(a, q).1,
{
}

/// Where `x` is no multiple of `2q`, `x % 4q` is neither `0` nor `2q`, and
/// `(-x) % 4q` is `4q - x % 4q`.
proof fn lemma_mod_full_turn(x: int, q: int)
    requires
        q > 0,
        x % (2 * q) != 0,
    ensures
        x % (4 * q) != 0,
        x % (4 * q) != 2 * q,
        (-x) % (4 * q) == 4 * q - x % (4 * q),
{
    let t = 4 * q;
    let d = x / t;
    let a = x % t;
    vstd::arithmetic::div_mod::lemma_fundamental_div_mod(x, t);
    assert(x == t * d + a);
    if a == 0 {
        assert(x == (2 * d) * (2 * q)) by (nonlinear_arith)
            requires
                x == t * d,
                t == 4 * q,
        ;
        vstd::arithmetic::div_mod::lemma_fundamental_div_mod_converse(x, 2 * q, 2 * d, 0);
    }
    if a == 2 * q {
        assert(x == (2 * d + 1) * (2 * q)) by (nonlinear_arith)
            requires
                x == t * d + 2 * q,
                t == 4 * q,
        ;
        vstd::arithmetic::div_mod::lemma_fundamental_div_mod_converse(x, 2 * q, 2 * d + 1, 0);
    }
    assert(-x == (-d - 1) * t + (t - a)) by (nonlinear_arith)
        requires
            x == t * d + a,
    ;
    vstd::arithmetic::div_mod::lemma_fundamental_div_mod_converse(-x, t, -d - 1, t - a);
}

/// Adding whole turns keeps `x % 4q`.
proof fn lemma_mod_turns(x: int, q: int, m: int)
    requires
        q > 0,
    ensures
        (x + 4 * q * m) % (4 * q) == x % (4 * q),
{
    let t = 4 * q;
    let d = x / t;
    vstd::arithmetic::div_mod::lemma_fundamental_div_mod(x, t);
    assert(x + t * m == (d + m) * t + x % t) by (nonlinear_arith)
        requires
            x == t * d + x % t,
    ;
    vstd::arithmetic::div_mod::lemma_fundamental_div_mod_converse(x + t * m, t, d + m, x % t);
}

/// Periodicity of the sine table: whole turns added to a key leave its value
/// unchanged, where the key keeps its sign or is no multiple of a half turn
/// (at the zeros of the sine, crossing from `+0.0` to `-0.0` changes the
/// sign of the stored zero).
pub proof fn lemma_sin_periodic<V: Negate>(t: EndoSinLookupTable<V>, k: int, m: int)
    requires
        t.wf(),
        (k < 0) == (k + t.full_turn() * m < 0) || k % (2 * t.quarter()) != 0,
    ensures
        t.spec_lookup(k + t.full_turn() * m) == t.spec_lookup(k),
{
    let q = t.quarter();
    let full = t.full_turn();
    let k2 = k + full * m;
    assert(q > 0);
    if k >= 0 && k2 >= 0 {
        lemma_mod_turns(k, q, m);
    } else if k < 0 && k2 < 0 {
        assert(-k2 == -k + full * (-m)) by (nonlinear_arith)
            requires
                k2 == k + full * m,
        ;
        lemma_mod_turns(-k, q, -m);
    } else if k >= 0 {
        // k2 < 0: |k2| % 4q == (-k) % 4q, the mirror of k % 4q.
        assert(-k2 == -k + full * (-m)) by (nonlinear_arith)
            requires
                k2 == k + full * m,
        ;
        lemma_mod_turns(-k, q, -m);
        lemma_mod_full_turn(k, q);
        lemma_fold_mirror(k % full, q);
        let (x, flip) = fold_into_quadrant(k % full, q);
        let v = t.first_quadrant(x);
        v.lemma_negate_involutive();
    } else {
        // k < 0 <= k2: k2 % 4q == k % 4q, the mirror of (-k) % 4q.
        lemma_mod_turns(k, q, m);
        assert((-k) % (2 * q) != 0) by {
            if (-k) % (2 * q) == 0 {
                let d = (-k) / (2 * q);
                vstd::arithmetic::div_mod::lemma_fundamental_div_mod(-k, 2 * q);
                assert(k == (-d) * (2 * q)) by (nonlinear_arith)
                    requires
                        -k == (2 * q) * d,
                ;
                vstd::arithmetic::div_mod::lemma_fundamental_div_mod_converse(k, 2 * q, -d, 0);
            }
        }
        lemma_mod_full_turn(-k, q);
        lemma_fold_mirror((-k) % full, q);
        let (x, flip) = fold_into_quadrant((-k) % full, q);
        let v = t.first_quadrant(x);
        v.lemma_negate_involutive();
    }
}

/// The sine table is odd: negating a nonzero key negates its value.
/// (At `0` both keys are the same integer, while `sin(-0.0)` is `-0.0`.)
pub proof fn lemma_sin_odd<V: Negate>(t: EndoSinLookupTable<V>, k: int)
    requires
        t.wf(),
        k != 0,
    ensures
        t.spec_lookup(-k) == t.spec_lookup(k).spec_negate(),
{
    let (x, flip) = fold_into_quadrant(abs(k) % t.full_turn(), t.quarter());
    t.first_quadrant(x).lemma_negate_involutive();
}

/// The cosine table is the sine table shifted by a quarter turn: over the
/// same samples, `cos(k)` is exactly `sin(k + π/2)`.
pub proof fn lemma_cos_is_shifted_sin<V: Negate>(c: EndoCosLookupTable<V>, s: EndoSinLookupTable<V>, k: int)
    requires
        c.wf(),
        s.wf(),
        c.sine().same_samples(&s),
    ensures
        c.spec_lookup(k) == s.spec_lookup(k + s.quarter()),
{
}

/// Relies on rayon's `IntoParallelIterator` for `Vec`, `ParallelIterator::map`
/// and `IndexedParallelIterator::collect_into_vec`: `f` is applied to every
/// key, possibly on several threads, and the results are collected in the
/// order of the keys.
#[verifier::external_body]
fn par_map_keys<V: Send, F: Fn(i64) -> V + Sync + Send>(keys: Vec<i64>, f: F) -> (r: Vec<V>)
    requires
        forall|i: int| 0 <= i < keys@.len() ==> f.requires((#[trigger] keys@[i],)),
    ensures
        r@.len() == keys@.len(),
        forall|i: int| 0 <= i < keys@.len() ==> f.ensures((#[trigger] keys@[i],), r@[i]),
{
    let mut out = Vec::new();
    keys.into_par_iter().map(f).collect_into_vec(&mut out);
    out
}

} // verus!
