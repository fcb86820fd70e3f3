//! Temperature conversion tables and the lookup function.
//!
//! Resistances are in hundredths of an ohm and temperatures in hundredths of a
//! degree Celsius, so `13851` is 138.51 ohms and `10000` is 100.00 degrees.

use vstd::prelude::*;

verus! {

/// The quotient of `n` by `d`, which is not zero, rounded toward zero.
pub open spec fn trunc_div(n: int, d: int) -> int {
    if d > 0 {
        if n >= 0 {
            n / d
        } else {
            -((-n) / d)
        }
    } else if n <= 0 {
        (-n) / (-d)
    } else {
        -(n / (-d))
    }
}

/// The value of type `i32` that is nearest to `v`.
pub open spec fn saturate(v: int) -> int {
    if v < i32::MIN {
        i32::MIN as int
    } else if v > i32::MAX {
        i32::MAX as int
    } else {
        v
    }
}

/// The temperature on the straight line through the two points
/// (`t0`, `r0`) and (`t1`, `r1`) at resistance `ohm`, rounded toward `t0`.
pub open spec fn interpolated(ohm: int, t0: int, r0: int, t1: int, r1: int) -> int {
    trunc_div((t1 - t0) * (ohm - r0), r1 - r0) + t0
}

/// Rounding toward zero keeps the order of the numerators.
pub proof fn lemma_trunc_div_ordered(a: int, b: int, d: int)
    requires
        a <= b,
        d > 0,
    ensures
        trunc_div(a, d) <= trunc_div(b, d),
{
    if a >= 0 {
        vstd::arithmetic::div_mod::lemma_div_is_ordered(a, b, d);
    } else if b < 0 {
        vstd::arithmetic::div_mod::lemma_div_is_ordered(-b, -a, d);
    } else {
        vstd::arithmetic::div_mod::lemma_div_pos_is_pos(-a, d);
        vstd::arithmetic::div_mod::lemma_div_pos_is_pos(b, d);
    }
}

/// A multiple of the divisor is divided without a remainder.
pub proof fn lemma_trunc_div_exact(q: int, d: int)
    requires
        d > 0,
    ensures
        trunc_div(q * d, d) == q,
{
    if q >= 0 {
        assert(q * d >= 0) by (nonlinear_arith)
            requires
                q >= 0,
                d > 0,
        ;
        vstd::arithmetic::div_mod::lemma_div_multiples_vanish(q, d);
        assert(d * q == q * d) by (nonlinear_arith);
    } else {
        assert(q * d < 0) by (nonlinear_arith)
            requires
                q < 0,
                d > 0,
        ;
        vstd::arithmetic::div_mod::lemma_div_multiples_vanish(-q, d);
        assert(d * (-q) == -(q * d)) by (nonlinear_arith);
    }
}

/// Dividing by a negative number gives the opposite of dividing by its
/// opposite, where the dividend is not negative.
pub proof fn lemma_div_by_negative(n: int, d: int)
    by (nonlinear_arith)
    requires
        n >= 0,
        d != 0,
    ensures
        d < 0 ==> n / d == -(n / (-d)),
{
}

/// The quotient is no further from zero than the numerator.
pub proof fn lemma_trunc_div_bounded(n: int, d: int, bound: int)
    requires
        d != 0,
        -bound <= n <= bound,
    ensures
        -bound <= trunc_div(n, d) <= bound,
{
    let (x, k) = (if n >= 0 { n } else { -n }, if d > 0 { d } else { -d });
    vstd::arithmetic::div_mod::lemma_div_pos_is_pos(x, k);
    vstd::arithmetic::div_mod::lemma_div_nonincreasing(x, k);
}

/// Linear interpolation between two calibration points, each a pair of a
/// temperature and a resistance, with the quotient rounded toward zero. The
/// two resistances differ; either may be the greater. A result outside `i32`
/// is replaced by the nearest bound.
pub fn interpolate(ohm_100: i32, first: (i32, i32), second: (i32, i32)) -> (celsius_100: i32)
    requires
        first.1 != second.1,
    ensures
        celsius_100 == saturate(
            interpolated(
                ohm_100 as int,
                first.0 as int,
                first.1 as int,
                second.0 as int,
                second.1 as int,
            ),
        ),
{
    let rise: i128 = second.0 as i128 - first.0 as i128;
    let offset: i128 = ohm_100 as i128 - first.1 as i128;
    assert(-0x1_0000_0000_0000_0000 <= rise * offset <= 0x1_0000_0000_0000_0000)
        by (nonlinear_arith)
        requires
            -0x1_0000_0000 <= rise <= 0x1_0000_0000,
            -0x1_0000_0000 <= offset <= 0x1_0000_0000,
    ;
    let numerator: i128 = rise * offset;
    let denominator: i128 = second.1 as i128 - first.1 as i128;
    proof {
        lemma_trunc_div_bounded(numerator as int, denominator as int, 0x1_0000_0000_0000_0000);
    }
    let quotient: i128 = numerator / denominator;
    assert(quotient == trunc_div(numerator as int, denominator as int)) by {
        lemma_div_by_negative(if numerator >= 0 { numerator as int } else { -numerator }, denominator as int);
    }
    let exact: i128 = quotient + first.0 as i128;
    if exact < i32::MIN as i128 {
        i32::MIN
    } else if exact > i32::MAX as i128 {
        i32::MAX
    } else {
        exact as i32
    }
}

/// Resistances that increase strictly from one sample to the next.
pub open spec fn increasing(ohms: Seq<int>) -> bool {
    forall|i: int, j: int| 0 <= i < j < ohms.len() ==> ohms[i] < ohms[j]
}

/// What holds of the resistances of a table: none is negative, each fits
/// `i32`, and they increase strictly.
pub open spec fn valid_ohms(ohms: Seq<int>) -> bool {
    &&& forall|i: int| 0 <= i < ohms.len() ==> 0 <= #[trigger] ohms[i] <= i32::MAX
    &&& increasing(ohms)
}

/// What a search for `val` among increasing resistances reports: `Ok` with
/// the index that holds `val`, or `Err` with the index at which `val` would
/// have to be inserted.
pub open spec fn search_outcome(ohms: Seq<int>, val: int, found: Result<usize, usize>) -> bool {
    match found {
        Ok(i) => i < ohms.len() && ohms[i as int] == val,
        Err(i) => {
            &&& i <= ohms.len()
            &&& forall|j: int| 0 <= j < i ==> ohms[j] < val
            &&& forall|j: int| i <= j < ohms.len() ==> val < ohms[j]
        },
    }
}

/// The temperature of sample `index` in a table that starts at `min` degrees
/// and advances by `step` degrees from one sample to the next.
pub open spec fn sample_temperature(min: int, step: int, index: int) -> int {
    (min + index * step) * 100
}

/// The lookup table maps temperature values to resistance values. The
/// temperature values are the range [min, min + step, ..., min + step *
/// (len(data) - 1)]. The resistance values are stored in the array data.
pub struct LookupTable<'a, D> {
    min: i16,
    step: i16,
    data: &'a [D],
}

/// Access to the resistances of a table as `i32` values.
pub trait LookupToI32 {
    /// The resistances of the samples, in table order.
    spec fn ohms(&self) -> Seq<int>;

    /// The resistance of sample `ind`.
    fn lookup(&self, ind: usize) -> (ohm: i32)
        requires
            ind < self.ohms().len(),
            i32::MIN <= self.ohms()[ind as int] <= i32::MAX,
        ensures
            ohm == self.ohms()[ind as int],
    ;

    /// Searches the resistances for `val`.
    fn binary_search(&self, val: i32) -> (found: Result<usize, usize>)
        requires
            increasing(self.ohms()),
        ensures
            search_outcome(self.ohms(), val as int, found),
    ;
}

/// A stored resistance, of whatever width the table keeps.
trait Sample: Copy {
    spec fn ohm(self) -> int;

    fn widen(self) -> (ohm: i64)
        ensures
            ohm == self.ohm(),
    ;
}

impl Sample for u16 {
    spec fn ohm(self) -> int {
        self as int
    }

    fn widen(self) -> (ohm: i64) {
        self as i64
    }
}

impl Sample for u32 {
    spec fn ohm(self) -> int {
        self as int
    }

    fn widen(self) -> (ohm: i64) {
        self as i64
    }
}

/// Bisection over increasing samples.
fn search<D: Sample>(data: &[D], val: i32) -> (found: Result<usize, usize>)
    requires
        increasing(data@.map_values(|d: D| d.ohm())),
    ensures
        search_outcome(data@.map_values(|d: D| d.ohm()), val as int, found),
{
    let ghost ohms = data@.map_values(|d: D| d.ohm());
    let mut low: usize = 0;
    let mut high: usize = data.len();
    while low < high
        invariant
            low <= high <= data.len(),
            ohms == data@.map_values(|d: D| d.ohm()),
            increasing(ohms),
            forall|j: int| 0 <= j < low ==> ohms[j] < val,
            forall|j: int| high <= j < ohms.len() ==> val < ohms[j],
        decreases high - low,
    {
        let mid: usize = low + (high - low) / 2;
        let ohm: i64 = data[mid].widen();
        assert(ohm == ohms[mid as int]);
        if ohm == val as i64 {
            return Ok(mid);
        } else if ohm < val as i64 {
            low = mid + 1;
        } else {
            high = mid;
        }
    }
    Err(low)
}

impl<'a> LookupToI32 for LookupTable<'a, u16> {
    closed spec fn ohms(&self) -> Seq<int> {
        self.data@.map_values(|d: u16| d.ohm())
    }

    fn lookup(&self, ind: usize) -> (ohm: i32) {
        self.data[ind] as i32
    }

    fn binary_search(&self, val: i32) -> (found: Result<usize, usize>) {
        search(self.data, val)
    }
}

impl<'a> LookupToI32 for LookupTable<'a, u32> {
    closed spec fn ohms(&self) -> Seq<int> {
        self.data@.map_values(|d: u32| d.ohm())
    }

    fn lookup(&self, ind: usize) -> (ohm: i32) {
        self.data[ind] as i32
    }

    fn binary_search(&self, val: i32) -> (found: Result<usize, usize>) {
        search(self.data, val)
    }
}

/// The index of the segment on which `ohm` is converted: the greatest index
/// before the last whose resistance is at most `ohm`, and 0 where there is
/// none. A segment runs from the sample at its index to the next sample.
pub open spec fn segment_index(ohms: Seq<int>, ohm: int) -> int
    decreases ohms.len(),
{
    if ohms.len() <= 2 {
        0
    } else if ohms[ohms.len() - 2] <= ohm {
        ohms.len() - 2
    } else {
        segment_index(ohms.drop_last(), ohm)
    }
}

/// The temperature that a table gives for `ohm`, before it is fitted into
/// `i32`: the interpolation on the segment of `ohm`.
pub open spec fn table_temperature(ohms: Seq<int>, min: int, step: int, ohm: int) -> int {
    let i = segment_index(ohms, ohm);
    interpolated(
        ohm,
        sample_temperature(min, step, i),
        ohms[i],
        sample_temperature(min, step, i + 1),
        ohms[i + 1],
    )
}

/// What holds of a table: it has two samples or more, its resistances are
/// valid, its temperatures rise, and the first and the last of them fit `i32`.
pub open spec fn valid_table(ohms: Seq<int>, min: int, step: int) -> bool {
    &&& ohms.len() >= 2
    &&& valid_ohms(ohms)
    &&& step > 0
    &&& i32::MIN <= sample_temperature(min, step, 0)
    &&& sample_temperature(min, step, ohms.len() - 1) <= i32::MAX
}

/// The segment of `ohm` starts at or below `ohm`, unless it is the first, and
/// ends above `ohm`, unless it is the last.
pub proof fn lemma_segment_index_brackets(ohms: Seq<int>, ohm: int)
    requires
        ohms.len() >= 2,
    ensures
        0 <= segment_index(ohms, ohm) <= ohms.len() - 2,
        segment_index(ohms, ohm) > 0 ==> ohms[segment_index(ohms, ohm)] <= ohm,
        segment_index(ohms, ohm) < ohms.len() - 2 ==> ohm < ohms[segment_index(ohms, ohm) + 1],
    decreases ohms.len(),
{
    if ohms.len() > 2 && ohms[ohms.len() - 2] > ohm {
        lemma_segment_index_brackets(ohms.drop_last(), ohm);
    }
}

/// Among increasing resistances only one segment brackets `ohm`.
pub proof fn lemma_segment_index_unique(ohms: Seq<int>, ohm: int, i: int)
    requires
        increasing(ohms),
        0 <= i <= ohms.len() - 2,
        i > 0 ==> ohms[i] <= ohm,
        i < ohms.len() - 2 ==> ohm < ohms[i + 1],
    ensures
        segment_index(ohms, ohm) == i,
{
    lemma_segment_index_brackets(ohms, ohm);
    let k = segment_index(ohms, ohm);
    if k < i {
        assert(ohms[k + 1] <= ohms[i]);
    } else if i < k {
        assert(ohms[i + 1] <= ohms[k]);
    }
}

/// With a positive step the temperatures of the samples rise with the index.
pub proof fn lemma_sample_temperature_rises(min: int, step: int, i: int, j: int)
    requires
        step > 0,
        i <= j,
    ensures
        sample_temperature(min, step, i) <= sample_temperature(min, step, j),
        sample_temperature(min, step, i + 1) - sample_temperature(min, step, i) == step * 100,
{
    assert(i * step <= j * step) by (nonlinear_arith)
        requires
            step > 0,
            i <= j,
    ;
    assert((i + 1) * step == i * step + step) by (nonlinear_arith);
}

impl<'a, D> LookupTable<'a, D> where LookupTable<'a, D>: LookupToI32 {
    /// The temperature of the first sample, in whole degrees.
    pub closed spec fn min_celsius(&self) -> int {
        self.min as int
    }

    /// The temperature step from one sample to the next, in whole degrees.
    pub closed spec fn step_celsius(&self) -> int {
        self.step as int
    }

    /// The number of samples that the table stores.
    pub closed spec fn stored(&self) -> nat {
        self.data@.len()
    }

    /// The table is well formed: it has one resistance for each sample that
    /// it stores, and is a valid table.
    pub open spec fn wf(&self) -> bool {
        &&& self.ohms().len() == self.stored()
        &&& valid_table(self.ohms(), self.min_celsius(), self.step_celsius())
    }

    /// The temperature of sample `index`.
    pub open spec fn celsius_at(&self, index: int) -> int {
        sample_temperature(self.min_celsius(), self.step_celsius(), index)
    }

    /// The temperature that the table gives for `ohm`, before it is fitted
    /// into `i32`.
    pub open spec fn temperature_at(&self, ohm: int) -> int {
        table_temperature(self.ohms(), self.min_celsius(), self.step_celsius(), ohm)
    }

    /// The temperature of the sample at `index`, also for an index beyond the
    /// table, where that temperature fits `i32`.
    pub fn reverse_index(&self, index: usize) -> (celsius_100: i32)
        requires
            i32::MIN <= self.celsius_at(index as int) <= i32::MAX,
        ensures
            celsius_100 == self.celsius_at(index as int),
    {
        let steps: i128 = index as i128;
        let step: i128 = self.step as i128;
        assert(-0x8000_0000_0000_0000_0000 <= steps * step <= 0x8000_0000_0000_0000_0000)
            by (nonlinear_arith)
            requires
                0 <= steps <= 0x1_0000_0000_0000_0000,
                -0x8000 <= step <= 0x8000,
        ;
        let degrees: i128 = self.min as i128 + steps * step;
        (degrees * 100) as i32
    }

    /// The value from which lower bound interpolation should occur: the
    /// resistance of the first sample.
    pub fn ohm_lower_bound(&self) -> (ohm: i32)
        requires
            self.wf(),
        ensures
            ohm == self.ohms()[0],
    {
        self.lookup(0)
    }

    /// The value from which upper bound interpolation should occur: the
    /// resistance of the sample before the last.
    pub fn ohm_upper_bound(&self) -> (ohm: i32)
        requires
            self.wf(),
        ensures
            ohm == self.ohms()[self.ohms().len() - 2],
    {
        self.lookup(self.data.len() - 2)
    }

    /// Interpolates between sample `index` and the sample after it.
    pub fn interpolate_index(&self, ohm_100: i32, index: usize) -> (celsius_100: i32)
        requires
            self.wf(),
            index + 1 < self.ohms().len(),
        ensures
            celsius_100 == saturate(
                interpolated(
                    ohm_100 as int,
                    self.celsius_at(index as int),
                    self.ohms()[index as int],
                    self.celsius_at(index + 1),
                    self.ohms()[index + 1],
                ),
            ),
    {
        assert(index + 1 <= usize::MAX) by {
            assert(self.data.len() == self.ohms().len());
        }
        proof {
            let (min, step) = (self.min_celsius(), self.step_celsius());
            lemma_sample_temperature_rises(min, step, 0, index as int);
            lemma_sample_temperature_rises(min, step, index as int, index + 1);
            lemma_sample_temperature_rises(min, step, index + 1, self.ohms().len() - 1);
        }
        let first = (self.reverse_index(index), self.lookup(index));
        let second = (self.reverse_index(index + 1), self.lookup(index + 1));
        interpolate(ohm_100, first, second)
    }

    /// Convert the specified resistance value into a temperature using the provided lookup table.
    ///
    /// # Arguments
    ///
    /// * `ohm_100` - The resistance in Ohms multiplied by 100, e.g. 13851
    /// would indicate 138.51 Ohms and convert to 100 degrees Celsius.
    ///
    /// # Remarks
    ///
    /// The output temperature will be in degrees Celsius multiplied by 100, e.g.
    /// 10000 would signify 100.00 degrees Celsius.
    ///
    /// *Note*: This interpolates from the bottom or top values if the resistance
    /// value is out of range. A temperature outside `i32` is replaced by the
    /// nearest bound.
    pub fn lookup_temperature(&self, ohm_100: i32) -> (celsius_100: i32)
        requires
            self.wf(),
        ensures
            celsius_100 == saturate(self.temperature_at(ohm_100 as int)),
    {
        let last: usize = self.data.len() - 2;
        if ohm_100 < self.ohm_lower_bound() {
            proof {
                lemma_segment_index_unique(self.ohms(), ohm_100 as int, 0);
            }
            self.interpolate_index(ohm_100, 0)
        } else if ohm_100 > self.ohm_upper_bound() {
            proof {
                lemma_segment_index_unique(self.ohms(), ohm_100 as int, last as int);
            }
            self.interpolate_index(ohm_100, last)
        } else {
            let index: usize = match self.binary_search(ohm_100) {
                Ok(val) => val,
                Err(val) => val - 1,
            };
            proof {
                lemma_segment_index_unique(self.ohms(), ohm_100 as int, index as int);
            }
            self.interpolate_index(ohm_100, index)
        }
    }
}

/// On a line that does not fall, a greater resistance gives no lower
/// temperature.
pub proof fn lemma_interpolated_ordered(a: int, b: int, t0: int, r0: int, t1: int, r1: int)
    requires
        a <= b,
        r0 < r1,
        t0 <= t1,
    ensures
        interpolated(a, t0, r0, t1, r1) <= interpolated(b, t0, r0, t1, r1),
{
    assert((t1 - t0) * (a - r0) <= (t1 - t0) * (b - r0)) by (nonlinear_arith)
        requires
            a <= b,
            t0 <= t1,
    ;
    lemma_trunc_div_ordered((t1 - t0) * (a - r0), (t1 - t0) * (b - r0), r1 - r0);
}

/// The line passes through both of its points.
pub proof fn lemma_interpolated_at_points(t0: int, r0: int, t1: int, r1: int)
    requires
        r0 < r1,
    ensures
        interpolated(r0, t0, r0, t1, r1) == t0,
        interpolated(r1, t0, r0, t1, r1) == t1,
{
    assert((t1 - t0) * (r0 - r0) == 0) by (nonlinear_arith);
    lemma_trunc_div_exact(t1 - t0, r1 - r0);
}

/// A greater resistance lies on the same segment or on a later one.
pub proof fn lemma_segment_index_ordered(ohms: Seq<int>, a: int, b: int)
    requires
        increasing(ohms),
        ohms.len() >= 2,
        a <= b,
    ensures
        segment_index(ohms, a) <= segment_index(ohms, b),
{
    lemma_segment_index_brackets(ohms, a);
    lemma_segment_index_brackets(ohms, b);
    let i = segment_index(ohms, a);
    let j = segment_index(ohms, b);
    if j < i {
        assert(ohms[j + 1] <= ohms[i]);
    }
}

/// The temperature of a valid table does not fall as the resistance rises.
pub proof fn lemma_table_temperature_ordered(ohms: Seq<int>, min: int, step: int, a: int, b: int)
    requires
        valid_table(ohms, min, step),
        a <= b,
    ensures
        table_temperature(ohms, min, step, a) <= table_temperature(ohms, min, step, b),
{
    lemma_segment_index_brackets(ohms, a);
    lemma_segment_index_brackets(ohms, b);
    lemma_segment_index_ordered(ohms, a, b);
    let i = segment_index(ohms, a);
    let j = segment_index(ohms, b);
    let (ti, ti1) = (sample_temperature(min, step, i), sample_temperature(min, step, i + 1));
    let (tj, tj1) = (sample_temperature(min, step, j), sample_temperature(min, step, j + 1));
    lemma_sample_temperature_rises(min, step, i, i + 1);
    lemma_sample_temperature_rises(min, step, j, j + 1);
    if i == j {
        lemma_interpolated_ordered(a, b, ti, ohms[i], ti1, ohms[i + 1]);
    } else {
        lemma_interpolated_ordered(a, ohms[i + 1], ti, ohms[i], ti1, ohms[i + 1]);
        lemma_interpolated_at_points(ti, ohms[i], ti1, ohms[i + 1]);
        lemma_sample_temperature_rises(min, step, i + 1, j);
        lemma_interpolated_at_points(tj, ohms[j], tj1, ohms[j + 1]);
        lemma_interpolated_ordered(ohms[j], b, tj, ohms[j], tj1, ohms[j + 1]);
    }
}

/// Between sample `k` and the next, a valid table gives the interpolation
/// between these two samples, and that temperature lies between theirs.
pub proof fn lemma_table_temperature_between(
    ohms: Seq<int>,
    min: int,
    step: int,
    k: int,
    ohm: int,
)
    requires
        valid_table(ohms, min, step),
        0 <= k < ohms.len() - 1,
        ohms[k] <= ohm <= ohms[k + 1],
    ensures
        ohm < ohms[k + 1] ==> table_temperature(ohms, min, step, ohm) == interpolated(
            ohm,
            sample_temperature(min, step, k),
            ohms[k],
            sample_temperature(min, step, k + 1),
            ohms[k + 1],
        ),
        sample_temperature(min, step, k) <= interpolated(
            ohm,
            sample_temperature(min, step, k),
            ohms[k],
            sample_temperature(min, step, k + 1),
            ohms[k + 1],
        ) <= sample_temperature(min, step, k + 1),
        i32::MIN <= sample_temperature(min, step, k),
        sample_temperature(min, step, k + 1) <= i32::MAX,
{
    let (t0, t1) = (sample_temperature(min, step, k), sample_temperature(min, step, k + 1));
    if ohm < ohms[k + 1] {
        lemma_segment_index_unique(ohms, ohm, k);
    }
    lemma_sample_temperature_rises(min, step, k, k + 1);
    lemma_sample_temperature_rises(min, step, 0, k);
    lemma_sample_temperature_rises(min, step, k + 1, ohms.len() - 1);
    lemma_interpolated_at_points(t0, ohms[k], t1, ohms[k + 1]);
    lemma_interpolated_ordered(ohms[k], ohm, t0, ohms[k], t1, ohms[k + 1]);
    lemma_interpolated_ordered(ohm, ohms[k + 1], t0, ohms[k], t1, ohms[k + 1]);
}

impl<'a, D> LookupTable<'a, D> where LookupTable<'a, D>: LookupToI32 {
    /// For a resistance strictly between two neighbouring samples,
    /// `lookup_temperature` returns the interpolation between these two
    /// samples, with the quotient rounded toward zero.
    pub proof fn lemma_lookup_between_samples(&self, k: int, ohm: int)
        requires
            self.wf(),
            0 <= k < self.ohms().len() - 1,
            self.ohms()[k] < ohm < self.ohms()[k + 1],
        ensures
            saturate(self.temperature_at(ohm)) == interpolated(
                ohm,
                self.celsius_at(k),
                self.ohms()[k],
                self.celsius_at(k + 1),
                self.ohms()[k + 1],
            ),
    {
        lemma_table_temperature_between(self.ohms(), self.min_celsius(), self.step_celsius(), k, ohm);
    }

    /// At the resistance of a sample, `lookup_temperature` returns the
    /// temperature of that sample.
    pub proof fn lemma_lookup_at_sample(&self, k: int)
        requires
            self.wf(),
            0 <= k < self.ohms().len(),
        ensures
            saturate(self.temperature_at(self.ohms()[k])) == self.celsius_at(k),
    {
        let ohms = self.ohms();
        let (min, step) = (self.min_celsius(), self.step_celsius());
        if k < ohms.len() - 1 {
            lemma_table_temperature_between(ohms, min, step, k, ohms[k]);
            lemma_interpolated_at_points(
                self.celsius_at(k),
                ohms[k],
                self.celsius_at(k + 1),
                ohms[k + 1],
            );
        } else {
            lemma_segment_index_unique(ohms, ohms[k], k - 1);
            lemma_table_temperature_between(ohms, min, step, k - 1, ohms[k]);
            lemma_interpolated_at_points(
                self.celsius_at(k - 1),
                ohms[k - 1],
                self.celsius_at(k),
                ohms[k],
            );
        }
    }

    /// `lookup_temperature` never returns less for a greater resistance.
    pub proof fn lemma_lookup_monotonic(&self, a: int, b: int)
        requires
            self.wf(),
            a <= b,
        ensures
            saturate(self.temperature_at(a)) <= saturate(self.temperature_at(b)),
    {
        lemma_table_temperature_ordered(self.ohms(), self.min_celsius(), self.step_celsius(), a, b);
    }

    /// Below the first sample the table continues the line through the first
    /// two samples, and `lookup_temperature` returns the temperature on that
    /// line unless it lies below `i32`.
    pub proof fn lemma_lookup_below_table(&self, ohm: int)
        requires
            self.wf(),
            ohm < self.ohms()[0],
        ensures
            self.temperature_at(ohm) == interpolated(
                ohm,
                self.celsius_at(0),
                self.ohms()[0],
                self.celsius_at(1),
                self.ohms()[1],
            ),
            self.temperature_at(ohm) <= self.celsius_at(0),
            i32::MIN <= self.temperature_at(ohm) ==> saturate(self.temperature_at(ohm))
                == self.temperature_at(ohm),
    {
        let ohms = self.ohms();
        let (min, step) = (self.min_celsius(), self.step_celsius());
        lemma_segment_index_unique(ohms, ohm, 0);
        lemma_sample_temperature_rises(min, step, 0, 1);
        lemma_sample_temperature_rises(min, step, 0, ohms.len() - 1);
        lemma_interpolated_ordered(
            ohm,
            ohms[0],
            self.celsius_at(0),
            ohms[0],
            self.celsius_at(1),
            ohms[1],
        );
        lemma_interpolated_at_points(self.celsius_at(0), ohms[0], self.celsius_at(1), ohms[1]);
    }

    /// Above the last sample the table continues the line through the last
    /// two samples, and `lookup_temperature` returns the temperature on that
    /// line unless it lies above `i32`.
    pub proof fn lemma_lookup_above_table(&self, ohm: int)
        requires
            self.wf(),
            ohm > self.ohms()[self.ohms().len() - 1],
        ensures
            self.temperature_at(ohm) == interpolated(
                ohm,
                self.celsius_at(self.ohms().len() - 2),
                self.ohms()[self.ohms().len() - 2],
                self.celsius_at(self.ohms().len() - 1),
                self.ohms()[self.ohms().len() - 1],
            ),
            self.temperature_at(ohm) >= self.celsius_at(self.ohms().len() - 1),
            self.temperature_at(ohm) <= i32::MAX ==> saturate(self.temperature_at(ohm))
                == self.temperature_at(ohm),
    {
        let ohms = self.ohms();
        let (min, step) = (self.min_celsius(), self.step_celsius());
        let k = ohms.len() - 2;
        lemma_segment_index_unique(ohms, ohm, k);
        lemma_sample_temperature_rises(min, step, k, k + 1);
        lemma_sample_temperature_rises(min, step, 0, k + 1);
        lemma_interpolated_ordered(
            ohms[k + 1],
            ohm,
            self.celsius_at(k),
            ohms[k],
            self.celsius_at(k + 1),
            ohms[k + 1],
        );
        lemma_interpolated_at_points(
            self.celsius_at(k),
            ohms[k],
            self.celsius_at(k + 1),
            ohms[k + 1],
        );
    }
}

/// The resistances of the table of [`lookup_table_pt100_short`].
pub open spec fn ohms_pt100_short() -> Seq<int> {
    seq![
        10000, 10390, 10779, 11167, 11554, 11940, 12324, 12708, 13090, 13471,
        13851, 14229, 14607, 14983,
    ]
}

/// This lookup table contains the resistance values for a PT100 RTD ranging
/// from 0 C° up to 130 C° in steps of 10 C°, corresponding to a range from
/// 100.0 Ohms to 149.83 Ohms.
pub fn lookup_table_pt100_short() -> (table: LookupTable<'static, u16>)
    ensures
        table.wf(),
        table.ohms() == ohms_pt100_short(),
        table.min_celsius() == 0,
        table.step_celsius() == 10,
{
    let table = LookupTable {
        min: 0,
        step: 10,
        data: &[
            10000, 10390, 10779, 11167, 11554, 11940, 12324, 12708, 13090, 13471,
            13851, 14229, 14607, 14983,
        ],
    };
    assert(table.ohms() =~= ohms_pt100_short());
    table
}

/// The resistances of the table of [`lookup_vec_pt100`].
pub open spec fn ohms_pt100() -> Seq<int> {
    seq![
        1852, 2710, 3554, 4388, 5211, 6026, 6833, 7633, 8427, 9216,
        10000, 10779, 11554, 12324, 13090, 13851, 14607, 15358, 16105, 16848,
        17586, 18319, 19047, 19771, 20490, 21205, 21915, 22621, 23321, 24018,
        24709, 25396, 26078, 26756, 27429, 28098, 28762, 29421, 30075, 30725,
        31371, 32012, 32648, 33279, 33906, 34528, 35146, 35759, 36367, 36971,
    ]
}

/// This lookup table contains the resistance values for a PT100 RTD ranging
/// from -200 C° up to 780 C° in steps of 20 C°, corresponding to a range from
/// 18.52 Ohms to 369.71 Ohms.
pub fn lookup_vec_pt100() -> (table: LookupTable<'static, u32>)
    ensures
        table.wf(),
        table.ohms() == ohms_pt100(),
        table.min_celsius() == -200,
        table.step_celsius() == 20,
{
    let table = LookupTable {
        min: -200,
        step: 20,
        data: &[
            1852, 2710, 3554, 4388, 5211, 6026, 6833, 7633, 8427, 9216,
            10000, 10779, 11554, 12324, 13090, 13851, 14607, 15358, 16105, 16848,
            17586, 18319, 19047, 19771, 20490, 21205, 21915, 22621, 23321, 24018,
            24709, 25396, 26078, 26756, 27429, 28098, 28762, 29421, 30075, 30725,
            31371, 32012, 32648, 33279, 33906, 34528, 35146, 35759, 36367, 36971,
        ],
    };
    assert(table.ohms() =~= ohms_pt100());
    table
}

/// The resistances of the table of [`lookup_vec_pt1000`].
pub open spec fn ohms_pt1000() -> Seq<int> {
    seq![
        18520, 27096, 35543, 43876, 52110, 60256, 68325, 76328, 84271, 92160,
        100000, 107794, 115541, 123242, 130897, 138505, 146068, 153584, 161054, 168478,
        175856, 183188, 190473, 197712, 204905, 212052, 219152, 226206, 233214, 240176,
        247092, 253961, 260785, 267562, 274293, 280978, 287616, 294208, 300754, 307254,
        313708, 320116, 326477, 332792, 339061, 345284, 351460, 357590, 363674, 369712,
    ]
}

/// This lookup table contains the resistance values for a PT1000 RTD ranging
/// from -200 C° up to 780 C° in steps of 20 C°, corresponding to a range from
/// 185.20 Ohms to 3697.12 Ohms.
pub fn lookup_vec_pt1000() -> (table: LookupTable<'static, u32>)
    ensures
        table.wf(),
        table.ohms() == ohms_pt1000(),
        table.min_celsius() == -200,
        table.step_celsius() == 20,
{
    let table = LookupTable {
        min: -200,
        step: 20,
        data: &[
            18520, 27096, 35543, 43876, 52110, 60256, 68325, 76328, 84271, 92160,
            100000, 107794, 115541, 123242, 130897, 138505, 146068, 153584, 161054, 168478,
            175856, 183188, 190473, 197712, 204905, 212052, 219152, 226206, 233214, 240176,
            247092, 253961, 260785, 267562, 274293, 280978, 287616, 294208, 300754, 307254,
            313708, 320116, 326477, 332792, 339061, 345284, 351460, 357590, 363674, 369712,
        ],
    };
    assert(table.ohms() =~= ohms_pt1000());
    table
}

/// Above `i32` the table for PT100 sensors gives only temperatures above
/// `i32`.
pub proof fn lemma_pt100_saturates(ohm: int)
    requires
        ohm >= i32::MAX,
    ensures
        saturate(table_temperature(ohms_pt100(), -200, 20, ohm)) == i32::MAX,
{
    let ohms = ohms_pt100();
    lemma_segment_index_unique(ohms, ohm, 48);
    assert(sample_temperature(-200, 20, 48) == 76000);
    assert(sample_temperature(-200, 20, 49) == 78000);
    assert((78000 - 76000) * (i32::MAX - 36367) == 4294894560000) by (nonlinear_arith);
    assert(interpolated(i32::MAX as int, 76000, 36367, 78000, 36971) > i32::MAX);
    lemma_interpolated_ordered(i32::MAX as int, ohm, 76000, 36367, 78000, 36971);
}

} // verus!
