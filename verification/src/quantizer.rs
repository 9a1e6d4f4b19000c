//! Turning a requested duration into a prescaler index and a reload
//! count, and back.
//!
//! A watchdog counter is clocked by `clock_hz / division`, where the division
//! ratio is `base_division * 2^prescaler`. The hardware offers a handful of
//! prescaler indices and a reload field of a few bits, so a requested
//! duration is met only approximately, and always from below. All durations
//! are in microseconds.
//!
//! Every quotient here is taken once, of products formed in full: a period
//! is `1_000_000 * division / clock_hz`, a cycle count is
//! `duration * clock_hz / (1_000_000 * division)`.

use vstd::prelude::*;
use vstd::arithmetic::power2::{pow2, lemma_pow2_pos, lemma_pow2_unfold, lemma_pow2_adds,
    lemma_pow2_strictly_increases, lemma2_to64};
use vstd::arithmetic::div_mod::lemma_div_denominator;
use vstd::arithmetic::mul::{lemma_mul_inequality, lemma_mul_upper_bound, lemma_mul_is_associative,
    lemma_mul_is_commutative};
use vstd::bits::{lemma_u64_mul_pow2_le_max_iff_max_shr, lemma_u64_shl_is_mul};

verus! {

/// Microseconds in one second: the scale of every duration in this module.
pub const MICROS_PER_SECOND: u64 = 1_000_000;

/// The hardware limits of one watchdog type.
#[derive(Clone, Copy, Debug, PartialEq, Eq, Structural)]
pub struct Limits {
    /// Division ratio selected by prescaler index zero.
    pub base_division: u32,
    /// Highest prescaler index; each index doubles the division ratio.
    pub max_prescaler: u8,
    /// Highest value the reload field can hold.
    pub max_reload: u32,
}

/// A prescaler index and reload count as they are committed to hardware.
#[derive(Clone, Copy, Debug, PartialEq, Eq, Structural)]
pub struct WatchdogConfig {
    /// Prescaler index.
    pub prescaler: u8,
    /// Reload count, in counter cycles at that prescaler.
    pub reload: u32,
}

// ---------------------------------------------------------------------------
// The model
// ---------------------------------------------------------------------------

/// The division ratio at the given prescaler index, scaled to microseconds:
/// the microseconds of one second times the ratio. A counter cycle lasts
/// this many microseconds divided by the clock in hertz.
pub open spec fn scaled_division(base_division: nat, prescaler: nat) -> nat {
    MICROS_PER_SECOND as nat * base_division * pow2(prescaler)
}

/// Microseconds per counter cycle at the given prescaler index, rounded
/// down once.
///
/// A clock of zero hertz has no period; it is given the period zero. A
/// clock too fast for a whole microsecond per cycle has the period zero as
/// well.
pub open spec fn period_us(clock_hz: nat, base_division: nat, prescaler: nat) -> nat {
    if clock_hz == 0 {
        0
    } else {
        scaled_division(base_division, prescaler) / clock_hz
    }
}

/// Whole counter cycles at the given prescaler index that fit in a
/// duration, rounded down once. A clock of zero hertz makes no cycle.
pub open spec fn cycles_at(duration_us: nat, clock_hz: nat, base_division: nat, prescaler: nat)
    -> nat {
    if scaled_division(base_division, prescaler) == 0 {
        0
    } else {
        (duration_us * clock_hz) / scaled_division(base_division, prescaler)
    }
}

/// How many times a cycle count is halved before it fits the reload field,
/// with at most `max_steps` halvings.
pub open spec fn halvings(cycles: nat, max_steps: nat, max_reload: nat) -> nat
    decreases max_steps,
{
    if max_steps == 0 || cycles <= max_reload {
        0
    } else {
        1 + halvings(cycles / 2, (max_steps - 1) as nat, max_reload)
    }
}

/// The smaller of a cycle count and the highest reload value.
pub open spec fn saturated(cycles: nat, max_reload: nat) -> nat {
    if cycles <= max_reload {
        cycles
    } else {
        max_reload
    }
}

/// The prescaler index chosen for a requested duration: the lowest index at
/// which the duration, counted in cycles, fits the reload field, or the
/// highest index if it fits at none.
pub open spec fn quantized_prescaler(target_us: nat, clock_hz: nat, limits: Limits) -> nat {
    halvings(
        cycles_at(target_us, clock_hz, limits.base_division as nat, 0),
        limits.max_prescaler as nat,
        limits.max_reload as nat,
    )
}

/// The reload count chosen for a requested duration: the whole cycles of the
/// chosen prescaler that fit in it, clamped to the reload field.
pub open spec fn quantized_reload(target_us: nat, clock_hz: nat, limits: Limits) -> nat {
    saturated(
        cycles_at(
            target_us,
            clock_hz,
            limits.base_division as nat,
            quantized_prescaler(target_us, clock_hz, limits),
        ),
        limits.max_reload as nat,
    )
}

/// The duration that a prescaler index and a reload count stand for: the
/// reload count times the period of one cycle.
pub open spec fn decoded_us(prescaler: nat, reload: nat, clock_hz: nat, base_division: nat) -> nat {
    reload * period_us(clock_hz, base_division, prescaler)
}

/// The duration that a request comes to once it is quantized.
pub open spec fn quantized_duration_us(target_us: nat, clock_hz: nat, limits: Limits) -> nat {
    decoded_us(
        quantized_prescaler(target_us, clock_hz, limits),
        quantized_reload(target_us, clock_hz, limits),
        clock_hz,
        limits.base_division as nat,
    )
}

/// The longest duration the limits can express at the given clock: the
/// highest reload count at the highest prescaler index.
pub open spec fn max_duration_us(clock_hz: nat, limits: Limits) -> nat {
    decoded_us(
        limits.max_prescaler as nat,
        limits.max_reload as nat,
        clock_hz,
        limits.base_division as nat,
    )
}

/// The longest duration the limits can express at any clock, which is the
/// one at a clock of one hertz.
pub open spec fn longest_duration_us(limits: Limits) -> nat {
    limits.max_reload as nat * scaled_division(
        limits.base_division as nat,
        limits.max_prescaler as nat,
    )
}

/// The clock divides the scaled division ratio of the given prescaler index
/// evenly, so that the period of one cycle is a whole number of
/// microseconds and nothing is rounded away.
pub open spec fn period_is_whole(clock_hz: nat, base_division: nat, prescaler: nat) -> bool {
    clock_hz > 0 && scaled_division(base_division, prescaler) % clock_hz == 0
}

impl Limits {
    /// The limits are usable: the division ratio and the reload field are not
    /// degenerate, and the longest duration they can express fits in 64 bits
    /// at any clock.
    pub open spec fn wf(&self) -> bool {
        &&& self.base_division >= 1
        &&& self.max_reload >= 1
        &&& self.max_prescaler < 64
        &&& longest_duration_us(*self) <= u64::MAX
    }
}

impl WatchdogConfig {
    /// Both fields are within the limits.
    pub open spec fn within(&self, limits: Limits) -> bool {
        &&& self.prescaler <= limits.max_prescaler
        &&& self.reload <= limits.max_reload
    }
}

// ---------------------------------------------------------------------------
// The functions
// ---------------------------------------------------------------------------

impl Limits {
    /// Tells whether the limits are well-formed.
    pub fn is_well_formed(&self) -> (ok: bool)
        ensures
            ok == self.wf(),
    {
        if self.base_division < 1 || self.max_reload < 1 || self.max_prescaler >= 64 {
            return false;
        }
        assert(MICROS_PER_SECOND * self.base_division <= 1_000_000 * 0xFFFF_FFFF);
        let widest: u128 = (MICROS_PER_SECOND as u128) * (self.base_division as u128);
        assert(self.max_reload * widest <= 0xFFFF_FFFF * (1_000_000 * 0xFFFF_FFFF))
            by (nonlinear_arith)
            requires
                self.max_reload <= 0xFFFF_FFFF,
                widest <= 1_000_000 * 0xFFFF_FFFF,
        ;
        let unscaled: u128 = (self.max_reload as u128) * widest;
        proof {
            lemma_longest_duration_regrouped(*self);
        }
        if unscaled > u64::MAX as u128 {
            proof {
                let scale = pow2(self.max_prescaler as nat);
                lemma_pow2_pos(self.max_prescaler as nat);
                assert(unscaled * scale >= unscaled) by (nonlinear_arith)
                    requires
                        scale >= 1,
                ;
            }
            return false;
        }
        let room: u64 = u64::MAX >> (self.max_prescaler as u64);
        proof {
            lemma_u64_mul_pow2_le_max_iff_max_shr(
                unscaled as u64,
                self.max_prescaler as u64,
                u64::MAX,
            );
        }
        unscaled as u64 <= room
    }

    /// The division ratio at the given prescaler index, scaled to
    /// microseconds: the microseconds of one second times the ratio.
    pub fn scaled_division(&self, prescaler: u8) -> (scaled: u64)
        requires
            self.wf(),
            prescaler <= self.max_prescaler,
        ensures
            scaled == scaled_division(self.base_division as nat, prescaler as nat),
            scaled >= 1,
    {
        let unscaled: u64 = MICROS_PER_SECOND * (self.base_division as u64);
        proof {
            lemma_scaled_division_bounded(*self, prescaler as nat);
            lemma_pow2_pos(prescaler as nat);
            lemma_mul_inequality(1, pow2(prescaler as nat) as int, unscaled as int);
            lemma_mul_is_commutative(pow2(prescaler as nat) as int, unscaled as int);
            lemma_u64_shl_is_mul(unscaled, prescaler as u64);
        }
        unscaled << (prescaler as u64)
    }
}

impl WatchdogConfig {
    /// Tells whether both fields are within the limits.
    pub fn fits(&self, limits: &Limits) -> (ok: bool)
        ensures
            ok == self.within(*limits),
    {
        self.prescaler <= limits.max_prescaler && self.reload <= limits.max_reload
    }
}

/// Microseconds per counter cycle at the given clock and prescaler index.
///
/// The microseconds of one second are multiplied by the whole division
/// ratio before they are divided by the clock, so that nothing is lost but
/// the fraction of the last microsecond. A clock of zero hertz, or one too
/// fast for a whole microsecond per cycle, gives zero.
pub fn cycle_period_us(clock_hz: u32, limits: &Limits, prescaler: u8) -> (period: u64)
    requires
        limits.wf(),
        prescaler <= limits.max_prescaler,
    ensures
        period == period_us(clock_hz as nat, limits.base_division as nat, prescaler as nat),
{
    if clock_hz == 0 {
        return 0;
    }
    limits.scaled_division(prescaler) / (clock_hz as u64)
}

/// Whole counter cycles at the given clock and prescaler index that fit in
/// a duration.
///
/// The duration is multiplied by the clock before it is divided by the
/// scaled division ratio, so that the count is rounded down once. A clock
/// of zero hertz makes no cycle.
pub fn whole_cycles(duration_us: u64, clock_hz: u32, limits: &Limits, prescaler: u8) -> (cycles:
    u128)
    requires
        limits.wf(),
        prescaler <= limits.max_prescaler,
    ensures
        cycles == cycles_at(
            duration_us as nat,
            clock_hz as nat,
            limits.base_division as nat,
            prescaler as nat,
        ),
        cycles <= duration_us * clock_hz,
{
    let scaled = limits.scaled_division(prescaler);
    assert(duration_us * clock_hz <= 0xFFFF_FFFF_FFFF_FFFF * 0xFFFF_FFFF) by (nonlinear_arith)
        requires
            duration_us <= 0xFFFF_FFFF_FFFF_FFFF,
            clock_hz <= 0xFFFF_FFFF,
    ;
    let product: u128 = (duration_us as u128) * (clock_hz as u128);
    assert(product / (scaled as u128) <= product) by (nonlinear_arith)
        requires
            scaled >= 1,
    ;
    product / (scaled as u128)
}

/// Clamps a cycle count to the reload field.
pub fn saturate(cycles: u128, max_reload: u32) -> (reload: u32)
    ensures
        reload == saturated(cycles as nat, max_reload as nat),
{
    if cycles > max_reload as u128 {
        max_reload
    } else {
        cycles as u32
    }
}

/// Chooses the prescaler index and reload count for a requested duration.
///
/// The duration is counted in cycles at prescaler index zero. While the
/// count overflows the reload field and a higher index is left, the index
/// goes up by one and the count is halved, rounding down. A count that
/// still overflows at the highest index is clamped to the field, so that
/// the watchdog trips early rather than late.
pub fn quantize(target_us: u64, clock_hz: u32, limits: &Limits) -> (config: WatchdogConfig)
    requires
        limits.wf(),
    ensures
        config.prescaler == quantized_prescaler(target_us as nat, clock_hz as nat, *limits),
        config.reload == quantized_reload(target_us as nat, clock_hz as nat, *limits),
        config.within(*limits),
        decoded_us(
            config.prescaler as nat,
            config.reload as nat,
            clock_hz as nat,
            limits.base_division as nat,
        ) <= target_us,
{
    let mut reload: u128 = whole_cycles(target_us, clock_hz, limits, 0);
    let mut prescaler: u8 = 0;
    let ghost cycles = cycles_at(
        target_us as nat,
        clock_hz as nat,
        limits.base_division as nat,
        0,
    );
    proof {
        lemma2_to64();
        assert(cycles / pow2(0) == cycles);
        lemma_quantized_within_limits(target_us as nat, clock_hz as nat, *limits);
        lemma_decoded_never_longer(target_us as nat, clock_hz as nat, *limits);
    }
    while reload > limits.max_reload as u128 && prescaler < limits.max_prescaler
        invariant
            prescaler <= limits.max_prescaler,
            reload == cycles / pow2(prescaler as nat),
            halvings(cycles, limits.max_prescaler as nat, limits.max_reload as nat) == prescaler
                + halvings(
                reload as nat,
                (limits.max_prescaler - prescaler) as nat,
                limits.max_reload as nat,
            ),
        decreases limits.max_prescaler - prescaler,
    {
        proof {
            lemma_halve_again(cycles, prescaler as nat);
        }
        prescaler += 1;
        reload = reload / 2;
    }
    proof {
        lemma_cycles_halve(
            target_us as nat,
            clock_hz as nat,
            limits.base_division as nat,
            prescaler as nat,
        );
    }
    WatchdogConfig { prescaler, reload: saturate(reload, limits.max_reload) }
}

/// The duration that a committed configuration stands for at the given
/// clock: the reload count times the period of one cycle.
pub fn decode(config: WatchdogConfig, clock_hz: u32, limits: &Limits) -> (duration_us: u64)
    requires
        limits.wf(),
        config.within(*limits),
    ensures
        duration_us == decoded_us(
            config.prescaler as nat,
            config.reload as nat,
            clock_hz as nat,
            limits.base_division as nat,
        ),
{
    let period = cycle_period_us(clock_hz, limits, config.prescaler);
    proof {
        lemma_decoded_bounded(
            clock_hz as nat,
            *limits,
            config.prescaler as nat,
            config.reload as nat,
        );
    }
    (config.reload as u64) * period
}

// ---------------------------------------------------------------------------
// What holds of them
// ---------------------------------------------------------------------------

/// The quantized prescaler and reload are within the limits, whatever the
/// requested duration and the clock.
pub proof fn lemma_quantized_within_limits(target_us: nat, clock_hz: nat, limits: Limits)
    ensures
        quantized_prescaler(target_us, clock_hz, limits) <= limits.max_prescaler,
        quantized_reload(target_us, clock_hz, limits) <= limits.max_reload,
{
    lemma_halvings_bounded(
        cycles_at(target_us, clock_hz, limits.base_division as nat, 0),
        limits.max_prescaler as nat,
        limits.max_reload as nat,
    );
}

/// At every index below the quantized prescaler the requested duration, in
/// cycles of that index, overflows the reload field: no lower index would
/// do.
pub proof fn lemma_lower_prescaler_overflows(
    target_us: nat,
    clock_hz: nat,
    limits: Limits,
    lower: nat,
)
    requires
        lower < quantized_prescaler(target_us, clock_hz, limits),
    ensures
        cycles_at(target_us, clock_hz, limits.base_division as nat, lower) > limits.max_reload,
{
    lemma_halvings_needed(
        cycles_at(target_us, clock_hz, limits.base_division as nat, 0),
        limits.max_prescaler as nat,
        limits.max_reload as nat,
        lower,
    );
    lemma_cycles_halve(target_us, clock_hz, limits.base_division as nat, lower);
}

/// Unless the quantized prescaler is the highest index, the requested
/// duration fits the reload field at it and nothing is clamped.
pub proof fn lemma_quantized_prescaler_fits(target_us: nat, clock_hz: nat, limits: Limits)
    requires
        quantized_prescaler(target_us, clock_hz, limits) < limits.max_prescaler,
    ensures
        quantized_reload(target_us, clock_hz, limits) == cycles_at(
            target_us,
            clock_hz,
            limits.base_division as nat,
            quantized_prescaler(target_us, clock_hz, limits),
        ),
{
    lemma_halvings_suffice(
        cycles_at(target_us, clock_hz, limits.base_division as nat, 0),
        limits.max_prescaler as nat,
        limits.max_reload as nat,
    );
    lemma_cycles_halve(
        target_us,
        clock_hz,
        limits.base_division as nat,
        quantized_prescaler(target_us, clock_hz, limits),
    );
}

/// Decoding a quantized duration never gives more than was requested: the
/// watchdog trips no later than asked for.
pub proof fn lemma_decoded_never_longer(target_us: nat, clock_hz: nat, limits: Limits)
    ensures
        quantized_duration_us(target_us, clock_hz, limits) <= target_us,
{
    let base = limits.base_division as nat;
    let chosen = quantized_prescaler(target_us, clock_hz, limits);
    let reload = quantized_reload(target_us, clock_hz, limits);
    let scaled = scaled_division(base, chosen);
    let cycles = cycles_at(target_us, clock_hz, base, chosen);
    let period = period_us(clock_hz, base, chosen);
    if clock_hz == 0 || scaled == 0 {
        assert(reload * period == 0) by (nonlinear_arith)
            requires
                reload == 0 || period == 0,
        ;
    } else {
        lemma_quotient_brackets(target_us * clock_hz, scaled);
        lemma_quotient_brackets(scaled, clock_hz);
        lemma_rounded_product_at_most(reload, period, cycles, scaled, target_us, clock_hz);
    }
}

/// Within the range the limits can express, decoding a quantized duration
/// falls short of the request by less than one cycle of the chosen
/// prescaler and one microsecond for each cycle counted: the fraction of a
/// microsecond that the period is rounded down by is lost once per cycle.
pub proof fn lemma_decoded_error_bounded(target_us: nat, clock_hz: nat, limits: Limits)
    requires
        target_us <= max_duration_us(clock_hz, limits),
    ensures
        target_us < quantized_duration_us(target_us, clock_hz, limits) + period_us(
            clock_hz,
            limits.base_division as nat,
            quantized_prescaler(target_us, clock_hz, limits),
        ) + quantized_reload(target_us, clock_hz, limits) + 1,
{
    let base = limits.base_division as nat;
    let chosen = quantized_prescaler(target_us, clock_hz, limits);
    let reload = quantized_reload(target_us, clock_hz, limits);
    let scaled = scaled_division(base, chosen);
    let period = period_us(clock_hz, base, chosen);
    if clock_hz == 0 || scaled_division(base, limits.max_prescaler as nat) == 0 {
        assert(limits.max_reload * period_us(clock_hz, base, limits.max_prescaler as nat) == 0)
            by (nonlinear_arith)
            requires
                period_us(clock_hz, base, limits.max_prescaler as nat) == 0,
        ;
    } else {
        lemma_in_range_is_not_clamped(target_us, clock_hz, limits);
        lemma_scaled_division_positive(base, limits.max_prescaler as nat, chosen);
        lemma_quotient_brackets(target_us * clock_hz, scaled);
        lemma_quotient_brackets(scaled, clock_hz);
        assert(target_us < (reload + 1) * (period + 1)) by (nonlinear_arith)
            requires
                clock_hz > 0,
                target_us * clock_hz < (reload + 1) * scaled,
                scaled < (period + 1) * clock_hz,
        {
            assert((reload + 1) * scaled <= (reload + 1) * ((period + 1) * clock_hz));
            assert(target_us * clock_hz < ((reload + 1) * (period + 1)) * clock_hz);
        }
        assert((reload + 1) * (period + 1) == reload * period + period + reload + 1)
            by (nonlinear_arith);
    }
}

/// Within the range the limits can express, and where the clock divides
/// evenly so that the period is a whole number of microseconds, decoding a
/// quantized duration falls short of the request by less than one cycle of
/// the chosen prescaler.
pub proof fn lemma_decoded_within_one_step(target_us: nat, clock_hz: nat, limits: Limits)
    requires
        limits.base_division >= 1,
        period_is_whole(
            clock_hz,
            limits.base_division as nat,
            quantized_prescaler(target_us, clock_hz, limits),
        ),
        target_us <= max_duration_us(clock_hz, limits),
    ensures
        target_us < quantized_duration_us(target_us, clock_hz, limits) + period_us(
            clock_hz,
            limits.base_division as nat,
            quantized_prescaler(target_us, clock_hz, limits),
        ),
{
    let base = limits.base_division as nat;
    let chosen = quantized_prescaler(target_us, clock_hz, limits);
    let reload = quantized_reload(target_us, clock_hz, limits);
    let scaled = scaled_division(base, chosen);
    let period = period_us(clock_hz, base, chosen);
    lemma_scaled_division_from_base(base, chosen);
    lemma_scaled_division_from_base(base, limits.max_prescaler as nat);
    lemma_in_range_is_not_clamped(target_us, clock_hz, limits);
    lemma_quotient_brackets(target_us * clock_hz, scaled);
    assert(scaled == period * clock_hz) by (nonlinear_arith)
        requires
            clock_hz > 0,
            period == scaled / clock_hz,
            scaled % clock_hz == 0,
    ;
    assert(target_us < reload * period + period) by (nonlinear_arith)
        requires
            clock_hz > 0,
            target_us * clock_hz < (reload + 1) * scaled,
            scaled == period * clock_hz,
    {
        assert((reload + 1) * scaled == ((reload + 1) * period) * clock_hz);
    }
}

/// A request of at least the longest duration the limits can express,
/// taken exactly and not rounded, saturates: the highest prescaler index
/// with the highest reload count.
pub proof fn lemma_saturates_from_max(target_us: nat, clock_hz: nat, limits: Limits)
    requires
        limits.base_division >= 1,
        limits.max_reload >= 1,
        target_us * clock_hz >= limits.max_reload * scaled_division(
            limits.base_division as nat,
            limits.max_prescaler as nat,
        ),
    ensures
        quantized_prescaler(target_us, clock_hz, limits) == limits.max_prescaler,
        quantized_reload(target_us, clock_hz, limits) == limits.max_reload,
        quantized_duration_us(target_us, clock_hz, limits) == max_duration_us(clock_hz, limits),
{
    let base = limits.base_division as nat;
    let top = limits.max_prescaler as nat;
    let full = limits.max_reload as nat;
    let cycles = cycles_at(target_us, clock_hz, base, 0);
    let chosen = quantized_prescaler(target_us, clock_hz, limits);
    lemma_pow2_pos(top);
    lemma_scaled_division_from_base(base, 0);
    lemma_scaled_division_from_base(base, top);
    lemma_halvings_bounded(cycles, top, full);
    assert(full * pow2(top) <= cycles) by {
        lemma2_to64();
        let unscaled = scaled_division(base, 0);
        assert(unscaled * 1 == unscaled) by (nonlinear_arith);
        lemma_mul_is_associative(full as int, pow2(top) as int, unscaled as int);
        lemma_mul_is_commutative(pow2(top) as int, unscaled as int);
        lemma_quotient_at_least(target_us * clock_hz, unscaled, full * pow2(top));
    }
    if chosen < top {
        let gap = (top - chosen) as nat;
        lemma_halvings_suffice(cycles, top, full);
        lemma_pow2_pos(chosen);
        lemma_split_scale(full, chosen, top);
        lemma_quotient_at_least(cycles, pow2(chosen), full * pow2(gap));
        lemma_pow2_strictly_increases(0, gap);
        lemma2_to64();
        assert(full * pow2(gap) > full) by (nonlinear_arith)
            requires
                full >= 1,
                pow2(gap) > 1,
        ;
    }
    lemma_quotient_at_least(cycles, pow2(top), full);
    lemma_cycles_halve(target_us, clock_hz, base, top);
}

/// A request beyond the longest duration the limits can express, taken
/// exactly and not rounded, saturates, and decodes to less than was
/// requested.
pub proof fn lemma_saturates_beyond_max(target_us: nat, clock_hz: nat, limits: Limits)
    requires
        limits.base_division >= 1,
        limits.max_reload >= 1,
        target_us * clock_hz > limits.max_reload * scaled_division(
            limits.base_division as nat,
            limits.max_prescaler as nat,
        ),
    ensures
        quantized_prescaler(target_us, clock_hz, limits) == limits.max_prescaler,
        quantized_reload(target_us, clock_hz, limits) == limits.max_reload,
        quantized_duration_us(target_us, clock_hz, limits) == max_duration_us(clock_hz, limits),
        quantized_duration_us(target_us, clock_hz, limits) < target_us,
{
    let base = limits.base_division as nat;
    let top = limits.max_prescaler as nat;
    let full = limits.max_reload as nat;
    let scaled = scaled_division(base, top);
    let period = period_us(clock_hz, base, top);
    lemma_saturates_from_max(target_us, clock_hz, limits);
    lemma_scaled_division_from_base(base, top);
    assert(clock_hz > 0) by (nonlinear_arith)
        requires
            target_us * clock_hz > full * scaled,
    ;
    lemma_quotient_brackets(scaled, clock_hz);
    assert(full * period < target_us) by (nonlinear_arith)
        requires
            clock_hz > 0,
            period * clock_hz <= scaled,
            target_us * clock_hz > full * scaled,
    {
        assert((full * period) * clock_hz <= full * scaled);
    }
}

/// Where the clock divides evenly, the longest duration at that clock is
/// exact, and every request beyond it saturates and decodes to less than
/// was requested.
pub proof fn lemma_saturates_beyond_whole_max(target_us: nat, clock_hz: nat, limits: Limits)
    requires
        limits.base_division >= 1,
        limits.max_reload >= 1,
        period_is_whole(clock_hz, limits.base_division as nat, limits.max_prescaler as nat),
        target_us > max_duration_us(clock_hz, limits),
    ensures
        quantized_prescaler(target_us, clock_hz, limits) == limits.max_prescaler,
        quantized_reload(target_us, clock_hz, limits) == limits.max_reload,
        quantized_duration_us(target_us, clock_hz, limits) < target_us,
{
    let base = limits.base_division as nat;
    let top = limits.max_prescaler as nat;
    let full = limits.max_reload as nat;
    let scaled = scaled_division(base, top);
    let period = period_us(clock_hz, base, top);
    assert(scaled == period * clock_hz) by (nonlinear_arith)
        requires
            clock_hz > 0,
            period == scaled / clock_hz,
            scaled % clock_hz == 0,
    ;
    assert(target_us * clock_hz > full * scaled) by (nonlinear_arith)
        requires
            clock_hz > 0,
            target_us > full * period,
            scaled == period * clock_hz,
    {
        assert(full * scaled == (full * period) * clock_hz);
    }
    lemma_saturates_beyond_max(target_us, clock_hz, limits);
}

/// Within well-formed limits no scaled division ratio, no period and no
/// decoded duration leaves 64 bits: all stay under the longest duration the
/// limits can express.
pub proof fn lemma_decoded_bounded(clock_hz: nat, limits: Limits, prescaler: nat, reload: nat)
    requires
        limits.wf(),
        prescaler <= limits.max_prescaler,
        reload <= limits.max_reload,
    ensures
        period_us(clock_hz, limits.base_division as nat, prescaler) <= longest_duration_us(limits),
        decoded_us(prescaler, reload, clock_hz, limits.base_division as nat) <= longest_duration_us(
            limits,
        ),
        longest_duration_us(limits) <= u64::MAX,
{
    let scaled = scaled_division(limits.base_division as nat, prescaler);
    let widest = scaled_division(limits.base_division as nat, limits.max_prescaler as nat);
    let period = period_us(clock_hz, limits.base_division as nat, prescaler);
    lemma_scaled_division_bounded(limits, prescaler);
    if clock_hz != 0 {
        assert(scaled / clock_hz <= scaled) by (nonlinear_arith)
            requires
                clock_hz > 0,
        ;
    }
    lemma_mul_upper_bound(reload as int, limits.max_reload as int, period as int, widest as int);
}

/// Counting at a higher prescaler index is halving the count at index zero
/// once per index.
pub proof fn lemma_cycles_halve(
    duration_us: nat,
    clock_hz: nat,
    base_division: nat,
    prescaler: nat,
)
    ensures
        cycles_at(duration_us, clock_hz, base_division, 0) / pow2(prescaler) == cycles_at(
            duration_us,
            clock_hz,
            base_division,
            prescaler,
        ),
{
    let unscaled = scaled_division(base_division, 0);
    lemma_pow2_pos(prescaler);
    lemma_scaled_division_from_base(base_division, 0);
    lemma_scaled_division_from_base(base_division, prescaler);
    lemma2_to64();
    assert(unscaled * 1 == unscaled) by (nonlinear_arith);
    if base_division == 0 {
        assert(0nat / pow2(prescaler) == 0) by (nonlinear_arith)
            requires
                pow2(prescaler) > 0,
        ;
    } else {
        lemma_div_denominator(
            (duration_us * clock_hz) as int,
            unscaled as int,
            pow2(prescaler) as int,
        );
    }
}

/// The halving count never exceeds the steps allowed.
pub proof fn lemma_halvings_bounded(cycles: nat, max_steps: nat, max_reload: nat)
    ensures
        halvings(cycles, max_steps, max_reload) <= max_steps,
    decreases max_steps,
{
    if max_steps != 0 && cycles > max_reload {
        lemma_halvings_bounded(cycles / 2, (max_steps - 1) as nat, max_reload);
    }
}

/// With fewer halvings than the count, the cycles do not fit the reload
/// field yet.
pub proof fn lemma_halvings_needed(cycles: nat, max_steps: nat, max_reload: nat, fewer: nat)
    requires
        fewer < halvings(cycles, max_steps, max_reload),
    ensures
        cycles / pow2(fewer) > max_reload,
    decreases max_steps,
{
    lemma2_to64();
    if fewer == 0 {
        assert(cycles / pow2(0) == cycles);
    } else {
        let earlier = (fewer - 1) as nat;
        lemma_halvings_needed(cycles / 2, (max_steps - 1) as nat, max_reload, earlier);
        lemma_halve_again(cycles, earlier);
    }
}

/// Where the halving count stays below the steps allowed, the halved cycles
/// fit the reload field.
pub proof fn lemma_halvings_suffice(cycles: nat, max_steps: nat, max_reload: nat)
    requires
        halvings(cycles, max_steps, max_reload) < max_steps,
    ensures
        cycles / pow2(halvings(cycles, max_steps, max_reload)) <= max_reload,
    decreases max_steps,
{
    lemma2_to64();
    if cycles <= max_reload {
        assert(cycles / pow2(0) == cycles);
    } else {
        let rest = halvings(cycles / 2, (max_steps - 1) as nat, max_reload);
        lemma_halvings_suffice(cycles / 2, (max_steps - 1) as nat, max_reload);
        lemma_halve_again(cycles, rest);
    }
}

// ---------------------------------------------------------------------------
// Arithmetic the proofs above lean on
// ---------------------------------------------------------------------------

/// A request within the longest duration at its clock is not clamped: it
/// fits the reload field at the chosen prescaler index.
proof fn lemma_in_range_is_not_clamped(target_us: nat, clock_hz: nat, limits: Limits)
    requires
        clock_hz > 0,
        scaled_division(limits.base_division as nat, limits.max_prescaler as nat) > 0,
        target_us <= max_duration_us(clock_hz, limits),
    ensures
        quantized_reload(target_us, clock_hz, limits) == cycles_at(
            target_us,
            clock_hz,
            limits.base_division as nat,
            quantized_prescaler(target_us, clock_hz, limits),
        ),
{
    let base = limits.base_division as nat;
    let top = limits.max_prescaler as nat;
    let full = limits.max_reload as nat;
    let cycles = cycles_at(target_us, clock_hz, base, 0);
    let chosen = quantized_prescaler(target_us, clock_hz, limits);
    lemma_halvings_bounded(cycles, top, full);
    if chosen < top {
        lemma_quantized_prescaler_fits(target_us, clock_hz, limits);
    } else {
        let scaled = scaled_division(base, top);
        let period = period_us(clock_hz, base, top);
        lemma_quotient_brackets(scaled, clock_hz);
        lemma_quotient_brackets(target_us * clock_hz, scaled);
        let count = (target_us * clock_hz) / scaled;
        assert(count <= full) by (nonlinear_arith)
            requires
                clock_hz > 0,
                scaled > 0,
                target_us <= full * period,
                period * clock_hz <= scaled,
                count * scaled <= target_us * clock_hz,
                target_us * clock_hz < (count + 1) * scaled,
        {
            assert(target_us * clock_hz <= (full * period) * clock_hz);
            assert((full * period) * clock_hz <= full * scaled);
            assert(count * scaled <= full * scaled);
        }
    }
}

/// The scaled division ratio at an index is the one at index zero times
/// two to the power of the index, and is positive where the base ratio is.
proof fn lemma_scaled_division_from_base(base_division: nat, prescaler: nat)
    ensures
        scaled_division(base_division, prescaler) == (MICROS_PER_SECOND as nat * base_division)
            * pow2(prescaler),
        base_division >= 1 ==> scaled_division(base_division, prescaler) >= 1,
        base_division == 0 ==> scaled_division(base_division, prescaler) == 0,
{
    lemma_pow2_pos(prescaler);
    let unscaled = MICROS_PER_SECOND as nat * base_division;
    assert(base_division >= 1 ==> unscaled * pow2(prescaler) >= 1) by (nonlinear_arith)
        requires
            unscaled >= base_division,
            pow2(prescaler) >= 1,
    ;
    assert(base_division == 0 ==> unscaled * pow2(prescaler) == 0) by (nonlinear_arith)
        requires
            unscaled == 1_000_000 * base_division,
    ;
}

/// Where the scaled division ratio is positive at one index it is positive
/// at every index.
proof fn lemma_scaled_division_positive(base_division: nat, known: nat, other: nat)
    requires
        scaled_division(base_division, known) > 0,
    ensures
        scaled_division(base_division, other) > 0,
{
    lemma_scaled_division_from_base(base_division, known);
    lemma_scaled_division_from_base(base_division, other);
}

/// Within well-formed limits the scaled division ratio grows with the
/// index and stays under the longest duration.
proof fn lemma_scaled_division_bounded(limits: Limits, prescaler: nat)
    requires
        limits.wf(),
        prescaler <= limits.max_prescaler,
    ensures
        scaled_division(limits.base_division as nat, prescaler) <= scaled_division(
            limits.base_division as nat,
            limits.max_prescaler as nat,
        ) <= longest_duration_us(limits) <= u64::MAX,
{
    let unscaled = MICROS_PER_SECOND as nat * limits.base_division as nat;
    let top = limits.max_prescaler as nat;
    lemma_pow2_pos(prescaler);
    if prescaler < top {
        lemma_pow2_strictly_increases(prescaler, top);
    }
    lemma_mul_upper_bound(
        unscaled as int,
        unscaled as int,
        pow2(prescaler) as int,
        pow2(top) as int,
    );
    lemma_mul_inequality(1, limits.max_reload as int, (unscaled * pow2(top)) as int);
}

/// A reload count within the cycles that fit, times a period rounded down,
/// stays within the duration.
proof fn lemma_rounded_product_at_most(
    reload: nat,
    period: nat,
    cycles: nat,
    scaled: nat,
    target: nat,
    clock: nat,
)
    by (nonlinear_arith)
    requires
        clock > 0,
        reload <= cycles,
        cycles * scaled <= target * clock,
        period * clock <= scaled,
    ensures
        reload * period <= target,
{
    assert((reload * period) * clock <= reload * scaled);
    assert(reload * scaled <= cycles * scaled);
}

/// Halving once more is dividing by the next power of two, whichever end
/// the halving is applied at.
proof fn lemma_halve_again(cycles: nat, steps: nat)
    ensures
        (cycles / pow2(steps)) / 2 == cycles / pow2(steps + 1),
        (cycles / 2) / pow2(steps) == cycles / pow2(steps + 1),
{
    lemma_pow2_pos(steps);
    lemma_pow2_unfold(steps + 1);
    lemma_div_denominator(cycles as int, pow2(steps) as int, 2);
    lemma_div_denominator(cycles as int, 2, pow2(steps) as int);
    lemma_mul_is_commutative(2, pow2(steps) as int);
}

/// A quotient times its divisor does not exceed the dividend, and misses it
/// by less than the divisor.
proof fn lemma_quotient_brackets(x: nat, d: nat)
    by (nonlinear_arith)
    requires
        d > 0,
    ensures
        (x / d) * d <= x < (x / d + 1) * d,
{
}

/// A dividend of at least `q` divisors has a quotient of at least `q`.
proof fn lemma_quotient_at_least(x: nat, d: nat, q: nat)
    by (nonlinear_arith)
    requires
        d > 0,
        q * d <= x,
    ensures
        q <= x / d,
{
}

/// A product with a power of two splits at any lower exponent.
proof fn lemma_split_scale(count: nat, low: nat, high: nat)
    requires
        low <= high,
    ensures
        count * pow2(high) == (count * pow2((high - low) as nat)) * pow2(low),
{
    lemma_pow2_adds((high - low) as nat, low);
    lemma_mul_is_associative(count as int, pow2((high - low) as nat) as int, pow2(low) as int);
}

/// The longest duration is the highest reload count at a clock of one hertz
/// and prescaler index zero, doubled once per prescaler index.
proof fn lemma_longest_duration_regrouped(limits: Limits)
    ensures
        longest_duration_us(limits) == (limits.max_reload as nat * (MICROS_PER_SECOND as nat
            * limits.base_division as nat)) * pow2(limits.max_prescaler as nat),
{
    lemma_mul_is_associative(
        limits.max_reload as int,
        MICROS_PER_SECOND as int * limits.base_division as int,
        pow2(limits.max_prescaler as nat) as int,
    );
}

} // verus!
