//! The independent watchdog: a 12-bit down-counter on the low-speed internal
//! oscillator that resets the device when it runs out. Once started it
//! cannot be stopped.

use vstd::prelude::*;
use vstd::arithmetic::power2::lemma2_to64;
use crate::quantizer::{Limits, WatchdogConfig, decode, decoded_us, lemma_decoded_bounded,
    lemma_decoded_never_longer, lemma_quantized_within_limits, lemma_saturates_beyond_max,
    longest_duration_us, quantize, quantized_duration_us, quantized_prescaler, quantized_reload,
    scaled_division};
use crate::registers::{Dbgmcu, Iwdg, IwdgState, IwdgWrite, Rcc, KEY_REFRESH, KEY_START,
    KEY_UNLOCK, lemma_three_bits, lemma_twelve_bits};

verus! {

/// Division ratio at prescaler index zero.
pub const IWDG_BASE_DIVISION: u32 = 4;

/// Highest legal prescaler index, which divides by 256.
pub const IWDG_MAX_PRESCALER_INDEX: u8 = 6;

/// Highest reload count: all twelve bits of the reload register.
pub const IWDG_MAX_RELOAD: u32 = 0x0FFF;

/// Microseconds in one millisecond.
pub const MICROS_PER_MILLI: u64 = 1_000;

/// The limits of the independent watchdog.
pub open spec fn iwdg_limits() -> Limits {
    Limits {
        base_division: IWDG_BASE_DIVISION,
        max_prescaler: IWDG_MAX_PRESCALER_INDEX,
        max_reload: IWDG_MAX_RELOAD,
    }
}

/// The independent watchdog's limits are well-formed, and the longest
/// interval they can express is a whole number of milliseconds that fits in
/// 32 bits.
pub proof fn lemma_iwdg_limits()
    ensures
        iwdg_limits().wf(),
        longest_duration_us(iwdg_limits()) / MICROS_PER_MILLI as nat <= u32::MAX,
{
    lemma2_to64();
    assert(4095 * (1_000_000 * 4 * 64) == 1_048_320_000_000) by (nonlinear_arith);
}

/// The prescaler index that sets the division ratio: the register's index,
/// except that the one index above the legal range divides like the highest
/// legal one.
pub open spec fn effective_prescaler(prescaler: nat) -> nat {
    if prescaler <= IWDG_MAX_PRESCALER_INDEX {
        prescaler
    } else {
        IWDG_MAX_PRESCALER_INDEX as nat
    }
}

impl IwdgState {
    /// The registers after a watchdog is started with the given timeout at
    /// the given oscillator frequency: unlocked, configured, locked by the
    /// refresh, started.
    pub open spec fn started(self, timeout_ms: nat, lsi_hz: nat) -> Self {
        let target_us = timeout_ms * MICROS_PER_MILLI as nat;
        let prescaler = quantized_prescaler(target_us, lsi_hz, iwdg_limits());
        let reload = quantized_reload(target_us, lsi_hz, iwdg_limits());
        IwdgState {
            prescaler,
            reload,
            unlocked: false,
            started: true,
            pending: self.pending.push(IwdgWrite::Key(KEY_UNLOCK)).push(
                IwdgWrite::Prescaler(prescaler as u8),
            ).push(IwdgWrite::Reload(reload as u16)).push(IwdgWrite::Key(KEY_REFRESH)).push(
                IwdgWrite::Key(KEY_START),
            ),
        }
    }

    /// The registers after a feed: the refresh key written, which also
    /// closes the prescaler and reload registers.
    pub open spec fn fed(self) -> Self {
        IwdgState {
            unlocked: false,
            pending: self.pending.push(IwdgWrite::Key(KEY_REFRESH)),
            ..self
        }
    }

    /// The timeout that the registers stand for at the given oscillator
    /// frequency, in whole milliseconds.
    pub open spec fn interval_ms(self, lsi_hz: nat) -> nat {
        decoded_us(
            effective_prescaler(self.prescaler),
            self.reload,
            lsi_hz,
            IWDG_BASE_DIVISION as nat,
        ) / MICROS_PER_MILLI as nat
    }
}

/// The timeout of a watchdog that was just started is the quantized
/// duration of the request in whole milliseconds, and never longer than the
/// request.
pub proof fn lemma_started_interval_is_quantized(before: IwdgState, timeout_ms: nat, lsi_hz: nat)
    ensures
        before.started(timeout_ms, lsi_hz).interval_ms(lsi_hz) == quantized_duration_us(
            timeout_ms * MICROS_PER_MILLI as nat,
            lsi_hz,
            iwdg_limits(),
        ) / MICROS_PER_MILLI as nat,
        before.started(timeout_ms, lsi_hz).interval_ms(lsi_hz) <= timeout_ms,
{
    let target_us = timeout_ms * MICROS_PER_MILLI as nat;
    lemma_quantized_within_limits(target_us, lsi_hz, iwdg_limits());
    lemma_decoded_never_longer(target_us, lsi_hz, iwdg_limits());
}

/// A watchdog started with more than its longest timeout at the oscillator
/// frequency, taken exactly and not rounded, is set to the highest legal
/// prescaler index and the highest reload count.
pub proof fn lemma_started_beyond_max_saturates(before: IwdgState, timeout_ms: nat, lsi_hz: nat)
    requires
        (timeout_ms * MICROS_PER_MILLI as nat) * lsi_hz > IWDG_MAX_RELOAD * scaled_division(
            IWDG_BASE_DIVISION as nat,
            IWDG_MAX_PRESCALER_INDEX as nat,
        ),
    ensures
        before.started(timeout_ms, lsi_hz).prescaler == IWDG_MAX_PRESCALER_INDEX,
        before.started(timeout_ms, lsi_hz).reload == IWDG_MAX_RELOAD,
{
    lemma_saturates_beyond_max(timeout_ms * MICROS_PER_MILLI as nat, lsi_hz, iwdg_limits());
}

/// Driver for the independent watchdog (IWDG) peripheral.
pub struct IndependentWatchdog {
    iwdg: Iwdg,
}

impl View for IndependentWatchdog {
    type V = IwdgState;

    closed spec fn view(&self) -> IwdgState {
        self.iwdg@
    }
}

impl IndependentWatchdog {
    /// Creates a driver for the given register block.
    pub fn new(iwdg: Iwdg) -> (wdg: Self)
        ensures
            wdg@ == iwdg@,
    {
        IndependentWatchdog { iwdg }
    }

    /// The limits of the independent watchdog.
    pub fn limits() -> (limits: Limits)
        ensures
            limits == iwdg_limits(),
            limits.wf(),
    {
        proof {
            lemma_iwdg_limits();
        }
        Limits {
            base_division: IWDG_BASE_DIVISION,
            max_prescaler: IWDG_MAX_PRESCALER_INDEX,
            max_reload: IWDG_MAX_RELOAD,
        }
    }

    /// Writes the prescaler and reload registers inside the key protocol:
    /// the unlock key first, the refresh key last, so that the registers
    /// are closed again when this returns.
    fn access_registers(&mut self, config: WatchdogConfig)
        requires
            config.within(iwdg_limits()),
        ensures
            final(self)@ == (IwdgState {
                prescaler: config.prescaler as nat,
                reload: config.reload as nat,
                unlocked: false,
                pending: old(self)@.pending.push(IwdgWrite::Key(KEY_UNLOCK)).push(
                    IwdgWrite::Prescaler(config.prescaler),
                ).push(IwdgWrite::Reload(config.reload as u16)).push(
                    IwdgWrite::Key(KEY_REFRESH),
                ),
                ..old(self)@
            }),
    {
        proof {
            lemma_three_bits(config.prescaler);
            lemma_twelve_bits(config.reload as u16);
        }
        self.iwdg.write_key(KEY_UNLOCK);
        self.iwdg.write_prescaler(config.prescaler);
        self.iwdg.write_reload(config.reload as u16);
        self.iwdg.write_key(KEY_REFRESH);
    }

    /// Starts the watchdog with the given timeout in milliseconds.
    ///
    /// The timeout is quantized at the oscillator frequency as it is now,
    /// the prescaler and then the reload count are written inside the key
    /// protocol, and the start key is written. Starting again quantizes and
    /// arms again. The timeout set is never longer than the one requested.
    pub fn start(&mut self, timeout_ms: u32, rcc: &Rcc)
        ensures
            final(self)@ == old(self)@.started(timeout_ms as nat, rcc.lsi_hz as nat),
            final(self)@.interval_ms(rcc.lsi_hz as nat) <= timeout_ms,
    {
        let limits = Self::limits();
        let target_us = (timeout_ms as u64) * MICROS_PER_MILLI;
        let config = quantize(target_us, rcc.lsi_hz, &limits);
        self.access_registers(config);
        self.iwdg.write_key(KEY_START);
    }

    /// Feeds the watchdog: writes the refresh key.
    pub fn feed(&mut self)
        ensures
            final(self)@ == old(self)@.fed(),
    {
        self.iwdg.write_key(KEY_REFRESH);
    }

    /// The timeout the registers are set to, in whole milliseconds, at the
    /// oscillator frequency as it is now. It is read back from the
    /// registers, not remembered from a request.
    pub fn interval_ms(&self, rcc: &Rcc) -> (interval: u32)
        ensures
            interval == self@.interval_ms(rcc.lsi_hz as nat),
    {
        let limits = Self::limits();
        let index = self.iwdg.prescaler();
        let config = WatchdogConfig {
            prescaler: if index <= IWDG_MAX_PRESCALER_INDEX {
                index
            } else {
                IWDG_MAX_PRESCALER_INDEX
            },
            reload: self.iwdg.reload() as u32,
        };
        proof {
            lemma_iwdg_limits();
            lemma_decoded_bounded(
                rcc.lsi_hz as nat,
                limits,
                config.prescaler as nat,
                config.reload as nat,
            );
        }
        let interval_us = decode(config, rcc.lsi_hz, &limits);
        (interval_us / MICROS_PER_MILLI) as u32
    }

    /// Sets whether the counter stops while the core is halted for
    /// debugging.
    pub fn configure_debug_halt(&self, dbg: &mut Dbgmcu, stop: bool)
        ensures
            *final(dbg) == (Dbgmcu { iwdg_stop: stop, ..*old(dbg) }),
    {
        dbg.iwdg_stop = stop;
    }

    /// The register block, to read.
    pub fn registers(&self) -> (iwdg: &Iwdg)
        ensures
            iwdg@ == self@,
    {
        &self.iwdg
    }

    /// Access to the register block, past the driver.
    pub fn peripheral(&mut self) -> (iwdg: &mut Iwdg)
        ensures
            iwdg@ == old(self)@,
            final(self)@ == final(iwdg)@,
    {
        &mut self.iwdg
    }
}

} // verus!
