//! The window watchdog: a 7-bit down-counter on the APB1 bus clock that
//! resets the device when it runs out, and also when it is fed before the
//! configured window has opened.

use vstd::prelude::*;
use vstd::arithmetic::power2::{pow2, lemma2_to64};
use crate::quantizer::{Limits, WatchdogConfig, cycle_period_us, cycles_at, decode, decoded_us,
    lemma_decoded_never_longer, lemma_saturates_beyond_max, period_us, quantize,
    quantized_duration_us, quantized_prescaler, quantized_reload, saturate, saturated,
    scaled_division, whole_cycles};
use crate::registers::{Dbgmcu, Nvic, Rcc, Wwdg, WwdgState, WwdgWrite, lemma_seven_bits,
    lemma_three_bits};

verus! {

/// Division of the bus clock ahead of the timer base.
pub const WWDG_DIV: u32 = 4096;

/// Highest division ratio of the timer base.
pub const WWDG_MAX_PRESCALER: u32 = 128;

/// Index of the highest division ratio: the timer base divides by two to
/// the power of its index.
pub const WWDG_MAX_PRESCALER_INDEX: u8 = 7;

/// Highest reload count: the six counter bits below the activity bit.
pub const WWDG_MAX_RELOAD: u32 = 0x3F;

/// The limits of the window watchdog.
pub open spec fn wwdg_limits() -> Limits {
    Limits {
        base_division: WWDG_DIV,
        max_prescaler: WWDG_MAX_PRESCALER_INDEX,
        max_reload: WWDG_MAX_RELOAD,
    }
}

/// The window watchdog's limits are well-formed, and its highest prescaler
/// index selects its highest division ratio.
pub proof fn lemma_wwdg_limits()
    ensures
        wwdg_limits().wf(),
        pow2(WWDG_MAX_PRESCALER_INDEX as nat) == WWDG_MAX_PRESCALER,
{
    lemma2_to64();
    assert(63 * (1_000_000 * 4096 * 128) <= u64::MAX) by (nonlinear_arith);
}

/// What a window watchdog driver holds: its registers, and the reload count
/// it last computed.
pub struct WindowWatchdogState {
    /// The register block.
    pub registers: WwdgState,
    /// The cached reload count, written to the counter on every feed.
    pub reload: nat,
}

impl WindowWatchdogState {
    /// Whole counter cycles that a window of the given length lasts, at the
    /// given bus clock and the prescaler in force.
    pub open spec fn window_cycles(self, us: nat, pclk1_hz: nat) -> nat {
        cycles_at(us, pclk1_hz, WWDG_DIV as nat, self.registers.prescaler)
    }

    /// The driver after the window is set to the given length: the window
    /// threshold holds the length in cycles of the prescaler in force,
    /// clamped to the highest reload count.
    pub open spec fn windowed(self, us: nat, pclk1_hz: nat) -> Self {
        let window = saturated(self.window_cycles(us, pclk1_hz), WWDG_MAX_RELOAD as nat);
        WindowWatchdogState {
            registers: WwdgState {
                window,
                pending: self.registers.pending.push(WwdgWrite::Window(window as u8)),
                ..self.registers
            },
            ..self
        }
    }

    /// The driver after a feed: the cached reload count written to the
    /// counter.
    pub open spec fn fed(self) -> Self {
        WindowWatchdogState {
            registers: WwdgState {
                counter: self.reload,
                pending: self.registers.pending.push(WwdgWrite::Counter(self.reload as u8)),
                ..self.registers
            },
            ..self
        }
    }

    /// The driver after it is set up for the given interval at the given bus
    /// clock: the quantized prescaler committed, the quantized reload count
    /// cached, and one feed made.
    pub open spec fn set_up(self, target_us: nat, pclk1_hz: nat) -> Self {
        let prescaler = quantized_prescaler(target_us, pclk1_hz, wwdg_limits());
        let reload = quantized_reload(target_us, pclk1_hz, wwdg_limits());
        WindowWatchdogState {
            registers: WwdgState {
                prescaler,
                pending: self.registers.pending.push(WwdgWrite::Prescaler(prescaler as u8)),
                ..self.registers
            },
            reload,
        }.fed()
    }

    /// The driver after it is started with the given interval at the given
    /// bus clock: set up, then the activation bit set.
    pub open spec fn started(self, target_us: nat, pclk1_hz: nat) -> Self {
        let ready = self.set_up(target_us, pclk1_hz);
        WindowWatchdogState {
            registers: WwdgState {
                enabled: true,
                pending: ready.registers.pending.push(WwdgWrite::Enable),
                ..ready.registers
            },
            ..ready
        }
    }

    /// The interval the driver is set to at the given bus clock, in
    /// microseconds: the cached reload count times the period of one cycle
    /// at the prescaler the configuration register holds.
    pub open spec fn interval_us(self, pclk1_hz: nat) -> nat {
        decoded_us(self.registers.prescaler, self.reload, pclk1_hz, WWDG_DIV as nat)
    }
}

/// The interval of a watchdog that was just set up or started is the
/// quantized duration of the request, so whatever holds of quantized
/// durations holds of it: it is never longer than the request.
pub proof fn lemma_started_interval_is_quantized(
    before: WindowWatchdogState,
    target_us: nat,
    pclk1_hz: nat,
)
    ensures
        before.set_up(target_us, pclk1_hz).interval_us(pclk1_hz) == quantized_duration_us(
            target_us,
            pclk1_hz,
            wwdg_limits(),
        ),
        before.started(target_us, pclk1_hz).interval_us(pclk1_hz) == quantized_duration_us(
            target_us,
            pclk1_hz,
            wwdg_limits(),
        ),
        before.started(target_us, pclk1_hz).interval_us(pclk1_hz) <= target_us,
{
    lemma_decoded_never_longer(target_us, pclk1_hz, wwdg_limits());
}

/// A watchdog started with more than its longest interval at the bus clock,
/// taken exactly and not rounded, is set to the highest prescaler index and
/// the highest reload count.
pub proof fn lemma_started_beyond_max_saturates(
    before: WindowWatchdogState,
    target_us: nat,
    pclk1_hz: nat,
)
    requires
        target_us * pclk1_hz > WWDG_MAX_RELOAD * scaled_division(
            WWDG_DIV as nat,
            WWDG_MAX_PRESCALER_INDEX as nat,
        ),
    ensures
        before.started(target_us, pclk1_hz).registers.prescaler == WWDG_MAX_PRESCALER_INDEX,
        before.started(target_us, pclk1_hz).reload == WWDG_MAX_RELOAD,
        before.started(target_us, pclk1_hz).interval_us(pclk1_hz) < target_us,
{
    lemma_saturates_beyond_max(target_us, pclk1_hz, wwdg_limits());
}

/// A feed changes the counter and nothing the interval depends on.
pub proof fn lemma_feed_keeps_interval(before: WindowWatchdogState, pclk1_hz: nat)
    ensures
        before.fed().interval_us(pclk1_hz) == before.interval_us(pclk1_hz),
{
}

#[derive(Clone, Copy)]
struct CachedReload {
    count: u8,
}

impl CachedReload {
    #[verifier::type_invariant]
    spec fn in_field(&self) -> bool {
        self.count <= WWDG_MAX_RELOAD
    }
}

/// Driver for the window watchdog (WWDG) peripheral.
pub struct WindowWatchdog {
    wwdg: Wwdg,
    reload: CachedReload,
}

impl View for WindowWatchdog {
    type V = WindowWatchdogState;

    closed spec fn view(&self) -> WindowWatchdogState {
        WindowWatchdogState { registers: self.wwdg@, reload: self.reload.count as nat }
    }
}

impl WindowWatchdog {
    /// Creates a driver for the given register block and switches on the
    /// peripheral's bus clock. Nothing is cached yet: the reload count is
    /// zero until the watchdog is started.
    pub fn new(wwdg: Wwdg, rcc: &mut Rcc) -> (wdg: Self)
        ensures
            wdg@ == (WindowWatchdogState { registers: wwdg@, reload: 0 }),
            *final(rcc) == (Rcc { wwdg_clock_enabled: true, ..*old(rcc) }),
    {
        rcc.wwdg_clock_enabled = true;
        WindowWatchdog { wwdg, reload: CachedReload { count: 0 } }
    }

    /// Creates a driver for a register block that something else may still
    /// be using, without switching on the bus clock. The caller answers for
    /// exclusive access and for the clock.
    pub fn steal(wwdg: Wwdg) -> (wdg: Self)
        ensures
            wdg@ == (WindowWatchdogState { registers: wwdg@, reload: 0 }),
    {
        WindowWatchdog { wwdg, reload: CachedReload { count: 0 } }
    }

    /// The limits of the window watchdog.
    pub fn limits() -> (limits: Limits)
        ensures
            limits == wwdg_limits(),
            limits.wf(),
    {
        proof {
            lemma_wwdg_limits();
        }
        Limits {
            base_division: WWDG_DIV,
            max_prescaler: WWDG_MAX_PRESCALER_INDEX,
            max_reload: WWDG_MAX_RELOAD,
        }
    }

    /// The cached reload count.
    pub fn reload(&self) -> (reload: u8)
        ensures
            reload == self@.reload,
            reload <= WWDG_MAX_RELOAD,
    {
        proof {
            use_type_invariant(&self.reload);
        }
        self.reload.count
    }

    /// Whole counter cycles that a window of the given length lasts, at the
    /// bus clock as it is now and the prescaler the configuration register
    /// holds. Zero where the clock stands still.
    pub fn window_cycles(&self, us: u32, rcc: &Rcc) -> (cycles: u64)
        ensures
            cycles == self@.window_cycles(us as nat, rcc.pclk1_hz as nat),
    {
        let limits = Self::limits();
        let cycles = whole_cycles(us as u64, rcc.pclk1_hz, &limits, self.wwdg.prescaler());
        assert(us * rcc.pclk1_hz <= 0xFFFF_FFFF * 0xFFFF_FFFF) by (nonlinear_arith)
            requires
                us <= 0xFFFF_FFFF,
                rcc.pclk1_hz <= 0xFFFF_FFFF,
        ;
        cycles as u64
    }

    /// Sets the window to open after the given microseconds.
    ///
    /// The length is counted in whole cycles at the prescaler in force and
    /// clamped to the highest reload count. It must come to at least one
    /// cycle. If the bus clock changes afterwards, the window no longer
    /// lasts what was asked for.
    pub fn set_window_us(&mut self, us: u32, rcc: &Rcc)
        requires
            old(self)@.window_cycles(us as nat, rcc.pclk1_hz as nat) >= 1,
        ensures
            final(self)@ == old(self)@.windowed(us as nat, rcc.pclk1_hz as nat),
    {
        let window = saturate(self.window_cycles(us, rcc) as u128, WWDG_MAX_RELOAD) as u8;
        proof {
            lemma_seven_bits(window);
        }
        self.wwdg.write_window(window);
    }

    /// Sets whether the counter stops while the core is halted for
    /// debugging.
    pub fn stop_on_debug(&self, dbg: &mut Dbgmcu, stop: bool)
        ensures
            *final(dbg) == (Dbgmcu { wwdg_stop: stop, ..*old(dbg) }),
    {
        dbg.wwdg_stop = stop;
    }

    /// The interval the watchdog is set to, in microseconds, at the bus
    /// clock as it is now.
    pub fn interval_us(&self, rcc: &Rcc) -> (interval: u64)
        ensures
            interval == self@.interval_us(rcc.pclk1_hz as nat),
    {
        let limits = Self::limits();
        let config = WatchdogConfig {
            prescaler: self.wwdg.prescaler(),
            reload: self.reload() as u32,
        };
        decode(config, rcc.pclk1_hz, &limits)
    }

    /// Enables or disables the early wakeup interrupt, which fires shortly
    /// before the counter runs out.
    pub fn enable_ewi(&mut self, enabled: bool)
        ensures
            final(self)@ == (WindowWatchdogState {
                registers: WwdgState {
                    early_wakeup: enabled,
                    pending: old(self)@.registers.pending.push(WwdgWrite::EarlyWakeup(enabled)),
                    ..old(self)@.registers
                },
                ..old(self)@
            }),
    {
        self.wwdg.write_early_wakeup(enabled);
    }

    /// Unmasks the watchdog's interrupt line.
    pub fn unmask_irq(nvic: &mut Nvic)
        ensures
            *final(nvic) == (Nvic { wwdg_irq_enabled: true }),
    {
        nvic.wwdg_irq_enabled = true;
    }

    /// Masks the watchdog's interrupt line.
    pub fn mask_irq(nvic: &mut Nvic)
        ensures
            *final(nvic) == (Nvic { wwdg_irq_enabled: false }),
    {
        nvic.wwdg_irq_enabled = false;
    }

    /// The register block, to read.
    pub fn registers(&self) -> (wwdg: &Wwdg)
        ensures
            wwdg@ == self@.registers,
    {
        &self.wwdg
    }

    /// Access to the register block, past the driver. What is changed
    /// through it the driver does not know of; the cached reload count stays
    /// as it is.
    pub fn peripheral(&mut self) -> (wwdg: &mut Wwdg)
        ensures
            wwdg@ == old(self)@.registers,
            final(self)@ == (WindowWatchdogState { registers: final(wwdg)@, ..old(self)@ }),
    {
        &mut self.wwdg
    }

    /// Microseconds per counter cycle at the bus clock as it is now and the
    /// prescaler the configuration register holds.
    pub fn clock_period_us(&self, rcc: &Rcc) -> (period: u64)
        ensures
            period == period_us(rcc.pclk1_hz as nat, WWDG_DIV as nat, self@.registers.prescaler),
    {
        let limits = Self::limits();
        cycle_period_us(rcc.pclk1_hz, &limits, self.wwdg.prescaler())
    }

    /// Quantizes the requested interval at the bus clock as it is now,
    /// commits the prescaler, caches the reload count, and feeds once so
    /// that the counter starts from it.
    ///
    /// The interval set is never longer than the one requested.
    pub fn setup(&mut self, target_us: u32, rcc: &Rcc)
        ensures
            final(self)@ == old(self)@.set_up(target_us as nat, rcc.pclk1_hz as nat),
            final(self)@.interval_us(rcc.pclk1_hz as nat) <= target_us,
    {
        let limits = Self::limits();
        let config = quantize(target_us as u64, rcc.pclk1_hz, &limits);
        proof {
            lemma_three_bits(config.prescaler);
        }
        self.wwdg.write_prescaler(config.prescaler);
        self.reload = CachedReload { count: config.reload as u8 };
        self.feed();
    }

    /// Feeds the watchdog: writes the cached reload count to the counter.
    ///
    /// Nothing here looks at the window. A feed that comes before the
    /// window has opened is written all the same, and the device answers it
    /// with a reset.
    pub fn feed(&mut self)
        ensures
            final(self)@ == old(self)@.fed(),
    {
        let reload = self.reload();
        proof {
            lemma_seven_bits(reload);
        }
        self.wwdg.write_counter(reload);
    }

    /// Starts the watchdog with the given interval in microseconds: sets it
    /// up as [`setup`](Self::setup) does, then sets the activation bit,
    /// which nothing clears again.
    pub fn start(&mut self, period_us: u32, rcc: &Rcc)
        ensures
            final(self)@ == old(self)@.started(period_us as nat, rcc.pclk1_hz as nat),
            final(self)@.interval_us(rcc.pclk1_hz as nat) <= period_us,
    {
        self.setup(period_us, rcc);
        self.wwdg.enable();
    }
}

} // verus!
