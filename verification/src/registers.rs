//! Plain-value models of the peripherals the watchdog controllers touch.
//!
//! Each model holds what its registers read and applies a write the way the
//! device does. The two watchdog blocks also keep the writes they were
//! given, in the order they were issued, so that they can be carried out on
//! the bus afterwards.

use vstd::prelude::*;

verus! {

/// Mask of the 7-bit counter and window fields of the window watchdog.
pub const WWDG_FIELD_MASK: u8 = 0x7F;

/// Mask of the 3-bit prescaler field of either watchdog.
pub const PRESCALER_MASK: u8 = 0x07;

/// Mask of the 12-bit reload field of the independent watchdog.
pub const IWDG_RELOAD_MASK: u16 = 0x0FFF;

/// Key that opens the independent watchdog's prescaler and reload registers
/// for writing.
pub const KEY_UNLOCK: u16 = 0x5555;

/// Key that reloads the independent watchdog's counter and closes its
/// registers again.
pub const KEY_REFRESH: u16 = 0xAAAA;

/// Key that starts the independent watchdog's countdown.
pub const KEY_START: u16 = 0xCCCC;

/// The clock tree as the watchdogs see it: the two clock readings, and the
/// gate of the window watchdog's bus clock.
#[derive(Clone, Copy, Debug, PartialEq, Eq, Structural)]
pub struct Rcc {
    /// Frequency of the APB1 bus clock, in hertz.
    pub pclk1_hz: u32,
    /// Frequency of the low-speed internal oscillator, in hertz.
    pub lsi_hz: u32,
    /// Whether the window watchdog's bus clock is switched on.
    pub wwdg_clock_enabled: bool,
}

/// The debug unit's freeze bits for the two watchdogs.
#[derive(Clone, Copy, Debug, PartialEq, Eq, Structural)]
pub struct Dbgmcu {
    /// The window watchdog's counter stops while the core is halted.
    pub wwdg_stop: bool,
    /// The independent watchdog's counter stops while the core is halted.
    pub iwdg_stop: bool,
}

/// The interrupt controller's enable bit for the window watchdog's line.
#[derive(Clone, Copy, Debug, PartialEq, Eq, Structural)]
pub struct Nvic {
    /// Whether the window watchdog's interrupt can reach the core.
    pub wwdg_irq_enabled: bool,
}

/// One write to a field of the window watchdog, with the value cut to the
/// field's width.
#[derive(Clone, Copy, Debug, PartialEq, Eq, Structural)]
pub enum WwdgWrite {
    /// The down-counter `T` of the control register.
    Counter(u8),
    /// The activation bit `WDGA` of the control register, set.
    Enable,
    /// The window threshold `W` of the configuration register.
    Window(u8),
    /// The timer base `WDGTB` of the configuration register.
    Prescaler(u8),
    /// The early-wakeup-interrupt bit `EWI` of the configuration register.
    EarlyWakeup(bool),
}

/// What the window watchdog's registers hold, and the writes not yet carried
/// out.
pub struct WwdgState {
    /// The 7-bit down-counter.
    pub counter: nat,
    /// The activation bit.
    pub enabled: bool,
    /// The 7-bit window threshold.
    pub window: nat,
    /// The prescaler index.
    pub prescaler: nat,
    /// The early-wakeup-interrupt enable bit.
    pub early_wakeup: bool,
    /// The writes issued since they were last taken, oldest first.
    pub pending: Seq<WwdgWrite>,
}

#[derive(Clone, Copy)]
struct WwdgFields {
    counter: u8,
    enabled: bool,
    window: u8,
    prescaler: u8,
    early_wakeup: bool,
}

impl WwdgFields {
    #[verifier::type_invariant]
    spec fn in_width(&self) -> bool {
        &&& self.counter <= WWDG_FIELD_MASK
        &&& self.window <= WWDG_FIELD_MASK
        &&& self.prescaler <= PRESCALER_MASK
    }
}

/// The register block of the window watchdog.
pub struct Wwdg {
    fields: WwdgFields,
    pending: Vec<WwdgWrite>,
}

impl View for Wwdg {
    type V = WwdgState;

    closed spec fn view(&self) -> WwdgState {
        WwdgState {
            counter: self.fields.counter as nat,
            enabled: self.fields.enabled,
            window: self.fields.window as nat,
            prescaler: self.fields.prescaler as nat,
            early_wakeup: self.fields.early_wakeup,
            pending: self.pending@,
        }
    }
}

/// A value cut to the seven bits of the counter and window fields.
pub open spec fn seven_bits(bits: u8) -> u8 {
    bits & WWDG_FIELD_MASK
}

/// A value cut to the three bits of a prescaler field.
pub open spec fn three_bits(bits: u8) -> u8 {
    bits & PRESCALER_MASK
}

/// A value cut to the twelve bits of the independent watchdog's reload
/// field.
pub open spec fn twelve_bits(bits: u16) -> u16 {
    bits & IWDG_RELOAD_MASK
}

/// The counter and window fields hold at most seven bits, and keep a value
/// that already fits.
pub proof fn lemma_seven_bits(bits: u8)
    ensures
        seven_bits(bits) <= WWDG_FIELD_MASK,
        bits <= WWDG_FIELD_MASK ==> seven_bits(bits) == bits,
{
    assert(bits & 0x7F <= 0x7F) by (bit_vector);
    assert(bits <= 0x7F ==> bits & 0x7F == bits) by (bit_vector);
}

/// A prescaler field holds at most three bits, and keeps a value that
/// already fits.
pub proof fn lemma_three_bits(bits: u8)
    ensures
        three_bits(bits) <= PRESCALER_MASK,
        bits <= PRESCALER_MASK ==> three_bits(bits) == bits,
{
    assert(bits & 0x07 <= 0x07) by (bit_vector);
    assert(bits <= 0x07 ==> bits & 0x07 == bits) by (bit_vector);
}

/// The independent watchdog's reload field holds at most twelve bits, and
/// keeps a value that already fits.
pub proof fn lemma_twelve_bits(bits: u16)
    ensures
        twelve_bits(bits) <= IWDG_RELOAD_MASK,
        bits <= IWDG_RELOAD_MASK ==> twelve_bits(bits) == bits,
{
    assert(bits & 0x0FFF <= 0x0FFF) by (bit_vector);
    assert(bits <= 0x0FFF ==> bits & 0x0FFF == bits) by (bit_vector);
}

impl Wwdg {
    /// A register block holding the given field values, each cut to its
    /// field's width, with no write pending.
    pub fn from_fields(
        counter: u8,
        enabled: bool,
        window: u8,
        prescaler: u8,
        early_wakeup: bool,
    ) -> (wwdg: Wwdg)
        ensures
            wwdg@ == (WwdgState {
                counter: seven_bits(counter) as nat,
                enabled,
                window: seven_bits(window) as nat,
                prescaler: three_bits(prescaler) as nat,
                early_wakeup,
                pending: Seq::empty(),
            }),
    {
        proof {
            lemma_seven_bits(counter);
            lemma_seven_bits(window);
            lemma_three_bits(prescaler);
        }
        Wwdg {
            fields: WwdgFields {
                counter: counter & WWDG_FIELD_MASK,
                enabled,
                window: window & WWDG_FIELD_MASK,
                prescaler: prescaler & PRESCALER_MASK,
                early_wakeup,
            },
            pending: Vec::new(),
        }
    }

    /// The register block as a device reset leaves it: counter and window
    /// at their highest value, everything else clear.
    pub fn reset() -> (wwdg: Wwdg)
        ensures
            wwdg@ == (WwdgState {
                counter: 0x7F,
                enabled: false,
                window: 0x7F,
                prescaler: 0,
                early_wakeup: false,
                pending: Seq::empty(),
            }),
    {
        proof {
            lemma_seven_bits(0x7F);
            lemma_three_bits(0);
        }
        Wwdg::from_fields(WWDG_FIELD_MASK, false, WWDG_FIELD_MASK, 0, false)
    }

    /// The down-counter.
    pub fn counter(&self) -> (counter: u8)
        ensures
            counter == self@.counter,
            counter <= WWDG_FIELD_MASK,
    {
        proof {
            use_type_invariant(&self.fields);
        }
        self.fields.counter
    }

    /// The activation bit.
    pub fn enabled(&self) -> (enabled: bool)
        ensures
            enabled == self@.enabled,
    {
        self.fields.enabled
    }

    /// The window threshold.
    pub fn window(&self) -> (window: u8)
        ensures
            window == self@.window,
            window <= WWDG_FIELD_MASK,
    {
        proof {
            use_type_invariant(&self.fields);
        }
        self.fields.window
    }

    /// The prescaler index.
    pub fn prescaler(&self) -> (prescaler: u8)
        ensures
            prescaler == self@.prescaler,
            prescaler <= PRESCALER_MASK,
    {
        proof {
            use_type_invariant(&self.fields);
        }
        self.fields.prescaler
    }

    /// The early-wakeup-interrupt enable bit.
    pub fn early_wakeup(&self) -> (early_wakeup: bool)
        ensures
            early_wakeup == self@.early_wakeup,
    {
        self.fields.early_wakeup
    }

    /// The writes issued since they were last taken, oldest first.
    pub fn pending(&self) -> (pending: &Vec<WwdgWrite>)
        ensures
            pending@ == self@.pending,
    {
        &self.pending
    }

    /// Hands out the pending writes, oldest first, and leaves none pending.
    /// The registers keep their values.
    pub fn take_pending(&mut self) -> (taken: Vec<WwdgWrite>)
        ensures
            taken@ == old(self)@.pending,
            final(self)@ == (WwdgState { pending: Seq::empty(), ..old(self)@ }),
    {
        let mut taken: Vec<WwdgWrite> = Vec::new();
        std::mem::swap(&mut taken, &mut self.pending);
        taken
    }

    /// Writes the down-counter. Bits above the field's width are dropped.
    pub fn write_counter(&mut self, bits: u8)
        ensures
            final(self)@ == (WwdgState {
                counter: seven_bits(bits) as nat,
                pending: old(self)@.pending.push(WwdgWrite::Counter(seven_bits(bits))),
                ..old(self)@
            }),
    {
        proof {
            use_type_invariant(&self.fields);
            lemma_seven_bits(bits);
        }
        let value = bits & WWDG_FIELD_MASK;
        self.fields = WwdgFields { counter: value, ..self.fields };
        self.pending.push(WwdgWrite::Counter(value));
    }

    /// Sets the activation bit. The device offers no way to clear it.
    pub fn enable(&mut self)
        ensures
            final(self)@ == (WwdgState {
                enabled: true,
                pending: old(self)@.pending.push(WwdgWrite::Enable),
                ..old(self)@
            }),
    {
        proof {
            use_type_invariant(&self.fields);
        }
        self.fields = WwdgFields { enabled: true, ..self.fields };
        self.pending.push(WwdgWrite::Enable);
    }

    /// Writes the window threshold. Bits above the field's width are
    /// dropped.
    pub fn write_window(&mut self, bits: u8)
        ensures
            final(self)@ == (WwdgState {
                window: seven_bits(bits) as nat,
                pending: old(self)@.pending.push(WwdgWrite::Window(seven_bits(bits))),
                ..old(self)@
            }),
    {
        proof {
            use_type_invariant(&self.fields);
            lemma_seven_bits(bits);
        }
        let value = bits & WWDG_FIELD_MASK;
        self.fields = WwdgFields { window: value, ..self.fields };
        self.pending.push(WwdgWrite::Window(value));
    }

    /// Writes the prescaler index. Bits above the field's width are dropped.
    pub fn write_prescaler(&mut self, bits: u8)
        ensures
            final(self)@ == (WwdgState {
                prescaler: three_bits(bits) as nat,
                pending: old(self)@.pending.push(WwdgWrite::Prescaler(three_bits(bits))),
                ..old(self)@
            }),
    {
        proof {
            use_type_invariant(&self.fields);
            lemma_three_bits(bits);
        }
        let value = bits & PRESCALER_MASK;
        self.fields = WwdgFields { prescaler: value, ..self.fields };
        self.pending.push(WwdgWrite::Prescaler(value));
    }

    /// Writes the early-wakeup-interrupt enable bit.
    pub fn write_early_wakeup(&mut self, on: bool)
        ensures
            final(self)@ == (WwdgState {
                early_wakeup: on,
                pending: old(self)@.pending.push(WwdgWrite::EarlyWakeup(on)),
                ..old(self)@
            }),
    {
        proof {
            use_type_invariant(&self.fields);
        }
        self.fields = WwdgFields { early_wakeup: on, ..self.fields };
        self.pending.push(WwdgWrite::EarlyWakeup(on));
    }
}

/// One write to a register of the independent watchdog, with the value cut
/// to the register's width.
#[derive(Clone, Copy, Debug, PartialEq, Eq, Structural)]
pub enum IwdgWrite {
    /// The key register.
    Key(u16),
    /// The prescaler register.
    Prescaler(u8),
    /// The reload register.
    Reload(u16),
}

/// What the independent watchdog's registers hold, and the writes not yet
/// carried out.
pub struct IwdgState {
    /// The 3-bit prescaler index.
    pub prescaler: nat,
    /// The 12-bit reload count.
    pub reload: nat,
    /// Whether the prescaler and reload registers accept writes.
    pub unlocked: bool,
    /// Whether the countdown has been started.
    pub started: bool,
    /// The writes issued since they were last taken, oldest first.
    pub pending: Seq<IwdgWrite>,
}

#[derive(Clone, Copy)]
struct IwdgFields {
    prescaler: u8,
    reload: u16,
    unlocked: bool,
    started: bool,
}

impl IwdgFields {
    #[verifier::type_invariant]
    spec fn in_width(&self) -> bool {
        &&& self.prescaler <= PRESCALER_MASK
        &&& self.reload <= IWDG_RELOAD_MASK
    }
}

/// The register block of the independent watchdog.
pub struct Iwdg {
    fields: IwdgFields,
    pending: Vec<IwdgWrite>,
}

impl View for Iwdg {
    type V = IwdgState;

    closed spec fn view(&self) -> IwdgState {
        IwdgState {
            prescaler: self.fields.prescaler as nat,
            reload: self.fields.reload as nat,
            unlocked: self.fields.unlocked,
            started: self.fields.started,
            pending: self.pending@,
        }
    }
}

impl Iwdg {
    /// A register block holding the given field values, each cut to its
    /// field's width, with its registers closed and no write pending.
    pub fn from_fields(prescaler: u8, reload: u16, started: bool) -> (iwdg: Iwdg)
        ensures
            iwdg@ == (IwdgState {
                prescaler: three_bits(prescaler) as nat,
                reload: twelve_bits(reload) as nat,
                unlocked: false,
                started,
                pending: Seq::empty(),
            }),
    {
        proof {
            lemma_three_bits(prescaler);
            lemma_twelve_bits(reload);
        }
        Iwdg {
            fields: IwdgFields {
                prescaler: prescaler & PRESCALER_MASK,
                reload: reload & IWDG_RELOAD_MASK,
                unlocked: false,
                started,
            },
            pending: Vec::new(),
        }
    }

    /// The prescaler index.
    pub fn prescaler(&self) -> (prescaler: u8)
        ensures
            prescaler == self@.prescaler,
            prescaler <= PRESCALER_MASK,
    {
        proof {
            use_type_invariant(&self.fields);
        }
        self.fields.prescaler
    }

    /// The reload count.
    pub fn reload(&self) -> (reload: u16)
        ensures
            reload == self@.reload,
            reload <= IWDG_RELOAD_MASK,
    {
        proof {
            use_type_invariant(&self.fields);
        }
        self.fields.reload
    }

    /// Whether the prescaler and reload registers accept writes.
    pub fn unlocked(&self) -> (unlocked: bool)
        ensures
            unlocked == self@.unlocked,
    {
        self.fields.unlocked
    }

    /// Whether the countdown has been started.
    pub fn started(&self) -> (started: bool)
        ensures
            started == self@.started,
    {
        self.fields.started
    }

    /// The writes issued since they were last taken, oldest first.
    pub fn pending(&self) -> (pending: &Vec<IwdgWrite>)
        ensures
            pending@ == self@.pending,
    {
        &self.pending
    }

    /// Hands out the pending writes, oldest first, and leaves none pending.
    /// The registers keep their values.
    pub fn take_pending(&mut self) -> (taken: Vec<IwdgWrite>)
        ensures
            taken@ == old(self)@.pending,
            final(self)@ == (IwdgState { pending: Seq::empty(), ..old(self)@ }),
    {
        let mut taken: Vec<IwdgWrite> = Vec::new();
        std::mem::swap(&mut taken, &mut self.pending);
        taken
    }

    /// Writes the key register. The unlock key opens the prescaler and
    /// reload registers; every other key closes them, as the device does.
    /// The start key starts the countdown, which nothing stops again.
    pub fn write_key(&mut self, key: u16)
        ensures
            final(self)@ == (IwdgState {
                unlocked: key == KEY_UNLOCK,
                started: old(self)@.started || key == KEY_START,
                pending: old(self)@.pending.push(IwdgWrite::Key(key)),
                ..old(self)@
            }),
    {
        proof {
            use_type_invariant(&self.fields);
        }
        self.fields = IwdgFields {
            unlocked: key == KEY_UNLOCK,
            started: self.fields.started || key == KEY_START,
            ..self.fields
        };
        self.pending.push(IwdgWrite::Key(key));
    }

    /// Writes the prescaler register. The write goes out on the bus either
    /// way; the register takes it only while unlocked, cut to its width.
    pub fn write_prescaler(&mut self, bits: u8)
        ensures
            final(self)@ == (IwdgState {
                prescaler: if old(self)@.unlocked {
                    three_bits(bits) as nat
                } else {
                    old(self)@.prescaler
                },
                pending: old(self)@.pending.push(IwdgWrite::Prescaler(three_bits(bits))),
                ..old(self)@
            }),
    {
        proof {
            use_type_invariant(&self.fields);
            lemma_three_bits(bits);
        }
        let value = bits & PRESCALER_MASK;
        if self.fields.unlocked {
            self.fields = IwdgFields { prescaler: value, ..self.fields };
        }
        self.pending.push(IwdgWrite::Prescaler(value));
    }

    /// Writes the reload register. The write goes out on the bus either way;
    /// the register takes it only while unlocked, cut to its width.
    pub fn write_reload(&mut self, bits: u16)
        ensures
            final(self)@ == (IwdgState {
                reload: if old(self)@.unlocked {
                    twelve_bits(bits) as nat
                } else {
                    old(self)@.reload
                },
                pending: old(self)@.pending.push(IwdgWrite::Reload(twelve_bits(bits))),
                ..old(self)@
            }),
    {
        proof {
            use_type_invariant(&self.fields);
            lemma_twelve_bits(bits);
        }
        let value = bits & IWDG_RELOAD_MASK;
        if self.fields.unlocked {
            self.fields = IwdgFields { reload: value, ..self.fields };
        }
        self.pending.push(IwdgWrite::Reload(value));
    }
}

} // verus!
