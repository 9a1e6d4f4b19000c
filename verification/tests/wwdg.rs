use watchdog::window::{WWDG_DIV, WWDG_MAX_PRESCALER, WWDG_MAX_PRESCALER_INDEX, WWDG_MAX_RELOAD};
use watchdog::{Dbgmcu, Nvic, Rcc, WindowWatchdog, Wwdg, WwdgWrite};

const PCLK1_FREQ: u32 = 1_000_000;
const LSI_FREQ: u32 = 32_000;

struct TestArgs {
    wwdg: Wwdg,
    rcc: Rcc,
}

fn init() -> TestArgs {
    let rcc = Rcc { pclk1_hz: PCLK1_FREQ, lsi_hz: LSI_FREQ, wwdg_clock_enabled: false };
    assert_eq!(rcc.pclk1_hz, PCLK1_FREQ);
    TestArgs { rcc, wwdg: Wwdg::reset() }
}

fn at_clock(pclk1_hz: u32) -> (WindowWatchdog, Rcc) {
    let mut rcc = Rcc { pclk1_hz, lsi_hz: LSI_FREQ, wwdg_clock_enabled: false };
    let wdg = WindowWatchdog::new(Wwdg::reset(), &mut rcc);
    (wdg, rcc)
}

#[test]
fn accurate_interval() {
    let mut ta = init();
    let mut wdg = WindowWatchdog::new(ta.wwdg, &mut ta.rcc);

    wdg.start(5120, &ta.rcc);

    assert_eq!(wdg.interval_us(&ta.rcc), 4096);
}

#[test]
fn below_minimum_interval() {
    let mut ta = init();
    let mut wdg = WindowWatchdog::new(ta.wwdg, &mut ta.rcc);

    wdg.start(5120, &ta.rcc);

    assert_eq!(wdg.interval_us(&ta.rcc), 4096);
}

#[test]
fn limits_match_the_hardware() {
    let limits = WindowWatchdog::limits();
    assert_eq!(limits.base_division, WWDG_DIV);
    assert_eq!(limits.base_division, 4096);
    assert_eq!(limits.max_prescaler, WWDG_MAX_PRESCALER_INDEX);
    assert_eq!(1u32 << limits.max_prescaler, WWDG_MAX_PRESCALER);
    assert_eq!(limits.max_reload, WWDG_MAX_RELOAD);
    assert_eq!(limits.max_reload, 0x3F);
}

#[test]
fn new_switches_on_the_bus_clock() {
    let mut rcc = Rcc { pclk1_hz: PCLK1_FREQ, lsi_hz: LSI_FREQ, wwdg_clock_enabled: false };
    let wdg = WindowWatchdog::new(Wwdg::reset(), &mut rcc);
    assert!(rcc.wwdg_clock_enabled);
    assert_eq!(rcc.pclk1_hz, PCLK1_FREQ);
    assert_eq!(rcc.lsi_hz, LSI_FREQ);
    assert_eq!(wdg.reload(), 0);
    assert_eq!(wdg.registers().counter(), 0x7F);
    assert_eq!(wdg.registers().window(), 0x7F);
    assert!(!wdg.registers().enabled());
    assert!(wdg.registers().pending().is_empty());
}

#[test]
fn steal_leaves_the_bus_clock_alone() {
    let wdg = WindowWatchdog::steal(Wwdg::from_fields(0x55, true, 0x22, 3, true));
    assert_eq!(wdg.reload(), 0);
    assert_eq!(wdg.registers().counter(), 0x55);
    assert!(wdg.registers().enabled());
    assert_eq!(wdg.registers().window(), 0x22);
    assert_eq!(wdg.registers().prescaler(), 3);
    assert!(wdg.registers().early_wakeup());
}

#[test]
fn window_at_one_megahertz() {
    let (mut wdg, rcc) = at_clock(1_000_000);
    assert_eq!(wdg.clock_period_us(&rcc), 4096);

    wdg.set_window_us(5120, &rcc);
    assert_eq!(wdg.registers().window(), 1);

    wdg.start(5120, &rcc);
    assert_eq!(wdg.registers().prescaler(), 0);
    assert_eq!(wdg.reload(), 1);
    assert_eq!(wdg.interval_us(&rcc), u64::from(wdg.reload()) * 4096);
    assert_eq!(wdg.interval_us(&rcc), wdg.interval_us(&rcc));
}

#[test]
fn start_writes_prescaler_counter_and_activation_in_order() {
    let (mut wdg, rcc) = at_clock(1_000_000);
    wdg.start(5120, &rcc);
    assert_eq!(wdg.registers().prescaler(), 0);
    assert_eq!(wdg.registers().counter(), 1);
    assert!(wdg.registers().enabled());
    assert_eq!(wdg.registers().window(), 0x7F);
    assert!(!wdg.registers().early_wakeup());
    assert_eq!(
        wdg.registers().pending(),
        &vec![WwdgWrite::Prescaler(0), WwdgWrite::Counter(1), WwdgWrite::Enable]
    );
}

#[test]
fn setup_does_not_set_the_activation_bit() {
    let (mut wdg, rcc) = at_clock(1_000_000);
    wdg.setup(5120, &rcc);
    assert_eq!(wdg.reload(), 1);
    assert_eq!(wdg.registers().counter(), 1);
    assert!(!wdg.registers().enabled());
    assert_eq!(
        wdg.registers().pending(),
        &vec![WwdgWrite::Prescaler(0), WwdgWrite::Counter(1)]
    );
}

#[test]
fn start_halves_the_count_until_it_fits() {
    let (mut wdg, rcc) = at_clock(1_000_000);
    wdg.start(1_000_000, &rcc);
    // 244 cycles at index 0, then 122, then 61.
    assert_eq!(wdg.registers().prescaler(), 2);
    assert_eq!(wdg.reload(), 61);
    assert_eq!(wdg.clock_period_us(&rcc), 16_384);
    assert_eq!(wdg.interval_us(&rcc), 999_424);
    assert!(wdg.interval_us(&rcc) <= 1_000_000);
    assert!(wdg.interval_us(&rcc) + wdg.clock_period_us(&rcc) > 1_000_000);
}

#[test]
fn start_at_forty_eight_megahertz() {
    let (mut wdg, rcc) = at_clock(48_000_000);
    wdg.start(100_000, &rcc);
    assert_eq!(wdg.registers().prescaler(), 5);
    assert_eq!(wdg.reload(), 36);
    assert_eq!(wdg.clock_period_us(&rcc), 2_730);
    assert_eq!(wdg.interval_us(&rcc), 98_280);
}

#[test]
fn start_saturates_beyond_the_longest_interval() {
    let (mut wdg, rcc) = at_clock(48_000_000);
    wdg.start(10_000_000, &rcc);
    assert_eq!(wdg.registers().prescaler(), WWDG_MAX_PRESCALER_INDEX);
    assert_eq!(u32::from(wdg.reload()), WWDG_MAX_RELOAD);
    assert_eq!(wdg.clock_period_us(&rcc), 10_922);
    assert_eq!(wdg.interval_us(&rcc), 688_086);
    assert!(wdg.interval_us(&rcc) < 10_000_000);
}

#[test]
fn start_at_the_longest_interval_is_exact() {
    let (mut wdg, rcc) = at_clock(1_000_000);
    wdg.start(33_030_144, &rcc);
    assert_eq!(wdg.registers().prescaler(), 7);
    assert_eq!(wdg.reload(), 63);
    assert_eq!(wdg.interval_us(&rcc), 33_030_144);

    wdg.start(u32::MAX, &rcc);
    assert_eq!(wdg.registers().prescaler(), 7);
    assert_eq!(wdg.reload(), 63);
    assert_eq!(wdg.interval_us(&rcc), 33_030_144);
}

#[test]
fn start_below_one_cycle_gives_a_zero_reload() {
    let (mut wdg, rcc) = at_clock(1_000_000);
    wdg.start(4_095, &rcc);
    assert_eq!(wdg.registers().prescaler(), 0);
    assert_eq!(wdg.reload(), 0);
    assert_eq!(wdg.registers().counter(), 0);
    assert_eq!(wdg.interval_us(&rcc), 0);

    wdg.start(4_096, &rcc);
    assert_eq!(wdg.reload(), 1);
    assert_eq!(wdg.interval_us(&rcc), 4_096);
}

#[test]
fn a_stopped_clock_gives_a_zero_period_and_no_failure() {
    let (mut wdg, rcc) = at_clock(0);
    assert_eq!(wdg.clock_period_us(&rcc), 0);
    assert_eq!(wdg.window_cycles(5120, &rcc), 0);
    wdg.start(5120, &rcc);
    assert_eq!(wdg.registers().prescaler(), 0);
    assert_eq!(wdg.reload(), 0);
    assert_eq!(wdg.interval_us(&rcc), 0);
}

#[test]
fn a_clock_too_fast_for_a_microsecond_gives_a_zero_period() {
    let (mut wdg, rcc) = at_clock(4_200_000_000);
    assert_eq!(wdg.clock_period_us(&rcc), 0);
    assert_eq!(wdg.interval_us(&rcc), 0);
    wdg.start(5120, &rcc);
    assert_eq!(wdg.registers().prescaler(), 7);
    assert_eq!(wdg.reload(), 41);
    assert_eq!(wdg.clock_period_us(&rcc), 124);
    assert_eq!(wdg.interval_us(&rcc), 5_084);
}

#[test]
fn period_and_interval_at_forty_eight_megahertz_are_rounded_once() {
    let rcc = Rcc { pclk1_hz: 48_000_000, lsi_hz: LSI_FREQ, wwdg_clock_enabled: true };
    let expected: [u64; 8] = [85, 170, 341, 682, 1_365, 2_730, 5_461, 10_922];
    for index in 0u8..8 {
        let mut wdg = WindowWatchdog::steal(Wwdg::from_fields(0, false, 0, index, false));
        assert_eq!(wdg.clock_period_us(&rcc), expected[usize::from(index)]);
        assert_eq!(wdg.interval_us(&rcc), 0);
        wdg.setup(10_880, &rcc);
        wdg.peripheral().write_prescaler(index);
        let reload = u64::from(wdg.reload());
        assert_eq!(reload, 63);
        assert_eq!(wdg.interval_us(&rcc), reload * expected[usize::from(index)]);
        assert_eq!(
            wdg.interval_us(&rcc),
            reload * ((4_096u64 << index) * 1_000_000 / 48_000_000)
        );
    }
}

#[test]
fn start_never_sets_a_longer_interval_than_asked_for() {
    let (mut wdg, rcc) = at_clock(48_000_000);
    wdg.start(10_880, &rcc);
    assert_eq!(wdg.registers().prescaler(), 1);
    assert_eq!(wdg.reload(), 63);
    assert_eq!(wdg.interval_us(&rcc), 10_710);
    assert!(wdg.interval_us(&rcc) <= 10_880);

    wdg.start(1_020, &rcc);
    assert_eq!(wdg.registers().prescaler(), 0);
    assert_eq!(wdg.reload(), 11);
    assert_eq!(wdg.interval_us(&rcc), 935);
}

#[test]
fn a_window_shorter_than_one_real_cycle_counts_zero_cycles() {
    let rcc = Rcc { pclk1_hz: 48_000_000, lsi_hz: LSI_FREQ, wwdg_clock_enabled: true };
    let mut wdg = WindowWatchdog::steal(Wwdg::from_fields(0, false, 0, 2, false));
    // One cycle at index 2 lasts 341.33 microseconds.
    assert_eq!(wdg.window_cycles(340, &rcc), 0);
    assert_eq!(wdg.window_cycles(341, &rcc), 0);
    assert_eq!(wdg.window_cycles(342, &rcc), 1);
    wdg.set_window_us(342, &rcc);
    assert_eq!(wdg.registers().window(), 1);
    // 63 cycles last 21504 microseconds.
    wdg.set_window_us(21_503, &rcc);
    assert_eq!(wdg.registers().window(), 62);
    wdg.set_window_us(21_504, &rcc);
    assert_eq!(wdg.registers().window(), 63);
    wdg.set_window_us(30_000, &rcc);
    assert_eq!(wdg.registers().window(), 63);
}

#[test]
fn a_crawling_clock_does_not_overflow() {
    let (mut wdg, rcc) = at_clock(1);
    assert_eq!(wdg.clock_period_us(&rcc), 4_096_000_000);
    wdg.start(u32::MAX, &rcc);
    assert_eq!(wdg.registers().prescaler(), 0);
    assert_eq!(wdg.reload(), 1);
    assert_eq!(wdg.interval_us(&rcc), 4_096_000_000);

    let slow = WindowWatchdog::steal(Wwdg::from_fields(0, false, 0, 7, false));
    assert_eq!(slow.clock_period_us(&rcc), 524_288_000_000);
}

#[test]
fn interval_is_read_at_the_clock_of_the_moment() {
    let (mut wdg, rcc) = at_clock(1_000_000);
    wdg.start(1_000_000, &rcc);
    assert_eq!(wdg.interval_us(&rcc), 999_424);

    let faster = Rcc { pclk1_hz: 2_000_000, ..rcc };
    assert_eq!(wdg.clock_period_us(&faster), 8_192);
    assert_eq!(wdg.interval_us(&faster), 499_712);
}

#[test]
fn interval_is_read_at_the_prescaler_of_the_moment() {
    let (mut wdg, rcc) = at_clock(1_000_000);
    wdg.start(5120, &rcc);
    assert_eq!(wdg.interval_us(&rcc), 4_096);

    wdg.peripheral().write_prescaler(3);
    assert_eq!(wdg.reload(), 1);
    assert_eq!(wdg.clock_period_us(&rcc), 32_768);
    assert_eq!(wdg.interval_us(&rcc), 32_768);
}

#[test]
fn feed_writes_the_cached_reload() {
    let (mut wdg, rcc) = at_clock(1_000_000);
    wdg.start(1_000_000, &rcc);
    wdg.peripheral().take_pending();
    wdg.peripheral().write_counter(0);
    wdg.peripheral().take_pending();

    wdg.feed();
    assert_eq!(wdg.registers().counter(), 61);
    assert_eq!(wdg.reload(), 61);
    assert_eq!(wdg.registers().pending(), &vec![WwdgWrite::Counter(61)]);
}

#[test]
fn feed_keeps_every_counter_bit_of_the_reload() {
    // The counter field is seven bits wide and the reload count is written
    // to it whole. Masking the count with the activity bit alone would
    // leave nothing of it.
    let (mut wdg, rcc) = at_clock(1_000_000);
    wdg.start(1_000_000, &rcc);
    let reload = wdg.reload();
    assert_eq!(reload, 61);
    assert_eq!(wdg.registers().counter(), reload & 0x7F);
    assert_eq!(wdg.registers().counter(), reload);
    assert_eq!(0x40 & reload, 0);
    assert_ne!(wdg.registers().counter(), 0x40 & reload);
}

#[test]
fn feed_before_the_window_opens_is_not_guarded() {
    let (mut wdg, rcc) = at_clock(1_000_000);
    wdg.start(200_000, &rcc);
    wdg.set_window_us(100_000, &rcc);
    assert_eq!(wdg.registers().window(), 24);
    wdg.peripheral().take_pending();

    // No time has passed: the window is still closed. Each feed is written
    // all the same.
    wdg.feed();
    wdg.feed();
    wdg.feed();
    let reload = wdg.reload();
    assert_eq!(
        wdg.registers().pending(),
        &vec![
            WwdgWrite::Counter(reload),
            WwdgWrite::Counter(reload),
            WwdgWrite::Counter(reload)
        ]
    );
    assert_eq!(wdg.registers().counter(), reload);
    assert_eq!(wdg.registers().window(), 24);
}

#[test]
fn set_window_counts_whole_cycles() {
    let (mut wdg, rcc) = at_clock(1_000_000);
    wdg.set_window_us(4_096, &rcc);
    assert_eq!(wdg.registers().window(), 1);
    wdg.set_window_us(8_191, &rcc);
    assert_eq!(wdg.registers().window(), 1);
    wdg.set_window_us(8_192, &rcc);
    assert_eq!(wdg.registers().window(), 2);
    assert_eq!(
        wdg.registers().pending(),
        &vec![WwdgWrite::Window(1), WwdgWrite::Window(1), WwdgWrite::Window(2)]
    );
    assert_eq!(wdg.registers().counter(), 0x7F);
    assert_eq!(wdg.registers().prescaler(), 0);
    assert_eq!(wdg.reload(), 0);
}

#[test]
fn set_window_clamps_to_the_reload_field() {
    let (mut wdg, rcc) = at_clock(1_000_000);
    assert_eq!(wdg.window_cycles(1_000_000, &rcc), 244);
    wdg.set_window_us(1_000_000, &rcc);
    assert_eq!(u32::from(wdg.registers().window()), WWDG_MAX_RELOAD);

    assert_eq!(wdg.window_cycles(63 * 4_096, &rcc), 63);
    wdg.set_window_us(63 * 4_096, &rcc);
    assert_eq!(wdg.registers().window(), 63);

    assert_eq!(wdg.window_cycles(64 * 4_096, &rcc), 64);
    wdg.set_window_us(64 * 4_096, &rcc);
    assert_eq!(wdg.registers().window(), 63);
}

#[test]
fn set_window_counts_at_the_prescaler_in_force() {
    let (mut wdg, rcc) = at_clock(1_000_000);
    wdg.start(1_000_000, &rcc);
    assert_eq!(wdg.registers().prescaler(), 2);
    assert_eq!(wdg.window_cycles(40_000, &rcc), 2);
    wdg.set_window_us(40_000, &rcc);
    assert_eq!(wdg.registers().window(), 2);
    assert_eq!(wdg.registers().prescaler(), 2);
    assert_eq!(wdg.reload(), 61);
}

#[test]
fn a_window_under_one_cycle_counts_zero_cycles() {
    let (wdg, rcc) = at_clock(1_000_000);
    assert_eq!(wdg.window_cycles(4_095, &rcc), 0);
    assert_eq!(wdg.window_cycles(0, &rcc), 0);
    assert_eq!(wdg.window_cycles(4_096, &rcc), 1);
}

#[test]
fn enable_ewi_writes_the_bit() {
    let (mut wdg, _rcc) = at_clock(1_000_000);
    wdg.enable_ewi(true);
    assert!(wdg.registers().early_wakeup());
    wdg.enable_ewi(false);
    assert!(!wdg.registers().early_wakeup());
    assert_eq!(
        wdg.registers().pending(),
        &vec![WwdgWrite::EarlyWakeup(true), WwdgWrite::EarlyWakeup(false)]
    );
    assert_eq!(wdg.registers().counter(), 0x7F);
    assert_eq!(wdg.registers().window(), 0x7F);
}

#[test]
fn stop_on_debug_sets_only_its_own_bit() {
    let (wdg, _rcc) = at_clock(1_000_000);
    let mut dbg = Dbgmcu { wwdg_stop: false, iwdg_stop: false };
    wdg.stop_on_debug(&mut dbg, true);
    assert_eq!(dbg, Dbgmcu { wwdg_stop: true, iwdg_stop: false });
    wdg.stop_on_debug(&mut dbg, false);
    assert_eq!(dbg, Dbgmcu { wwdg_stop: false, iwdg_stop: false });

    let mut other = Dbgmcu { wwdg_stop: false, iwdg_stop: true };
    wdg.stop_on_debug(&mut other, true);
    assert_eq!(other, Dbgmcu { wwdg_stop: true, iwdg_stop: true });
}

#[test]
fn mask_and_unmask_the_interrupt_line() {
    let mut nvic = Nvic { wwdg_irq_enabled: false };
    WindowWatchdog::unmask_irq(&mut nvic);
    assert!(nvic.wwdg_irq_enabled);
    WindowWatchdog::mask_irq(&mut nvic);
    assert!(!nvic.wwdg_irq_enabled);
    WindowWatchdog::mask_irq(&mut nvic);
    assert!(!nvic.wwdg_irq_enabled);
}

#[test]
fn peripheral_hands_out_the_register_block() {
    let (mut wdg, rcc) = at_clock(1_000_000);
    wdg.start(5120, &rcc);
    let taken = wdg.peripheral().take_pending();
    assert_eq!(taken.len(), 3);
    assert!(wdg.registers().pending().is_empty());
    assert_eq!(wdg.registers().counter(), 1);

    *wdg.peripheral() = Wwdg::from_fields(9, true, 8, 1, false);
    assert_eq!(wdg.registers().counter(), 9);
    assert_eq!(wdg.registers().prescaler(), 1);
    assert_eq!(wdg.reload(), 1);
    assert_eq!(wdg.interval_us(&rcc), 8_192);
}

#[test]
fn restarting_quantizes_again() {
    let (mut wdg, rcc) = at_clock(1_000_000);
    wdg.start(1_000_000, &rcc);
    assert_eq!((wdg.registers().prescaler(), wdg.reload()), (2, 61));
    wdg.start(5120, &rcc);
    assert_eq!((wdg.registers().prescaler(), wdg.reload()), (0, 1));
    assert!(wdg.registers().enabled());
}
