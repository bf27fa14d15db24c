use chip8::timers::{TimerClock, Timers, NANOS_PER_SECOND, TIMER_HZ};

#[test]
fn new_timers_are_zero() {
    assert_eq!(Timers::new(), Timers { delay: 0, sound: 0 });
}

#[test]
fn tick_counts_each_timer_down() {
    let mut t = Timers { delay: 3, sound: 1 };
    t.tick();
    assert_eq!(t, Timers { delay: 2, sound: 0 });
    t.tick();
    assert_eq!(t, Timers { delay: 1, sound: 0 });
    t.tick();
    assert_eq!(t, Timers { delay: 0, sound: 0 });
    t.tick();
    assert_eq!(t, Timers { delay: 0, sound: 0 });
}

#[test]
fn tick_by_counts_down_and_stops_at_zero() {
    let mut t = Timers { delay: 200, sound: 10 };
    t.tick_by(0);
    assert_eq!(t, Timers { delay: 200, sound: 10 });
    t.tick_by(10);
    assert_eq!(t, Timers { delay: 190, sound: 0 });
    t.tick_by(189);
    assert_eq!(t, Timers { delay: 1, sound: 0 });
    t.tick_by(u64::MAX);
    assert_eq!(t, Timers { delay: 0, sound: 0 });
}

#[test]
fn tick_by_at_the_byte_boundary() {
    let mut t = Timers { delay: 255, sound: 255 };
    t.tick_by(254);
    assert_eq!(t, Timers { delay: 1, sound: 1 });
    let mut t = Timers { delay: 255, sound: 254 };
    t.tick_by(255);
    assert_eq!(t, Timers { delay: 0, sound: 0 });
    let mut t = Timers { delay: 255, sound: 255 };
    t.tick_by(256);
    assert_eq!(t, Timers { delay: 0, sound: 0 });
}

#[test]
fn tick_by_agrees_with_repeated_tick() {
    for start in [0u8, 1, 5, 255] {
        for ticks in 0..300u64 {
            let mut a = Timers { delay: start, sound: start / 2 };
            let mut b = a;
            a.tick_by(ticks);
            for _ in 0..ticks {
                b.tick();
            }
            assert_eq!(a, b);
        }
    }
}

#[test]
fn clock_constants() {
    assert_eq!(TIMER_HZ, 60);
    assert_eq!(NANOS_PER_SECOND, 1_000_000_000);
}

#[test]
fn clock_ticks_once_per_sixtieth_of_a_second() {
    let mut c = TimerClock::new();
    assert_eq!(c.advance(16_666_666), 0);
    assert_eq!(c.advance(1), 1);
    assert_eq!(c.advance(16_666_666), 0);
    assert_eq!(c.advance(1), 1);
    assert_eq!(c.advance(16_666_666), 1);
}

#[test]
fn clock_gives_sixty_ticks_a_second() {
    let mut c = TimerClock::new();
    assert_eq!(c.advance(1_000_000_000), 60);
    assert_eq!(c.advance(500_000_000), 30);
    assert_eq!(c.advance(0), 0);
}

#[test]
fn clock_loses_no_time_in_small_steps() {
    let mut c = TimerClock::new();
    let mut ticks = 0;
    for _ in 0..1000 {
        ticks += c.advance(1_000_000);
    }
    assert_eq!(ticks, 60);
    let mut c = TimerClock::new();
    let mut ticks = 0;
    for _ in 0..7 {
        ticks += c.advance(142_857_143);
    }
    assert_eq!(ticks, 60);
}

#[test]
fn clock_takes_the_longest_interval() {
    let mut c = TimerClock::new();
    assert_eq!(c.advance(u64::MAX), 1_106_804_644_422);
    assert_eq!(c.advance(u64::MAX), 1_106_804_644_423);
    let mut c = TimerClock::new();
    assert_eq!(c.advance(16_666_666), 0);
    assert_eq!(c.advance(u64::MAX), 1_106_804_644_423);
}
