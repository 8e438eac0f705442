use chip8::{Instruction, TimedSystem, Timing};

fn systems() -> Vec<TimedSystem> {
    vec![
        TimedSystem::new("cpu", 700),
        TimedSystem::new("timer", 60),
        TimedSystem::new("display", 60),
    ]
}

fn counts(v: &[Instruction]) -> Vec<(&'static str, u128)> {
    v.iter().map(|i| (i.name, i.cycles)).collect()
}

#[test]
fn one_second_gives_each_frequency() {
    let mut t = Timing::new(5, systems());
    let r = t.get_instructions(1_000_000_005);
    assert_eq!(counts(&r), vec![("cpu", 700), ("timer", 60), ("display", 60)]);
}

#[test]
fn fractions_carry_across_calls() {
    let mut t = Timing::new(0, systems());
    let mut total = [0u128; 3];
    let mut now = 0u64;
    for _ in 0..3 {
        now += 333_333_333;
        for (k, i) in t.get_instructions(now).iter().enumerate() {
            total[k] += i.cycles;
        }
    }
    now += 1;
    for (k, i) in t.get_instructions(now).iter().enumerate() {
        total[k] += i.cycles;
    }
    assert_eq!(total, [700, 60, 60]);
}

#[test]
fn many_short_frames_lose_no_cycles() {
    let mut t = Timing::new(0, systems());
    let mut cpu = 0u128;
    let mut now = 0u64;
    for _ in 0..1000 {
        now += 16_666_667;
        cpu += t.get_instructions(now).iter().find(|i| i.name == "cpu").unwrap().cycles;
    }
    assert_eq!(cpu, (16_666_667u128 * 1000 * 700) / 1_000_000_000);
}

#[test]
fn short_frame_gives_no_timer_tick_yet() {
    let mut t = Timing::new(0, systems());
    let r = t.get_instructions(10_000_000);
    assert_eq!(counts(&r), vec![("cpu", 7), ("timer", 0), ("display", 0)]);
    let r = t.get_instructions(20_000_000);
    assert_eq!(counts(&r), vec![("cpu", 7), ("timer", 1), ("display", 1)]);
}

#[test]
fn clock_going_backwards_gives_nothing() {
    let mut t = Timing::new(1_000, systems());
    let r = t.get_instructions(500);
    assert_eq!(counts(&r), vec![("cpu", 0), ("timer", 0), ("display", 0)]);
    assert_eq!(t.last, 1_000);
}

#[test]
fn long_pause_catches_up_in_one_burst() {
    let mut t = Timing::new(0, systems());
    let r = t.get_instructions(3_600_000_000_000);
    assert_eq!(counts(&r), vec![("cpu", 2_520_000), ("timer", 216_000), ("display", 216_000)]);
}
