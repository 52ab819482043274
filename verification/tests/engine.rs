use std::time::Duration;

use bevy::time::Timer;
use bevy::time::TimerMode;
use terrarium::timer::IntervalTimer;

#[test]
fn steps_within_the_interval_match_the_engine_timer() {
    let interval: u64 = 2_000_000_000;
    let deltas: [u64; 12] = [
        16_666_667,
        500_000_000,
        1_483_333_333,
        0,
        2_000_000_000,
        1,
        1_999_999_999,
        1_999_999_999,
        2,
        1_000_000_000,
        1_000_000_000,
        33_333_333,
    ];
    let mut ours = IntervalTimer::new(interval);
    let mut theirs = Timer::new(Duration::from_nanos(interval), TimerMode::Repeating);
    for delta in deltas {
        let fired = ours.tick(delta);
        theirs.tick(Duration::from_nanos(delta));
        assert_eq!(fired, theirs.just_finished());
        assert_eq!(ours.just_finished(), theirs.just_finished());
        assert_eq!(u128::from(ours.elapsed()), theirs.elapsed().as_nanos());
    }
}
