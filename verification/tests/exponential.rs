use cliff::CliffSearch;
use cliff::ExponentialCliffSearcher;

#[test]
fn exponential_search_from() {
    let mut scale = ExponentialCliffSearcher::new(500);
    assert_eq!(scale.next(), Some(500));
    assert_eq!(scale.next(), Some(1000));
    assert_eq!(scale.next(), Some(2000));
    assert_eq!(scale.next(), Some(4000));
    scale.overloaded();
    assert_eq!(scale.next(), Some(3000));
    assert_eq!(scale.next(), Some(3500));
    scale.overloaded();
    assert_eq!(scale.next(), Some(3250));
    assert_eq!(scale.next(), None);
    assert_eq!(scale.estimate(), 3250..3500);

    // check that it continues to be terminated
    assert_eq!(scale.next(), None);
    // even after another "failed"
    scale.overloaded();
    assert_eq!(scale.next(), None);
    // and the estimate is still the same
    assert_eq!(scale.estimate(), 3250..3500);
}

#[test]
fn exponential_search_from_until() {
    let mut scale = ExponentialCliffSearcher::until(500, 1000);
    assert_eq!(scale.next(), Some(500));
    assert_eq!(scale.next(), Some(1000));
    assert_eq!(scale.next(), Some(2000));
    assert_eq!(scale.next(), Some(4000));
    assert_eq!(scale.next(), Some(8000));
    scale.overloaded();
    assert_eq!(scale.next(), Some(6000));
    scale.overloaded();
    assert_eq!(scale.next(), Some(5000));
    scale.overloaded();
    assert_eq!(scale.next(), None);
    assert_eq!(scale.estimate(), 4000..5000);

    // check that it continues to be terminated
    assert_eq!(scale.next(), None);
    // even after another "failed"
    scale.overloaded();
    assert_eq!(scale.next(), None);
    // and the estimate is still the same
    assert_eq!(scale.estimate(), 4000..5000);
}

#[test]
fn fill_search() {
    let mut scale = ExponentialCliffSearcher::until(500, 500);
    scale.fill_left();
    assert_eq!(scale.next(), Some(500));
    assert_eq!(scale.next(), Some(1000));
    assert_eq!(scale.next(), Some(2000));
    assert_eq!(scale.next(), Some(4000));
    assert_eq!(scale.next(), Some(8000));
    scale.overloaded();
    assert_eq!(scale.next(), Some(6000));
    scale.overloaded();
    assert_eq!(scale.next(), Some(5000));
    scale.overloaded();
    assert_eq!(scale.next(), Some(4500));
    scale.overloaded();

    // since filling is enabled, we'll also sample a few
    // points just _before_ the highest known-good target.
    assert_eq!(scale.next(), Some(3000));
    assert_eq!(scale.next(), Some(3500));

    // and then we should be done
    assert_eq!(scale.next(), None);
    // check that it continues to be terminated
    assert_eq!(scale.next(), None);
}

#[test]
fn exponential_through_trait() {
    let mut scale = ExponentialCliffSearcher::until(500, 1000);
    let scale: &mut dyn CliffSearch = &mut scale;
    assert_eq!(scale.next(), Some(500));
    assert_eq!(scale.next(), Some(1000));
    assert_eq!(scale.next(), Some(2000));
    assert_eq!(scale.next(), Some(4000));
    assert_eq!(scale.next(), Some(8000));
    scale.overloaded();
    assert_eq!(scale.next(), Some(6000));
    scale.overloaded();
    assert_eq!(scale.next(), Some(5000));
    scale.overloaded();
    assert_eq!(scale.next(), None);
    assert_eq!(scale.estimate(), 4000..5000);
}

#[test]
fn exponential_immediate() {
    let mut scale = ExponentialCliffSearcher::new(500);
    assert_eq!(scale.next(), Some(500));
    scale.overloaded();
    assert_eq!(scale.next(), None);
    assert_eq!(scale.estimate(), 500..500);
}

#[test]
fn exponential_estimate_before_first_value() {
    let scale = ExponentialCliffSearcher::new(500);
    assert_eq!(scale.estimate(), 500..usize::MAX);
}

#[test]
fn exponential_first_value_is_start() {
    for start in [0, 1, 2, 3, 500, 12345, usize::MAX / 2, usize::MAX - 1, usize::MAX] {
        let mut scale = ExponentialCliffSearcher::new(start);
        assert_eq!(scale.next(), Some(start));
        let mut scale = ExponentialCliffSearcher::until(start, 7);
        scale.fill_left();
        assert_eq!(scale.next(), Some(start));
    }
}

#[test]
fn exponential_new_stops_at_half_of_start() {
    // the width asked for is 500 / 2 = 250: a bracket 500 wide is bisected once more
    let mut scale = ExponentialCliffSearcher::new(500);
    assert_eq!(scale.next(), Some(500));
    assert_eq!(scale.next(), Some(1000));
    scale.overloaded();
    assert_eq!(scale.next(), Some(750));
    assert_eq!(scale.next(), None);
    assert_eq!(scale.estimate(), 750..1000);
}

#[test]
fn exponential_report_before_first_value_is_dropped() {
    let mut scale = ExponentialCliffSearcher::new(500);
    scale.overloaded();
    assert_eq!(scale.estimate(), 500..usize::MAX);
    assert_eq!(scale.next(), Some(500));
    // the report was made when nothing was out, so 500 counts as held
    assert_eq!(scale.next(), Some(1000));
    assert_eq!(scale.estimate(), 500..usize::MAX);
    scale.overloaded();
    assert_eq!(scale.next(), Some(750));
    assert_eq!(scale.next(), None);
    assert_eq!(scale.next(), None);
    assert_eq!(scale.estimate(), 750..1000);
}

#[test]
fn exponential_report_twice_is_report_once() {
    let mut once = ExponentialCliffSearcher::until(500, 100);
    let mut twice = ExponentialCliffSearcher::until(500, 100);
    for _ in 0..4 {
        assert_eq!(once.next(), twice.next());
    }
    once.overloaded();
    twice.overloaded();
    twice.overloaded();
    twice.overloaded();
    for _ in 0..10 {
        assert_eq!(once.next(), twice.next());
        assert_eq!(once.estimate(), twice.estimate());
    }
}

#[test]
fn exponential_report_moves_estimate_only_with_next() {
    let mut scale = ExponentialCliffSearcher::until(500, 100);
    assert_eq!(scale.next(), Some(500));
    assert_eq!(scale.next(), Some(1000));
    assert_eq!(scale.estimate(), 500..usize::MAX);
    scale.overloaded();
    assert_eq!(scale.estimate(), 500..usize::MAX);
    assert_eq!(scale.next(), Some(750));
    assert_eq!(scale.estimate(), 500..1000);
}

#[test]
fn exponential_doubling_saturates() {
    let start = usize::MAX - 10;
    let mut scale = ExponentialCliffSearcher::until(start, 5);
    assert_eq!(scale.next(), Some(start));
    // twice the start does not fit: the largest value there is goes out in its place
    assert_eq!(scale.next(), Some(usize::MAX));
    assert_eq!(scale.estimate(), start..usize::MAX);
    scale.overloaded();
    // the largest value is now a real upper end, and the search bisects below it
    assert_eq!(scale.next(), Some(usize::MAX - 5));
    assert_eq!(scale.estimate(), start..usize::MAX);
    assert_eq!(scale.next(), None);
    assert_eq!(scale.next(), None);
    assert_eq!(scale.estimate(), usize::MAX - 5..usize::MAX);
}

#[test]
fn exponential_saturated_value_held() {
    let start = usize::MAX / 2 + 1;
    let mut scale = ExponentialCliffSearcher::until(start, 5);
    assert_eq!(scale.next(), Some(start));
    assert_eq!(scale.next(), Some(usize::MAX));
    // nothing lies above the largest value, so the search is over
    assert_eq!(scale.next(), None);
    assert_eq!(scale.estimate(), usize::MAX..usize::MAX);
}

#[test]
fn exponential_largest_exact_doubling() {
    let start = usize::MAX / 2;
    let mut scale = ExponentialCliffSearcher::until(start, 5);
    assert_eq!(scale.next(), Some(start));
    assert_eq!(scale.next(), Some(usize::MAX - 1));
}

#[test]
fn exponential_zero_start() {
    let mut scale = ExponentialCliffSearcher::new(0);
    assert_eq!(scale.next(), Some(0));
    assert_eq!(scale.next(), Some(0));
    scale.overloaded();
    assert_eq!(scale.next(), None);
    assert_eq!(scale.estimate(), 0..0);
}

#[test]
fn exponential_zero_width() {
    let mut scale = ExponentialCliffSearcher::new(1);
    assert_eq!(scale.next(), Some(1));
    assert_eq!(scale.next(), Some(2));
    assert_eq!(scale.next(), Some(4));
    scale.overloaded();
    assert_eq!(scale.next(), Some(3));
    scale.overloaded();
    assert_eq!(scale.next(), Some(2));
    scale.overloaded();
    assert_eq!(scale.next(), None);
    assert_eq!(scale.estimate(), 2..2);
}

#[test]
fn exponential_clone_runs_on_its_own() {
    let mut scale = ExponentialCliffSearcher::until(500, 100);
    assert_eq!(scale.next(), Some(500));
    assert_eq!(scale.next(), Some(1000));
    let mut copy = scale.clone();
    scale.overloaded();
    assert_eq!(scale.next(), Some(750));
    assert_eq!(copy.next(), Some(2000));
    assert_eq!(scale.estimate(), 500..1000);
    assert_eq!(copy.estimate(), 1000..usize::MAX);
}

#[test]
fn fill_left_samples_lie_in_gap() {
    let mut scale = ExponentialCliffSearcher::until(1_000_000, 1_000_000);
    scale.fill_left();
    assert_eq!(scale.next(), Some(1_000_000));
    assert_eq!(scale.next(), Some(2_000_000));
    assert_eq!(scale.next(), Some(4_000_000));
    assert_eq!(scale.next(), Some(8_000_000));
    assert_eq!(scale.next(), Some(16_000_000));
    scale.overloaded();
    assert_eq!(scale.next(), Some(12_000_000));
    scale.overloaded();
    assert_eq!(scale.next(), Some(10_000_000));
    scale.overloaded();
    assert_eq!(scale.next(), Some(9_000_000));
    scale.overloaded();
    assert_eq!(scale.next(), Some(6_000_000));
    assert_eq!(scale.estimate(), 8_000_000..9_000_000);
    assert_eq!(scale.next(), Some(7_000_000));
    assert_eq!(scale.next(), None);
    assert_eq!(scale.next(), None);
    assert_eq!(scale.estimate(), 8_000_000..9_000_000);
}

#[test]
fn fill_left_ignores_reports() {
    let mut scale = ExponentialCliffSearcher::until(500, 500);
    scale.fill_left();
    assert_eq!(scale.next(), Some(500));
    assert_eq!(scale.next(), Some(1000));
    assert_eq!(scale.next(), Some(2000));
    assert_eq!(scale.next(), Some(4000));
    assert_eq!(scale.next(), Some(8000));
    scale.overloaded();
    assert_eq!(scale.next(), Some(6000));
    scale.overloaded();
    assert_eq!(scale.next(), Some(5000));
    scale.overloaded();
    assert_eq!(scale.next(), Some(4500));
    scale.overloaded();
    assert_eq!(scale.next(), Some(3000));
    assert_eq!(scale.estimate(), 4000..4500);
    scale.overloaded();
    assert_eq!(scale.estimate(), 4000..4500);
    assert_eq!(scale.next(), Some(3500));
    scale.overloaded();
    assert_eq!(scale.next(), None);
    scale.overloaded();
    assert_eq!(scale.next(), None);
    assert_eq!(scale.estimate(), 4000..4500);
}

#[test]
fn fill_left_starts_below_the_last_doubling() {
    let mut scale = ExponentialCliffSearcher::until(500, 100);
    scale.fill_left();
    assert_eq!(scale.next(), Some(500));
    assert_eq!(scale.next(), Some(1000));
    assert_eq!(scale.next(), Some(2000));
    assert_eq!(scale.next(), Some(4000));
    scale.overloaded();
    // 3000 holds: the lower end rises by bisection, which leaves the start of the gap at 1000
    assert_eq!(scale.next(), Some(3000));
    assert_eq!(scale.next(), Some(3500));
    scale.overloaded();
    assert_eq!(scale.next(), Some(3250));
    scale.overloaded();
    assert_eq!(scale.next(), Some(3125));
    scale.overloaded();
    assert_eq!(scale.next(), Some(3062));
    scale.overloaded();
    assert_eq!(scale.next(), Some(2000));
    assert_eq!(scale.next(), Some(2500));
    assert_eq!(scale.next(), Some(2750));
    assert_eq!(scale.next(), Some(2875));
    assert_eq!(scale.next(), Some(2937));
    assert_eq!(scale.next(), None);
    assert_eq!(scale.next(), None);
    assert_eq!(scale.estimate(), 3000..3062);
}

#[test]
fn fill_left_without_gap() {
    let mut scale = ExponentialCliffSearcher::new(500);
    scale.fill_left();
    assert_eq!(scale.next(), Some(500));
    scale.overloaded();
    assert_eq!(scale.next(), None);
    assert_eq!(scale.next(), None);
    assert_eq!(scale.estimate(), 500..500);
}

#[test]
fn fill_left_not_asked_for() {
    let mut scale = ExponentialCliffSearcher::until(500, 500);
    assert_eq!(scale.next(), Some(500));
    assert_eq!(scale.next(), Some(1000));
    assert_eq!(scale.next(), Some(2000));
    assert_eq!(scale.next(), Some(4000));
    assert_eq!(scale.next(), Some(8000));
    scale.overloaded();
    assert_eq!(scale.next(), Some(6000));
    scale.overloaded();
    assert_eq!(scale.next(), Some(5000));
    scale.overloaded();
    assert_eq!(scale.next(), Some(4500));
    scale.overloaded();
    assert_eq!(scale.next(), None);
    assert_eq!(scale.next(), None);
}

#[test]
fn fill_left_with_zero_width_and_gap_of_one() {
    // with a width of 0 and a gap of 1 nothing lies strictly inside the gap:
    // the sample is the start of the gap, and the gap never closes
    let mut scale = ExponentialCliffSearcher::until(1, 0);
    scale.fill_left();
    assert_eq!(scale.next(), Some(1));
    assert_eq!(scale.next(), Some(2));
    assert_eq!(scale.next(), Some(4));
    scale.overloaded();
    assert_eq!(scale.next(), Some(3));
    scale.overloaded();
    assert_eq!(scale.next(), Some(2));
    scale.overloaded();
    assert_eq!(scale.next(), Some(1));
    assert_eq!(scale.next(), Some(1));
    assert_eq!(scale.next(), Some(1));
    assert_eq!(scale.estimate(), 2..2);
}

#[test]
fn exponential_brackets_the_cliff() {
    // a system that keeps up with every load up to `cliff` and with none above it
    for start in 1..40usize {
        for cliff in start..200usize {
            for fidelity in 1..6usize {
                let mut scale = ExponentialCliffSearcher::until(start, fidelity);
                let mut asked = 0;
                while let Some(load) = scale.next() {
                    if load > cliff {
                        scale.overloaded();
                    }
                    asked += 1;
                    assert!(asked < 100);
                }
                let found = scale.estimate();
                assert!(found.start <= cliff && cliff < found.end);
                assert!(found.end - found.start <= fidelity);
            }
        }
    }
}

#[test]
fn fill_left_samples_rise_towards_the_lower_end() {
    for start in 1..30usize {
        for cliff in start..150usize {
            for fidelity in 1..5usize {
                let mut scale = ExponentialCliffSearcher::until(start, fidelity);
                scale.fill_left();
                let mut handed_out = Vec::new();
                while let Some(load) = scale.next() {
                    if load > cliff {
                        scale.overloaded();
                    }
                    handed_out.push(load);
                    assert!(handed_out.len() < 200);
                }
                let found = scale.estimate();
                assert!(found.start <= cliff && cliff < found.end);
                // what went out after the last load of the search are the samples
                let search_len = 1 + handed_out
                    .iter()
                    .rposition(|load| *load >= found.start)
                    .unwrap();
                let samples = &handed_out[search_len..];
                for pair in samples.windows(2) {
                    assert!(pair[0] < pair[1]);
                }
                for sample in samples {
                    assert!(*sample < found.start);
                }
                if let Some(last) = samples.last() {
                    assert!(found.start - *last <= fidelity);
                }
                assert_eq!(scale.next(), None);
            }
        }
    }
}

#[test]
fn exponential_bracket_only_narrows() {
    // every pattern of twelve outcomes, from three starting points, with and without filling
    for start in [1usize, 500, usize::MAX / 3] {
        for fill in [false, true] {
            for outcomes in 0..(1u32 << 12) {
                let mut scale = ExponentialCliffSearcher::until(start, 3);
                if fill {
                    scale.fill_left();
                }
                let mut before = scale.estimate();
                let mut narrow = false;
                let mut over = false;
                for turn in 0..20 {
                    let value = scale.next();
                    let now = scale.estimate();
                    assert!(before.start <= now.start);
                    assert!(now.end <= before.end);
                    assert!(now.start <= now.end);
                    if narrow {
                        // the search is over: the estimate stands, and only samples come
                        assert_eq!(now, before);
                        if let Some(sample) = value {
                            assert!(fill && sample < now.start);
                        }
                    }
                    if over {
                        assert_eq!(value, None);
                    }
                    match value {
                        Some(value) => {
                            if !narrow && now.end - now.start > 3 {
                                assert!(now.start <= value && value <= now.end);
                            } else {
                                assert!(fill && value < now.start);
                                narrow = true;
                            }
                        },
                        None => {
                            narrow = true;
                            over = true;
                            assert!(now.end - now.start <= 3);
                        },
                    }
                    if turn < 12 && (outcomes >> turn) & 1 == 1 {
                        scale.overloaded();
                        assert_eq!(scale.estimate(), now);
                    }
                    before = now;
                }
            }
        }
    }
}

#[test]
fn exponential_step_by_step() {
    let mut load = ExponentialCliffSearcher::new(500);
    assert_eq!(load.next(), Some(500));
    assert_eq!(load.next(), Some(1000));
    assert_eq!(load.next(), Some(2000));
    load.overloaded();
    assert_eq!(load.next(), Some(1500));
    assert_eq!(load.next(), Some(1750));
    load.overloaded();
    assert_eq!(load.next(), None);
    assert_eq!(load.estimate(), 1500..1750);
}

#[test]
fn exponential_drives_a_benchmark() {
    let benchmark = |load: usize| -> bool { load <= 12345 };
    let mut loads = ExponentialCliffSearcher::new(500);
    while let Some(load) = loads.next() {
        if !benchmark(load) {
            loads.overloaded();
        }
    }
    let supported = loads.estimate();
    assert!(supported.start <= 12345 && 12345 < supported.end);
    assert!(supported.end - supported.start <= 250);
}
