use humidity_projection::daily::{aggregate_by_day, daily_series, DailyAverage};
use humidity_projection::sample::Sample;

const DAY: u64 = 20_000;

fn at(day: u64, hour: u64) -> u64 {
    day * 1440 + hour * 60
}

#[test]
fn two_days_of_hourly_samples() {
    let s: Vec<Sample> = (0..48u64)
        .map(|i| Sample { minute: at(DAY, 0) + 60 * i, temperature: (i as i64) * 1000 - 5000, humidity: 40_000 + i * 100 })
        .collect();
    let d = aggregate_by_day(&s);
    assert_eq!(d.len(), 2);
    for (k, avg) in d.iter().enumerate() {
        assert_eq!(avg.day, DAY + k as u64);
        assert_eq!(avg.sample_count, 24);
        let part = &s[24 * k..24 * (k + 1)];
        let t: i128 = part.iter().map(|x| x.temperature as i128).sum();
        let h: u128 = part.iter().map(|x| x.humidity as u128).sum();
        assert_eq!(avg.temperature_sum, t);
        assert_eq!(avg.humidity_sum, h);
    }
    assert_eq!(d[0].mean_temperature(), 6_500);
    assert_eq!(d[1].mean_temperature(), 30_500);
    assert_eq!(d[0].mean_humidity(), 41_150);
}

#[test]
fn morning_and_evening_average() {
    let s = vec![
        Sample { minute: at(DAY, 8), temperature: 22_000, humidity: 50_000 },
        Sample { minute: at(DAY, 20), temperature: 18_000, humidity: 70_000 },
    ];
    let d = aggregate_by_day(&s);
    assert_eq!(d.len(), 1);
    assert_eq!(d[0].sample_count, 2);
    assert_eq!(d[0].mean_temperature(), 20_000);
    assert_eq!(d[0].mean_humidity(), 60_000);
}

#[test]
fn single_sample_day_is_its_own_average() {
    let s = vec![
        Sample { minute: at(DAY, 8), temperature: 22_000, humidity: 50_000 },
        Sample { minute: at(DAY, 9), temperature: 24_000, humidity: 30_000 },
        Sample { minute: at(DAY + 1, 0), temperature: -1_234, humidity: 91_000 },
    ];
    let d = aggregate_by_day(&s);
    assert_eq!(d.len(), 2);
    assert_eq!(d[0].sample_count, 2);
    assert_eq!(d[1], DailyAverage { day: DAY + 1, sample_count: 1, temperature_sum: -1_234, humidity_sum: 91_000 });
    assert_eq!(d[1].mean_temperature(), -1_234);
    assert_eq!(d[1].mean_humidity(), 91_000);
}

#[test]
fn empty_series_has_no_days() {
    assert!(aggregate_by_day(&Vec::new()).is_empty());
    assert!(daily_series(&Vec::new()).is_empty());
}

#[test]
fn mean_rounds_down() {
    let a = DailyAverage { day: DAY, sample_count: 2, temperature_sum: -3, humidity_sum: 3 };
    assert_eq!(a.mean_temperature(), -2);
    assert_eq!(a.mean_humidity(), 1);
    let b = DailyAverage { day: DAY, sample_count: 3, temperature_sum: 7, humidity_sum: 8 };
    assert_eq!(b.mean_temperature(), 2);
    assert_eq!(b.mean_humidity(), 2);
}

#[test]
fn returning_day_starts_a_new_group() {
    let s = vec![
        Sample { minute: at(DAY, 1), temperature: 1_000, humidity: 10_000 },
        Sample { minute: at(DAY + 1, 1), temperature: 2_000, humidity: 20_000 },
        Sample { minute: at(DAY, 2), temperature: 3_000, humidity: 30_000 },
    ];
    let d = aggregate_by_day(&s);
    assert_eq!(d.len(), 3);
    assert_eq!(d[2].day, DAY);
    assert_eq!(d[2].sample_count, 1);
}

#[test]
fn daily_series_is_stamped_at_midnight() {
    let s = vec![
        Sample { minute: at(DAY, 8), temperature: 22_000, humidity: 50_000 },
        Sample { minute: at(DAY, 20), temperature: 18_000, humidity: 70_000 },
        Sample { minute: at(DAY + 1, 3), temperature: 5_000, humidity: 80_000 },
    ];
    let r = daily_series(&s);
    assert_eq!(r.len(), 2);
    assert_eq!(r[0], Sample { minute: at(DAY, 0), temperature: 20_000, humidity: 60_000 });
    assert_eq!(r[1], Sample { minute: at(DAY + 1, 0), temperature: 5_000, humidity: 80_000 });
}
