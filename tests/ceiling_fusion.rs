use garden::ceiling::{CeilingLock, Resource};
use garden::environment::BME688SensorReport;
use garden::fusion::{FusedEnvironment, Fusion, ScalarKalman};
use garden::readings::{MoistureReading, MoistureSensorReport, Readings};

#[test]
fn ceiling_is_highest_sharer() {
    assert_eq!(Resource::shared_by(&[2, 3]).ceiling, 3);
    assert_eq!(Resource::shared_by(&[1, 1]).ceiling, 1);
    assert_eq!(Resource::shared_by(&[3, 1, 2]).ceiling, 3);
    assert_eq!(Resource::shared_by(&[]).ceiling, 0);
}

#[test]
fn lock_blocks_sharers_and_nests() {
    let moisture = Resource::shared_by(&[2, 3]);
    let status = Resource::shared_by(&[1, 1]);
    let mut lock = CeilingLock::new(0);
    assert!(lock.may_preempt(1));
    lock.lock(moisture);
    assert_eq!(lock.ceiling(), 3);
    assert!(!lock.may_preempt(2));
    assert!(!lock.may_preempt(3));
    assert!(lock.may_preempt(4));
    lock.lock(status);
    assert_eq!(lock.ceiling(), 3);
    lock.unlock();
    assert_eq!(lock.ceiling(), 3);
    lock.unlock();
    assert_eq!(lock.ceiling(), 0);
    assert!(lock.may_preempt(1));
}

#[test]
fn lock_from_higher_base_keeps_base() {
    let mut lock = CeilingLock::new(2);
    lock.lock(Resource { ceiling: 1 });
    assert_eq!(lock.ceiling(), 2);
    assert!(!lock.may_preempt(2));
    lock.unlock();
    assert_eq!(lock.ceiling(), 2);
}

#[test]
fn scalar_filter_steps() {
    let mut f = ScalarKalman::new(0, 0x100_0000_0000, 250_000, 100);
    assert_eq!(f.update(20_000), 19_999);
    assert_eq!(f.variance, 250_099);
    assert_eq!(f.update(21_000), 20_499);
    assert_eq!(f.variance, 125_124);
    assert_eq!(f.update(19_000), 20_000);
    assert_eq!(f.variance, 83_488);
}

#[test]
fn scalar_filter_negative_measurement() {
    let mut f = ScalarKalman::new(0, 0x100_0000_0000, 250_000, 100);
    assert_eq!(f.update(-5_000), -4_999);
}

#[test]
fn fusion_smooths_environment() {
    let mut fusion = Fusion::new();
    let r = BME688SensorReport { temp: 20_000, pressure: 101_325_000, humidity: 45_500, gas_resistance: 12_000 };
    assert_eq!(
        fusion.fold_environment(&r),
        FusedEnvironment { temp: 19_999, pressure: 101_315_785, humidity: 45_499, gas_resistance: 11_999 }
    );
    let r2 = BME688SensorReport { temp: 21_000, ..r };
    assert_eq!(fusion.fold_environment(&r2).temp, 20_499);
}

#[test]
fn fusion_smooths_moisture_channels() {
    let mut fusion = Fusion::new();
    let mut moisture = Readings::new();
    moisture.push(MoistureReading { clocks: 3, duration_ms: 2_000 }).unwrap();
    moisture.push(MoistureReading { clocks: 7, duration_ms: 0 }).unwrap();
    let out = fusion.fold_moisture(&MoistureSensorReport { moisture });
    assert_eq!(out, vec![Some(1_499), None]);
}
