use thermostat::dt670::curve;
use thermostat::dt670::CalPoint;
use thermostat::dt670::CalibrationCurve;
use thermostat::dt670::CurveError;

#[test]
fn shipped_table_is_strictly_monotonic() {
    // the checked constructor accepts the table only if the voltage
    // strictly decreases (and the temperature strictly increases) over
    // every adjacent pair
    assert!(curve().is_some());
}

#[test]
fn rejects_non_monotonic_tables() {
    let good = vec![
        CalPoint { temperature_mk: 1000, voltage_uv: 2000, slope_uv_per_k: -1 },
        CalPoint { temperature_mk: 2000, voltage_uv: 1000, slope_uv_per_k: -1 },
    ];
    assert!(CalibrationCurve::new(good).is_some());
    let flat = vec![
        CalPoint { temperature_mk: 1000, voltage_uv: 2000, slope_uv_per_k: -1 },
        CalPoint { temperature_mk: 2000, voltage_uv: 2000, slope_uv_per_k: -1 },
    ];
    assert!(CalibrationCurve::new(flat).is_none());
    let short = vec![CalPoint { temperature_mk: 1000, voltage_uv: 2000, slope_uv_per_k: -1 }];
    assert!(CalibrationCurve::new(short).is_none());
}

#[test]
fn lookup_at_table_points_returns_table_temperatures() {
    let c = curve().unwrap();
    // first table entry: 1.4 K at 1.644290 V
    assert_eq!(c.lookup(1_644_290), Ok(1_400));
    // last table entry: 500 K at 0.090681 V
    assert_eq!(c.lookup(90_681), Ok(500_000));
}

#[test]
fn lookup_interpolates_between_brackets() {
    let c = curve().unwrap();
    // halfway in voltage between (1.4 K, 1.644290 V) and (1.5 K,
    // 1.642990 V): 650 uV below the first entry of a 1300 uV span
    assert_eq!(c.lookup(1_643_640), Ok(1_450));
}

#[test]
fn lookup_reports_out_of_range_instead_of_clamping() {
    let c = curve().unwrap();
    assert_eq!(c.lookup(1_644_291), Err(CurveError::OutOfRange));
    assert_eq!(c.lookup(90_680), Err(CurveError::OutOfRange));
    assert_eq!(c.lookup(2_000_000), Err(CurveError::OutOfRange));
    assert_eq!(c.lookup(0), Err(CurveError::OutOfRange));
}
