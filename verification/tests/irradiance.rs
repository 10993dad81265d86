use engine::error::DomainError;
use engine::irradiance::IntensityFactor;
use engine::irradiance::FACTOR_SCALE;
use engine::panel::SolarPanelArray;
use engine::panel::Weather;
use engine::site::Location;
use engine::site::Orientation;
use engine::time::Timestamp;

const EARTH_AXIS_TILT_RAD: f32 = 2.0 * std::f32::consts::PI * 23.46 / 360.0;
const MINUTES_PER_DAY: f32 = 60.0 * 23.0 + 56.0 + (4.0 / 60.0);
const OMEGA_DAY: f32 = 2.0 * std::f32::consts::PI / MINUTES_PER_DAY;
const OMEGA_YEAR: f32 = OMEGA_DAY / 365.256;

/// The projection of the surface normal on the direction of the sun, for a
/// site at `latitude` radians, `t` minutes after the sun stood highest.
fn projection(latitude: f32, t: f32) -> f32 {
    (OMEGA_YEAR * t).cos() * (-EARTH_AXIS_TILT_RAD).cos() * latitude.sin() * (OMEGA_DAY * t).cos()
        - (OMEGA_YEAR * t).cos() * (-EARTH_AXIS_TILT_RAD).sin() * latitude.cos()
        + (OMEGA_YEAR * t).sin() * latitude.sin() * (OMEGA_DAY * t).sin()
}

fn factor_at(latitude: f32, time: Timestamp, epoch: Timestamp) -> IntensityFactor {
    let t = time.minutes_since(epoch) as f32;
    let parts = (projection(latitude, t) as f64 * FACTOR_SCALE as f64).round() as i64;
    IntensityFactor::from_projection(parts).unwrap()
}

fn as_fraction(factor: IntensityFactor) -> f32 {
    factor.ppm() as f32 / FACTOR_SCALE as f32
}

fn array_at(latitude: f32, nominal_power_w: f32) -> SolarPanelArray {
    let location = Location::new((latitude.to_degrees() as f64 * 1e6).round() as i32, 0, 0).unwrap();
    let orientation = Orientation { direction: 0, slope: 0 };
    SolarPanelArray::new(8, location, orientation, (nominal_power_w as f64 * 1e3).round() as u64)
}

#[test]
fn solar_panel_array_incident_intensity_factor_is_correct() {
    let angle = std::f32::consts::FRAC_PI_2 - EARTH_AXIS_TILT_RAD;
    let array = array_at(angle, 300.0);
    let time = Timestamp::from_utc(2021, 6, 22, 0, 0, 0).unwrap();

    assert!((array.location.latitude() - 66_540_000).abs() <= 10);
    assert_eq!(1.0, as_fraction(factor_at(angle, time, time)));
}

#[test]
fn solar_panel_array_incident_intensity_factor_is_correct_2() {
    let angle = -EARTH_AXIS_TILT_RAD;
    let array = array_at(angle, 300.0);
    let time = Timestamp::from_utc(2021, 6, 22, 0, 0, 0).unwrap();

    assert!((array.location.latitude() + 23_460_000).abs() <= 10);
    assert_eq!(0.0, as_fraction(factor_at(angle, time, time)));
}

#[test]
fn solar_panel_array_output_is_correct() {
    let angle = std::f32::consts::FRAC_PI_2 - EARTH_AXIS_TILT_RAD;
    let array = array_at(angle, 300.0);
    let time = Timestamp::from_utc(2021, 6, 22, 0, 0, 0).unwrap();

    let weather = Weather {};

    let power = array.output(factor_at(angle, time, time), &weather);
    assert_eq!(power, 300_000_000_000);
    assert_eq!(300.0, (power as f64 / 1e9) as f32);
}

#[test]
fn factor_lies_between_zero_and_one() {
    assert_eq!(IntensityFactor::new(0).unwrap().ppm(), 0);
    assert_eq!(IntensityFactor::new(1).unwrap().ppm(), 1);
    assert_eq!(IntensityFactor::new(500_000).unwrap().ppm(), 500_000);
    assert_eq!(IntensityFactor::new(1_000_000).unwrap().ppm(), FACTOR_SCALE);
    assert_eq!(IntensityFactor::new(1_000_001).err(), Some(DomainError::FactorOutOfRange));
    assert_eq!(IntensityFactor::new(u32::MAX).err(), Some(DomainError::FactorOutOfRange));
}

#[test]
fn surface_that_faces_away_from_the_sun_receives_nothing() {
    assert_eq!(IntensityFactor::from_projection(-1).unwrap().ppm(), 0);
    assert_eq!(IntensityFactor::from_projection(-1_000_000).unwrap().ppm(), 0);
    assert_eq!(IntensityFactor::from_projection(i64::MIN).unwrap().ppm(), 0);
    assert_eq!(IntensityFactor::from_projection(0).unwrap().ppm(), 0);
}

#[test]
fn surface_that_faces_the_sun_receives_its_projection() {
    assert_eq!(IntensityFactor::from_projection(1).unwrap().ppm(), 1);
    assert_eq!(IntensityFactor::from_projection(397_148).unwrap().ppm(), 397_148);
    assert_eq!(IntensityFactor::from_projection(1_000_000).unwrap().ppm(), 1_000_000);
    assert_eq!(IntensityFactor::from_projection(1_000_000), IntensityFactor::new(1_000_000));
}

#[test]
fn projection_above_one_has_no_factor() {
    assert_eq!(IntensityFactor::from_projection(1_000_001).err(), Some(DomainError::FactorOutOfRange));
    assert_eq!(IntensityFactor::from_projection(i64::MAX).err(), Some(DomainError::FactorOutOfRange));
}

#[test]
fn factor_stays_in_range_through_a_day_at_any_latitude() {
    let epoch = Timestamp::reference_epoch();
    for latitude_deg in [-90.0f32, -66.54, -23.46, 0.0, 23.46, 45.0, 66.54, 90.0] {
        for minute in 0..1440i64 {
            let time = epoch.checked_add(minute * 60_000_000_000).unwrap();
            let factor = factor_at(latitude_deg.to_radians(), time, epoch);
            assert!(factor.ppm() <= FACTOR_SCALE);
        }
    }
}
