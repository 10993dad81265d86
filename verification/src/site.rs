use vstd::prelude::*;
use crate::error::ValidationError;

verus! {

/// The northernmost latitude, 90°, in microdegrees; the southernmost is its
/// negative.
pub const MAX_LATITUDE: i32 = 90_000_000;

/// The easternmost longitude, 180°, in microdegrees; -180° denotes the same
/// meridian and is not a longitude of its own.
pub const MAX_LONGITUDE: i32 = 180_000_000;

/// Whether `latitude`, in microdegrees, lies in [-90°, 90°].
pub open spec fn latitude_in_range(latitude: int) -> bool {
    -MAX_LATITUDE <= latitude <= MAX_LATITUDE
}

/// Whether `longitude`, in microdegrees, lies in (-180°, 180°].
pub open spec fn longitude_in_range(longitude: int) -> bool {
    -MAX_LONGITUDE < longitude <= MAX_LONGITUDE
}

/// What a `Location` holds: a latitude and a longitude in microdegrees, and an
/// elevation in millimetres.
pub struct Coordinates {
    pub latitude: int,
    pub longitude: int,
    pub elevation: nat,
}

/// A place on Earth, fixed once it is made.
#[derive(Clone, Copy, Debug, PartialEq, Eq, Structural)]
pub struct Location {
    latitude: i32,
    longitude: i32,
    elevation: u32,
}

impl View for Location {
    type V = Coordinates;

    closed spec fn view(&self) -> Coordinates {
        Coordinates {
            latitude: self.latitude as int,
            longitude: self.longitude as int,
            elevation: self.elevation as nat,
        }
    }
}

impl Location {
    #[verifier::type_invariant]
    spec fn on_the_globe(&self) -> bool {
        latitude_in_range(self.latitude as int) && longitude_in_range(self.longitude as int)
    }

    /// The place at `latitude` and `longitude`, both in microdegrees, and
    /// `elevation`, in millimetres. A latitude out of range is reported before
    /// a longitude out of range.
    pub fn new(latitude: i32, longitude: i32, elevation: u32) -> (location: Result<
        Location,
        ValidationError,
    >)
        ensures
            location is Ok <==> latitude_in_range(latitude as int) && longitude_in_range(
                longitude as int,
            ),
            match location {
                Ok(l) => l@ == (Coordinates {
                    latitude: latitude as int,
                    longitude: longitude as int,
                    elevation: elevation as nat,
                }),
                Err(e) => e == if !latitude_in_range(latitude as int) {
                    ValidationError::LatitudeOutOfRange
                } else {
                    ValidationError::LongitudeOutOfRange
                },
            },
    {
        if latitude < -MAX_LATITUDE || latitude > MAX_LATITUDE {
            Err(ValidationError::LatitudeOutOfRange)
        } else if longitude <= -MAX_LONGITUDE || longitude > MAX_LONGITUDE {
            Err(ValidationError::LongitudeOutOfRange)
        } else {
            Ok(Location { latitude, longitude, elevation })
        }
    }

    /// The latitude in microdegrees, positive to the north.
    pub fn latitude(&self) -> (latitude: i32)
        ensures
            latitude == self@.latitude,
            latitude_in_range(latitude as int),
    {
        proof {
            use_type_invariant(self);
        }
        self.latitude
    }

    /// The longitude in microdegrees, positive to the east.
    pub fn longitude(&self) -> (longitude: i32)
        ensures
            longitude == self@.longitude,
            longitude_in_range(longitude as int),
    {
        proof {
            use_type_invariant(self);
        }
        self.longitude
    }

    /// The elevation in millimetres.
    pub fn elevation(&self) -> (elevation: u32)
        ensures
            elevation == self@.elevation,
    {
        self.elevation
    }
}

/// How a panel faces: the compass direction of its tilt and its slope from the
/// horizontal, both in microdegrees.
#[derive(Clone, Copy, Debug, PartialEq, Eq, Structural)]
pub struct Orientation {
    pub direction: i32,
    pub slope: i32,
}

} // verus!
