//! A provider of synthetic data: each series walks at random around a base
//! value, within a radius of it.

use vstd::prelude::*;

use crate::location::{GlobalLocation, LocalLocation, Location, ObjectLocation};

verus! {

/// One series of synthetic data.
#[derive(Clone, Copy, Debug, PartialEq, Eq, Structural)]
pub struct Metric {
    /// The value the walk stays around.
    pub base: i64,
    /// How far from `base` the walk may go.
    pub radius: i64,
    /// The walk never goes below zero.
    pub positive: bool,
    /// The value the walk last took.
    pub last: i64,
}

/// The next value of a walk at `last` after a step of `step`: kept within
/// `radius` of `base`, then, for a positive walk, not below zero.
pub open spec fn walk_next(m: Metric, step: int) -> int {
    let lo = m.base - m.radius;
    let hi = m.base + m.radius;
    let moved = m.last + step;
    let above = if moved < lo {
        lo
    } else {
        moved
    };
    let within = if above > hi {
        hi
    } else {
        above
    };
    if m.positive && within < 0 {
        0
    } else {
        within
    }
}

impl Metric {
    pub open spec fn wf(&self) -> bool {
        &&& i64::MIN <= self.base - self.radius <= i64::MAX
        &&& i64::MIN <= self.base + self.radius <= i64::MAX
    }

    /// A walk that starts at `base`, of any radius; `None` when `base - radius`
    /// or `base + radius` does not fit in `i64`.
    pub fn new(base: i64, radius: i64, positive: bool) -> (r: Option<Metric>)
        ensures
            match r {
                Some(m) => m == (Metric { base, radius, positive, last: base }) && m.wf(),
                None => !(Metric { base, radius, positive, last: base }).wf(),
            },
    {
        let lo = base as i128 - radius as i128;
        let hi = base as i128 + radius as i128;
        if lo < i64::MIN as i128 || lo > i64::MAX as i128 || hi < i64::MIN as i128 || hi
            > i64::MAX as i128 {
            return None;
        }
        Some(Metric { base, radius, positive, last: base })
    }

    /// Takes a step of `step` and returns the new value.
    pub fn next(&mut self, step: i64) -> (r: i64)
        requires
            old(self).wf(),
        ensures
            r == walk_next(*old(self), step as int),
            *final(self) == (Metric { last: r, ..*old(self) }),
            final(self).wf(),
    {
        let lo = self.base as i128 - self.radius as i128;
        let hi = self.base as i128 + self.radius as i128;
        let moved = self.last as i128 + step as i128;
        let above = if moved < lo {
            lo
        } else {
            moved
        };
        let within = if above > hi {
            hi
        } else {
            above
        };
        let now = if self.positive && within < 0 {
            0
        } else {
            within
        };
        self.last = now as i64;
        now as i64
    }
}

/// Synthetic data for all three series of one entity.
#[derive(Clone, Copy, Debug, PartialEq, Eq, Structural)]
pub struct Metrics {
    /// Error radius, in millimetres; a positive walk.
    pub error_m: Metric,
    /// Latitude, in nanodegrees.
    pub latitude: Metric,
    /// Longitude, in nanodegrees.
    pub longitude: Metric,
}

impl Metrics {
    pub open spec fn wf(&self) -> bool {
        self.error_m.wf() && self.error_m.positive && self.latitude.wf() && self.longitude.wf()
    }

    /// Synthetic data around the given bases and radii; `None` where a walk
    /// cannot be made (see `Metric::new`).
    pub fn new(error_m: (i64, i64), latitude: (i64, i64), longitude: (i64, i64)) -> (r: Option<
        Metrics,
    >)
        ensures
            match r {
                Some(m) => m.wf() && m.error_m == (Metric {
                    base: error_m.0,
                    radius: error_m.1,
                    positive: true,
                    last: error_m.0,
                }) && m.latitude == (Metric {
                    base: latitude.0,
                    radius: latitude.1,
                    positive: false,
                    last: latitude.0,
                }) && m.longitude == (Metric {
                    base: longitude.0,
                    radius: longitude.1,
                    positive: false,
                    last: longitude.0,
                }),
                None => !(Metric {
                    base: error_m.0,
                    radius: error_m.1,
                    positive: true,
                    last: error_m.0,
                }).wf() || !(Metric {
                    base: latitude.0,
                    radius: latitude.1,
                    positive: false,
                    last: latitude.0,
                }).wf() || !(Metric {
                    base: longitude.0,
                    radius: longitude.1,
                    positive: false,
                    last: longitude.0,
                }).wf(),
            },
    {
        let e = match Metric::new(error_m.0, error_m.1, true) {
            Some(m) => m,
            None => return None,
        };
        let la = match Metric::new(latitude.0, latitude.1, false) {
            Some(m) => m,
            None => return None,
        };
        let lo = match Metric::new(longitude.0, longitude.1, false) {
            Some(m) => m,
            None => return None,
        };
        Some(Metrics { error_m: e, latitude: la, longitude: lo })
    }

    /// Steps all three walks and reports the new values as the location of
    /// entity 0, with no local reading.
    pub fn next(&mut self, error_step: i64, latitude_step: i64, longitude_step: i64) -> (r:
        ObjectLocation)
        requires
            old(self).wf(),
        ensures
            final(self).wf(),
            final(self).error_m == (Metric {
                last: walk_next(old(self).error_m, error_step as int) as i64,
                ..old(self).error_m
            }),
            final(self).latitude == (Metric {
                last: walk_next(old(self).latitude, latitude_step as int) as i64,
                ..old(self).latitude
            }),
            final(self).longitude == (Metric {
                last: walk_next(old(self).longitude, longitude_step as int) as i64,
                ..old(self).longitude
            }),
            r == (ObjectLocation {
                id: 0,
                location: Location {
                    global: GlobalLocation {
                        error_m: final(self).error_m.last as u64,
                        latitude: final(self).latitude.last,
                        longitude: final(self).longitude.last,
                    },
                    local: LocalLocation { x: 0, y: 0, error_m: 0 },
                },
            }),
    {
        let e = self.error_m.next(error_step);
        let la = self.latitude.next(latitude_step);
        let lo = self.longitude.next(longitude_step);
        ObjectLocation {
            id: 0,
            location: Location {
                global: GlobalLocation { error_m: e as u64, latitude: la, longitude: lo },
                local: LocalLocation { x: 0, y: 0, error_m: 0 },
            },
        }
    }
}

} // verus!
