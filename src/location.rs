use vstd::prelude::*;

verus! {

/// Nanodegrees in one degree: the unit of latitudes, longitudes and degree offsets.
pub const NANO_PER_DEGREE: i64 = 1_000_000_000;

/// Millimetres in one metre: the unit of metric offsets and error radii.
pub const MILLI_PER_METRE: i64 = 1_000;

/// A scale factor of one, in parts per million.
pub const SCALE_ONE: i64 = 1_000_000;

/// A unit-vector component of one, in parts per billion.
pub const UNIT: i64 = 1_000_000_000;

/// Largest magnitude of a coordinate or a degree offset that the engine accepts
/// (2^61 nanodegrees): sums of three such values still fit in `i64`.
pub const COORD_LIMIT: i64 = 0x2000_0000_0000_0000;

/// Largest magnitude of a metric offset that the engine accepts (2^57 mm): its
/// conversion to nanodegrees stays within `COORD_LIMIT`.
pub const METRIC_LIMIT: i64 = 0x0200_0000_0000_0000;

/// Length of one degree of arc on the equator, in nanometres:
/// `2 * pi * 6378.137 km / 360`.
pub const DEGREE_LENGTH_NM: i128 = 111_319_490_793_274;

/// Nanometres per millimetre times nanodegrees per degree: with
/// `DEGREE_LENGTH_NM` it gives the nanodegrees spanned by one millimetre.
pub const NM_NDEG_PER_MM_DEG: i128 = 1_000_000_000_000_000;

/// A position in geographic coordinates with an uncertainty radius.
#[derive(Clone, Copy, Debug, PartialEq, Eq, Structural)]
pub struct GlobalLocation {
    /// Uncertainty radius, in millimetres.
    pub error_m: u64,
    /// Latitude, in nanodegrees.
    pub latitude: i64,
    /// Longitude, in nanodegrees.
    pub longitude: i64,
}

/// A planar offset from an anchor, in the degree unit of latitude and longitude.
#[derive(Clone, Copy, Debug, Default, PartialEq, Eq, Structural)]
pub struct LocalLocation {
    /// Offset along the anchor's first axis, in nanodegrees.
    pub x: i64,
    /// Offset along the anchor's second axis, in nanodegrees.
    pub y: i64,
    /// Local uncertainty radius, in millimetres; zero when not known.
    pub error_m: u64,
}

/// A planar offset from an anchor, in metres along the anchor's axes.
#[derive(Clone, Copy, Debug, PartialEq, Eq, Structural)]
pub struct LocationMetric {
    /// Offset along the anchor's first axis, in millimetres.
    pub x_m: i64,
    /// Offset along the anchor's second axis, in millimetres.
    pub y_m: i64,
    /// Local uncertainty radius, in millimetres; zero when not known.
    pub error_m: u64,
}

/// Per-axis multipliers applied to a metric offset, in parts per million.
#[derive(Clone, Copy, Debug, PartialEq, Eq, Structural)]
pub struct LocationVectorScale {
    /// Multiplier of the first axis (`x_m`).
    pub latitude: i64,
    /// Multiplier of the second axis (`y_m`).
    pub longitude: i64,
}

/// The anchor's orientation, as the cosine and sine of its rotation angle, in
/// parts per billion.
#[derive(Clone, Copy, Debug, PartialEq, Eq, Structural)]
pub struct Rotation {
    pub cos: i64,
    pub sin: i64,
}

/// An anchor: the surveyed global position and orientation of an installation.
#[derive(Clone, Copy, Debug, PartialEq, Eq, Structural)]
pub struct Base {
    pub location: GlobalLocation,
    pub rotation: Rotation,
}

/// A calibrated reading: the global position together with the local reading
/// that it was computed from.
#[derive(Clone, Copy, Debug, PartialEq, Eq, Structural)]
pub struct Location {
    pub global: GlobalLocation,
    pub local: LocalLocation,
}

/// A calibrated reading of one tracked entity.
#[derive(Clone, Copy, Debug, PartialEq, Eq, Structural)]
pub struct ObjectLocation {
    pub id: usize,
    pub location: Location,
}

/// The value lies within `[-limit, limit]`.
pub open spec fn within(v: int, limit: int) -> bool {
    -limit <= v <= limit
}

impl GlobalLocation {
    pub open spec fn wf(self) -> bool {
        within(self.latitude as int, COORD_LIMIT as int) && within(
            self.longitude as int,
            COORD_LIMIT as int,
        )
    }
}

impl LocalLocation {
    pub open spec fn wf(self) -> bool {
        within(self.x as int, COORD_LIMIT as int) && within(self.y as int, COORD_LIMIT as int)
    }
}

impl LocationMetric {
    pub open spec fn wf(self) -> bool {
        within(self.x_m as int, METRIC_LIMIT as int) && within(
            self.y_m as int,
            METRIC_LIMIT as int,
        )
    }
}

impl Rotation {
    /// A unit vector up to the rounding of each component to the nearest part
    /// per billion: `cos^2 + sin^2` lies within `2 * UNIT` of `UNIT^2`.
    pub open spec fn wf(self) -> bool {
        &&& within(self.cos as int, UNIT as int)
        &&& within(self.sin as int, UNIT as int)
        &&& within(
            self.cos * self.cos + self.sin * self.sin - UNIT * UNIT,
            2 * UNIT as int,
        )
    }

    /// The rotation with these components, where they make a unit vector
    /// (see `wf`).
    pub fn new(cos: i64, sin: i64) -> (r: Option<Rotation>)
        ensures
            match r {
                Some(rot) => rot == (Rotation { cos, sin }) && rot.wf(),
                None => !(Rotation { cos, sin }).wf(),
            },
    {
        if cos < -UNIT || cos > UNIT || sin < -UNIT || sin > UNIT {
            return None;
        }
        proof {
            assert(cos * cos <= UNIT * UNIT) by (nonlinear_arith)
                requires
                    -UNIT <= cos <= UNIT,
            ;
            assert(sin * sin <= UNIT * UNIT) by (nonlinear_arith)
                requires
                    -UNIT <= sin <= UNIT,
            ;
            assert(cos * cos >= 0 && sin * sin >= 0) by (nonlinear_arith);
        }
        let norm = cos as i128 * cos as i128 + sin as i128 * sin as i128;
        let unit = UNIT as i128;
        let gap = norm - unit * unit;
        if gap < -2 * unit || gap > 2 * unit {
            return None;
        }
        Some(Rotation { cos, sin })
    }
}

impl Base {
    pub open spec fn wf(self) -> bool {
        self.location.wf() && self.rotation.wf()
    }
}

/// The error radius of a calibrated reading: the local one when it is known
/// (strictly positive), else the anchor's.
pub open spec fn error_fallback(local: u64, base: u64) -> u64 {
    if local > 0 {
        local
    } else {
        base
    }
}

/// Latitude offset of the local offset `(x, y)` turned by `r`.
///
/// With `len = sqrt(x^2 + y^2)` and `phi = atan2(x, y)`, the offset projected on
/// the heading `theta + phi` is `sin(theta + phi) * len = x cos(theta) + y sin(theta)`;
/// the fixed-point result is rounded down.
pub open spec fn delta_latitude(r: Rotation, x: int, y: int) -> int {
    (x * r.cos + y * r.sin) / (UNIT as int)
}

/// Longitude offset of the local offset `(x, y)` turned by `r`:
/// `cos(theta + phi) * len = y cos(theta) - x sin(theta)`, rounded down.
pub open spec fn delta_longitude(r: Rotation, x: int, y: int) -> int {
    (y * r.cos - x * r.sin) / (UNIT as int)
}

/// Nanodegrees spanned on the equator by `mm` millimetres, rounded down.
pub open spec fn metres_to_degrees(mm: int) -> int {
    (mm * NM_NDEG_PER_MM_DEG) / (DEGREE_LENGTH_NM as int)
}

/// Millimetres spanned on the equator by `ndeg` nanodegrees, rounded up.
pub open spec fn degrees_to_metres(ndeg: int) -> int {
    (ndeg * DEGREE_LENGTH_NM + NM_NDEG_PER_MM_DEG - 1) / (NM_NDEG_PER_MM_DEG as int)
}

/// A length scaled by a factor in parts per million, rounded down.
pub open spec fn scaled(v: int, factor: int) -> int {
    (v * factor) / (SCALE_ONE as int)
}

impl Base {
    /// The calibrated reading of `local` against this anchor.
    pub open spec fn spec_add(self, local: LocalLocation) -> Location {
        Location {
            global: GlobalLocation {
                error_m: error_fallback(local.error_m, self.location.error_m),
                latitude: (self.location.latitude + delta_latitude(
                    self.rotation,
                    local.x as int,
                    local.y as int,
                )) as i64,
                longitude: (self.location.longitude + delta_longitude(
                    self.rotation,
                    local.x as int,
                    local.y as int,
                )) as i64,
            },
            local,
        }
    }
}

impl LocationMetric {
    /// This metric offset expressed in nanodegrees.
    pub open spec fn spec_local(self) -> LocalLocation {
        LocalLocation {
            x: metres_to_degrees(self.x_m as int) as i64,
            y: metres_to_degrees(self.y_m as int) as i64,
            error_m: self.error_m,
        }
    }

    /// The scaled metric offset stays within `METRIC_LIMIT`.
    pub open spec fn scale_fits(self, scale: LocationVectorScale) -> bool {
        &&& within(self.x_m * scale.latitude, METRIC_LIMIT * SCALE_ONE)
        &&& within(self.y_m * scale.longitude, METRIC_LIMIT * SCALE_ONE)
    }

    /// This metric offset with each axis multiplied by its factor of `scale`.
    pub open spec fn spec_mul(self, scale: LocationVectorScale) -> LocationMetric {
        LocationMetric {
            x_m: scaled(self.x_m as int, scale.latitude as int) as i64,
            y_m: scaled(self.y_m as int, scale.longitude as int) as i64,
            error_m: self.error_m,
        }
    }
}

/// Bounds of a product and of its quotient by a positive divisor.
proof fn lemma_product_quotient_bound(a: int, b: int, la: int, lb: int, d: int)
    requires
        within(a, la),
        within(b, lb),
        la >= 0,
        lb >= 0,
        d > 0,
    ensures
        within(a * b, la * lb),
        within((a * b) / d, (la * lb) / d + 1),
{
    assert(within(a * b, la * lb)) by (nonlinear_arith)
        requires
            within(a, la),
            within(b, lb),
            la >= 0,
            lb >= 0,
    ;
    vstd::arithmetic::div_mod::lemma_div_is_ordered(a * b, la * lb, d);
    vstd::arithmetic::div_mod::lemma_div_is_ordered(-(la * lb), a * b, d);
    vstd::arithmetic::div_mod::lemma_fundamental_div_mod(la * lb, d);
    vstd::arithmetic::div_mod::lemma_fundamental_div_mod(-(la * lb), d);
    vstd::arithmetic::div_mod::lemma_mod_bound(la * lb, d);
    vstd::arithmetic::div_mod::lemma_mod_bound(-(la * lb), d);
    assert((-(la * lb)) / d >= -((la * lb) / d) - 1) by (nonlinear_arith)
        requires
            d * ((la * lb) / d) + (la * lb) % d == la * lb,
            d * ((-(la * lb)) / d) + (-(la * lb)) % d == -(la * lb),
            0 <= (la * lb) % d < d,
            0 <= (-(la * lb)) % d < d,
            d > 0,
    ;
}

/// Rounds `n / d` down; `d` is positive.
fn floor_div(n: i128, d: i128) -> (q: i128)
    requires
        d > 0,
    ensures
        q == n / d,
{
    match n.checked_div_euclid(d) {
        Some(q) => q,
        None => {
            // never taken: with a positive divisor the quotient lies between
            // zero and `n`, so it fits
            proof {
                vstd::arithmetic::div_mod::lemma_fundamental_div_mod(n as int, d as int);
                vstd::arithmetic::div_mod::lemma_mod_bound(n as int, d as int);
                let q = n as int / d as int;
                let r = n as int % d as int;
                if n >= 0 {
                    assert(0 <= q <= n) by (nonlinear_arith)
                        requires
                            d * q + r == n,
                            0 <= r < d,
                            d > 0,
                            n >= 0,
                    ;
                } else {
                    assert(n <= q < 0) by (nonlinear_arith)
                        requires
                            d * q + r == n,
                            0 <= r < d,
                            d > 0,
                            n < 0,
                    ;
                }
            }
            0
        },
    }
}

impl Base {
    /// Calibrates a local offset against this anchor: the offset is turned by
    /// the anchor's rotation and added to its position. The error radius is the
    /// local one where it is known, else the anchor's; the local reading is kept.
    pub fn add(self, local: LocalLocation) -> (r: Location)
        requires
            self.wf(),
            local.wf(),
        ensures
            r.global.latitude == self.location.latitude + delta_latitude(
                self.rotation,
                local.x as int,
                local.y as int,
            ),
            r.global.longitude == self.location.longitude + delta_longitude(
                self.rotation,
                local.x as int,
                local.y as int,
            ),
            r.global.error_m == error_fallback(local.error_m, self.location.error_m),
            r.local == local,
            r == self.spec_add(local),
    {
        let c = self.rotation.cos as i128;
        let s = self.rotation.sin as i128;
        let x = local.x as i128;
        let y = local.y as i128;
        proof {
            lemma_product_quotient_bound(x as int, c as int, COORD_LIMIT as int, UNIT as int, 1);
            lemma_product_quotient_bound(y as int, s as int, COORD_LIMIT as int, UNIT as int, 1);
            lemma_product_quotient_bound(y as int, c as int, COORD_LIMIT as int, UNIT as int, 1);
            lemma_product_quotient_bound(x as int, s as int, COORD_LIMIT as int, UNIT as int, 1);
        }
        let north = x * c + y * s;
        let east = y * c - x * s;
        let d_lat = floor_div(north, UNIT as i128);
        let d_lon = floor_div(east, UNIT as i128);
        proof {
            let bound = 2 * (COORD_LIMIT as int) * (UNIT as int);
            vstd::arithmetic::div_mod::lemma_div_is_ordered(north as int, bound, UNIT as int);
            vstd::arithmetic::div_mod::lemma_div_is_ordered(-bound, north as int, UNIT as int);
            vstd::arithmetic::div_mod::lemma_div_is_ordered(east as int, bound, UNIT as int);
            vstd::arithmetic::div_mod::lemma_div_is_ordered(-bound, east as int, UNIT as int);
        }
        let error_m = if local.error_m > 0 {
            local.error_m
        } else {
            self.location.error_m
        };
        Location {
            global: GlobalLocation {
                error_m,
                latitude: (self.location.latitude as i128 + d_lat) as i64,
                longitude: (self.location.longitude as i128 + d_lon) as i64,
            },
            local,
        }
    }
}

/// Bound of a metric offset converted to nanodegrees.
proof fn lemma_degree_offset_bound(mm: int)
    requires
        within(mm, METRIC_LIMIT as int),
    ensures
        within(mm * NM_NDEG_PER_MM_DEG, METRIC_LIMIT * NM_NDEG_PER_MM_DEG),
        within(metres_to_degrees(mm), COORD_LIMIT as int),
{
    lemma_product_quotient_bound(
        mm,
        NM_NDEG_PER_MM_DEG as int,
        METRIC_LIMIT as int,
        NM_NDEG_PER_MM_DEG as int,
        DEGREE_LENGTH_NM as int,
    );
    assert((METRIC_LIMIT * NM_NDEG_PER_MM_DEG) / (DEGREE_LENGTH_NM as int) + 1 <= COORD_LIMIT);
}

/// Nanodegrees spanned on the equator by `mm` millimetres, rounded down.
pub fn degree_offset(mm: i64) -> (r: i64)
    requires
        within(mm as int, METRIC_LIMIT as int),
    ensures
        r == metres_to_degrees(mm as int),
        within(r as int, COORD_LIMIT as int),
{
    proof {
        lemma_degree_offset_bound(mm as int);
    }
    floor_div(mm as i128 * NM_NDEG_PER_MM_DEG, DEGREE_LENGTH_NM) as i64
}

/// Millimetres spanned on the equator by `ndeg` nanodegrees, rounded up.
pub fn metre_offset(ndeg: i64) -> (r: i64)
    requires
        within(ndeg as int, COORD_LIMIT as int),
    ensures
        r == degrees_to_metres(ndeg as int),
{
    proof {
        lemma_product_quotient_bound(
            ndeg as int,
            DEGREE_LENGTH_NM as int,
            COORD_LIMIT as int,
            DEGREE_LENGTH_NM as int,
            1,
        );
        let n = ndeg * DEGREE_LENGTH_NM + NM_NDEG_PER_MM_DEG - 1;
        let bound = COORD_LIMIT * DEGREE_LENGTH_NM + NM_NDEG_PER_MM_DEG;
        vstd::arithmetic::div_mod::lemma_div_is_ordered(n, bound, NM_NDEG_PER_MM_DEG as int);
        vstd::arithmetic::div_mod::lemma_div_is_ordered(-bound, n, NM_NDEG_PER_MM_DEG as int);
        assert(bound / (NM_NDEG_PER_MM_DEG as int) <= i64::MAX);
        assert((-bound) / (NM_NDEG_PER_MM_DEG as int) >= i64::MIN);
    }
    floor_div(
        ndeg as i128 * DEGREE_LENGTH_NM + NM_NDEG_PER_MM_DEG - 1,
        NM_NDEG_PER_MM_DEG,
    ) as i64
}

/// A length scaled by a factor in parts per million, rounded down.
fn scale_axis(v: i64, factor: i64) -> (r: i64)
    requires
        within(v * factor, METRIC_LIMIT * SCALE_ONE),
    ensures
        r == scaled(v as int, factor as int),
        within(r as int, METRIC_LIMIT as int),
{
    let n = v as i128 * factor as i128;
    proof {
        let bound = METRIC_LIMIT * SCALE_ONE;
        vstd::arithmetic::div_mod::lemma_div_is_ordered(n as int, bound, SCALE_ONE as int);
        vstd::arithmetic::div_mod::lemma_div_is_ordered(-bound, n as int, SCALE_ONE as int);
        vstd::arithmetic::div_mod::lemma_div_multiples_vanish(METRIC_LIMIT as int, SCALE_ONE as int);
        vstd::arithmetic::div_mod::lemma_div_multiples_vanish(-METRIC_LIMIT, SCALE_ONE as int);
    }
    floor_div(n, SCALE_ONE as i128) as i64
}

impl LocationMetric {
    /// This metric offset expressed in nanodegrees, each axis converted with the
    /// mean Earth radius and rounded down; the error radius is kept.
    pub fn to_local(self) -> (r: LocalLocation)
        requires
            self.wf(),
        ensures
            r == self.spec_local(),
            r.wf(),
    {
        LocalLocation {
            x: degree_offset(self.x_m),
            y: degree_offset(self.y_m),
            error_m: self.error_m,
        }
    }

    /// Multiplies each axis by its factor of `scale`, rounding down, and keeps
    /// the error radius.
    pub fn mul(self, scale: LocationVectorScale) -> (r: LocationMetric)
        requires
            self.scale_fits(scale),
        ensures
            r == self.spec_mul(scale),
            r.wf(),
    {
        LocationMetric {
            x_m: scale_axis(self.x_m, scale.latitude),
            y_m: scale_axis(self.y_m, scale.longitude),
            error_m: self.error_m,
        }
    }
}

impl Base {
    /// Calibrates a metric offset against this anchor: the offset is converted
    /// to nanodegrees, then turned and added as by `add`.
    pub fn add_metric(self, metric: LocationMetric) -> (r: Location)
        requires
            self.wf(),
            metric.wf(),
        ensures
            r == self.spec_add(metric.spec_local()),
    {
        self.add(metric.to_local())
    }
}

/// The calibrated error radius is the local one whenever that is positive, and
/// the anchor's whenever the local one is zero.
pub proof fn lemma_error_fallback(base: Base, local: LocalLocation)
    ensures
        local.error_m > 0 ==> base.spec_add(local).global.error_m == local.error_m,
        local.error_m == 0 ==> base.spec_add(local).global.error_m == base.location.error_m,
{
}

/// Scaling by one on both axes leaves a metric offset, its error radius
/// included, unchanged.
pub proof fn lemma_unit_scale_identity(metric: LocationMetric)
    ensures
        metric.scale_fits(LocationVectorScale { latitude: SCALE_ONE, longitude: SCALE_ONE })
            <==> metric.wf(),
        metric.spec_mul(LocationVectorScale { latitude: SCALE_ONE, longitude: SCALE_ONE })
            == metric,
{
    vstd::arithmetic::div_mod::lemma_div_multiples_vanish(metric.x_m as int, SCALE_ONE as int);
    vstd::arithmetic::div_mod::lemma_div_multiples_vanish(metric.y_m as int, SCALE_ONE as int);
    assert(within(metric.x_m * SCALE_ONE, METRIC_LIMIT * SCALE_ONE) <==> within(
        metric.x_m as int,
        METRIC_LIMIT as int,
    )) by (nonlinear_arith);
    assert(within(metric.y_m * SCALE_ONE, METRIC_LIMIT * SCALE_ONE) <==> within(
        metric.y_m as int,
        METRIC_LIMIT as int,
    )) by (nonlinear_arith);
}

/// Converting a metric offset to nanodegrees and back gives the same offset.
pub proof fn lemma_metric_round_trip(mm: int)
    ensures
        degrees_to_metres(metres_to_degrees(mm)) == mm,
{
    let n = NM_NDEG_PER_MM_DEG as int;
    let d = DEGREE_LENGTH_NM as int;
    let deg = metres_to_degrees(mm);
    let back = degrees_to_metres(deg);
    vstd::arithmetic::div_mod::lemma_fundamental_div_mod(mm * n, d);
    vstd::arithmetic::div_mod::lemma_mod_bound(mm * n, d);
    vstd::arithmetic::div_mod::lemma_fundamental_div_mod(deg * d + n - 1, n);
    vstd::arithmetic::div_mod::lemma_mod_bound(deg * d + n - 1, n);
    let r1 = (mm * n) % d;
    let r2 = (deg * d + n - 1) % n;
    assert(n * (back - mm) == n - 1 - r1 - r2) by (nonlinear_arith)
        requires
            d * deg + r1 == mm * n,
            n * back + r2 == deg * d + n - 1,
    ;
    assert(back - mm == 0) by (nonlinear_arith)
        requires
            n * (back - mm) == n - 1 - r1 - r2,
            0 <= r1 < d,
            0 <= r2 < n,
            0 < d < n,
    ;
}

/// With no rotation, a local offset moves the latitude by its first component
/// and the longitude by its second.
pub proof fn lemma_unrotated_offset(base: Base, local: LocalLocation)
    requires
        base.wf(),
        local.wf(),
        base.rotation == (Rotation { cos: UNIT, sin: 0 }),
    ensures
        base.spec_add(local).global.latitude == base.location.latitude + local.x,
        base.spec_add(local).global.longitude == base.location.longitude + local.y,
{
    let x = local.x as int;
    let y = local.y as int;
    assert(x * UNIT + y * 0 == UNIT * x) by (nonlinear_arith);
    assert(y * UNIT - x * 0 == UNIT * y) by (nonlinear_arith);
    vstd::arithmetic::div_mod::lemma_div_multiples_vanish(x, UNIT as int);
    vstd::arithmetic::div_mod::lemma_div_multiples_vanish(y, UNIT as int);
}

/// With no rotation, an offset along the first axis alone moves the latitude by
/// its converted length and leaves the longitude unchanged.
pub proof fn lemma_unrotated_first_axis(base: Base, metric: LocationMetric)
    requires
        base.wf(),
        metric.wf(),
        base.rotation == (Rotation { cos: UNIT, sin: 0 }),
        metric.y_m == 0,
    ensures
        base.spec_add(metric.spec_local()).global.latitude == base.location.latitude
            + metres_to_degrees(metric.x_m as int),
        base.spec_add(metric.spec_local()).global.longitude == base.location.longitude,
{
    let x = metres_to_degrees(metric.x_m as int);
    lemma_degree_offset_bound(metric.x_m as int);
    assert(metres_to_degrees(0) == 0);
    vstd::arithmetic::div_mod::lemma_div_multiples_vanish(x, UNIT as int);
    assert(x * UNIT + 0 * 0 == UNIT * x) by (nonlinear_arith);
    assert(0 * UNIT - x * 0 == 0) by (nonlinear_arith);
}

} // verus!
