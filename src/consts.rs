use vstd::prelude::*;

verus! {

/// Name of the series that holds error radii.
pub const METRIC_ERROR_M: &'static str = "ulagbulag_footprint_error_m";

/// Name of the series that holds latitudes.
pub const METRIC_LATITUDE: &'static str = "ulagbulag_footprint_latitude";

/// Name of the series that holds longitudes.
pub const METRIC_LONGITUDE: &'static str = "ulagbulag_footprint_longitude";

/// Label of a series that names the kind of the tracked entity.
pub const LABEL_KIND: &'static str = "footprint_kind";

/// Label of a series that names the tracked entity.
pub const LABEL_NAME: &'static str = "footprint_name";

/// Label of a series that names the namespace of the tracked entity.
pub const LABEL_NAMESPACE: &'static str = "footprint_namespace";

} // verus!
