use vstd::prelude::*;

verus! {

/// Why a request parameter was refused.
#[derive(Clone, Copy, Debug, PartialEq, Eq, Structural)]
pub enum ParamReason {
    /// Only one of `lon` and `lat` was given.
    IncompleteCoord,
    /// The latitude lies outside [-90, 90] degrees.
    InvalidLatitude,
    /// The longitude lies outside [-180, 180] degrees.
    InvalidLongitude,
}

/// Why a geometry was refused as a shape filter.
#[derive(Clone, Copy, Debug, PartialEq, Eq, Structural)]
pub enum ShapeReason {
    /// The document is not a single feature.
    OnlyFeature,
    /// The feature carries no geometry.
    NoGeometry,
    /// The geometry is not a polygon.
    OnlyPolygon,
    /// The polygon does not have exactly one ring.
    PolygonWithHoles,
}

/// Failure of the query layer.
#[derive(Clone, Copy, Debug, PartialEq, Eq, Structural)]
pub enum BragiError {
    InvalidParam(ParamReason),
    InvalidShape(ShapeReason),
}

/// Failure of the import of one raw record.
#[derive(Clone, Copy, Debug, PartialEq, Eq, Structural)]
pub enum ImportError {
    /// The composite identifier has fewer than ten characters.
    MalformedIdentifier,
}

impl ParamReason {
    pub open spec fn message_spec(self) -> Seq<char> {
        match self {
            ParamReason::IncompleteCoord =>
                "you should provide a 'lon' AND a 'lat' parameter if you provide one of them"@,
            ParamReason::InvalidLatitude => "lat is not a valid latitude"@,
            ParamReason::InvalidLongitude => "lon is not a valid longitude"@,
        }
    }

    /// The text shown to the caller.
    pub fn message(&self) -> (r: &'static str)
        ensures
            r@ == self.message_spec(),
    {
        match self {
            ParamReason::IncompleteCoord =>
                "you should provide a 'lon' AND a 'lat' parameter if you provide one of them",
            ParamReason::InvalidLatitude => "lat is not a valid latitude",
            ParamReason::InvalidLongitude => "lon is not a valid longitude",
        }
    }
}

impl ShapeReason {
    pub open spec fn message_spec(self) -> Seq<char> {
        match self {
            ShapeReason::OnlyFeature => "only feature is supported"@,
            ShapeReason::NoGeometry => "no geometry"@,
            ShapeReason::OnlyPolygon => "only polygon are supported"@,
            ShapeReason::PolygonWithHoles => "only polygon without holes are supported"@,
        }
    }

    /// The text shown to the caller.
    pub fn message(&self) -> (r: &'static str)
        ensures
            r@ == self.message_spec(),
    {
        match self {
            ShapeReason::OnlyFeature => "only feature is supported",
            ShapeReason::NoGeometry => "no geometry",
            ShapeReason::OnlyPolygon => "only polygon are supported",
            ShapeReason::PolygonWithHoles => "only polygon without holes are supported",
        }
    }
}

impl BragiError {
    pub open spec fn message_spec(self) -> Seq<char> {
        match self {
            BragiError::InvalidParam(p) => p.message_spec(),
            BragiError::InvalidShape(s) => s.message_spec(),
        }
    }

    /// The text shown to the caller.
    pub fn message(&self) -> (r: &'static str)
        ensures
            r@ == self.message_spec(),
    {
        match self {
            BragiError::InvalidParam(p) => p.message(),
            BragiError::InvalidShape(s) => s.message(),
        }
    }
}

} // verus!
