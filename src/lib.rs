//! Planar geometry: the float-free structure behind polygon metrics and
//! affine-transform composition, with its laws stated over exact arithmetic.
pub mod compose;
pub mod ring;
pub mod shoelace;
