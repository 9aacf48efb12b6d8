//! Parsing of the variable type declarations found in flattened serializers (such as
//! `CHandle< CBaseAnimatingActivity >[24]`).

pub mod var_type;
