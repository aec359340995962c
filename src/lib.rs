//! Verified core of an AWS profile and parameter manager: the profile and
//! parameter domain models, the decoding of remote parameter records, the
//! chunked batch loading of parameters, and the edits applied to the two
//! profile files.

pub mod configuration;
pub mod credentials;
pub mod ordering;
pub mod parameter;
pub mod profile;
pub mod profile_files;
pub mod remote;
pub mod secure_string;
