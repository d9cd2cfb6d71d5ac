//! Extraction of the machine type, subsystem and entry-point RVA from the
//! header region of a Windows Portable Executable image, together with a
//! small helper that normalizes wine version tags.

pub mod pe;
pub mod tag;
