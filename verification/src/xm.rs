//! Extended modules: the header of a module file and the notes of its
//! patterns.

pub mod xm_header;
