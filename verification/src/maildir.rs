//! The maildir mail source: a handle on an on-disk maildir. Reading
//! and moving messages is file I/O and happens outside the library;
//! the handle is constructed here.

use vstd::prelude::*;

verus! {

#[verifier::external_type_specification]
#[verifier::external_body]
pub struct ExMaildir(maildir::Maildir);

/// The maildir this service ingests replies from.
pub struct DaylogMaildir {
    maildir: maildir::Maildir,
}

impl DaylogMaildir {
    /// Relies on `Maildir::from(PathBuf)`: it only records the root
    /// path; no file is touched.
    #[verifier::external_body]
    pub fn open(path: &str) -> Self {
        Self { maildir: maildir::Maildir::from(std::path::PathBuf::from(path)) }
    }

    /// Relies on nothing: hands out the wrapped handle for the caller
    /// that performs the actual directory I/O.
    #[verifier::external_body]
    pub fn inner(&self) -> &maildir::Maildir {
        &self.maildir
    }
}

} // verus!
