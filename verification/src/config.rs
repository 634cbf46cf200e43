//! Service configuration: where the database, secret key and incoming
//! mail live, and the address outgoing mail claims to come from.

use vstd::prelude::*;

verus! {

/// The configured mail source.
#[derive(Debug, Clone, PartialEq, Eq)]
pub enum IncomingMailConfig {
    /// A maildir at the given path.
    Maildir { path: String },
}

/// The service configuration, as read from the configuration file.
#[derive(Debug, Clone, PartialEq, Eq)]
pub struct Config {
    pub database_path: String,
    pub secret_key_path: String,
    pub return_addr: String,
    pub incoming_mail: IncomingMailConfig,
}

/// A path made absolute against a base directory: an absolute path is
/// kept; a relative one is joined to the base with a separator unless
/// the base already ends in one.
pub open spec fn spec_resolved(p: Seq<char>, base: Seq<char>) -> Seq<char> {
    if p.len() > 0 && p[0] == '/' {
        p
    } else if base.len() > 0 && base.last() == '/' {
        base + p
    } else {
        base + seq!['/'] + p
    }
}

impl Config {
    /// The path of the maildir, whatever the source kind.
    pub open spec fn spec_maildir_path(self) -> Seq<char> {
        match self.incoming_mail {
            IncomingMailConfig::Maildir { path } => path@,
        }
    }

    /// Make the configured paths absolute against the directory the
    /// configuration file was found in.
    pub fn resolve_paths(&mut self, base_path: &str)
        ensures
            final(self).database_path@ == spec_resolved(old(self).database_path@, base_path@),
            final(self).secret_key_path@ == spec_resolved(old(self).secret_key_path@, base_path@),
            final(self).return_addr == old(self).return_addr,
            final(self).spec_maildir_path() == spec_resolved(
                old(self).spec_maildir_path(),
                base_path@,
            ),
    {
        Self::resolve_path(&mut self.database_path, base_path);
        Self::resolve_path(&mut self.secret_key_path, base_path);
        match &mut self.incoming_mail {
            IncomingMailConfig::Maildir { path } => {
                Self::resolve_path(path, base_path);
            }
        }
    }

    /// Resolve one path against the base directory.
    fn resolve_path(path: &mut String, base_path: &str)
        ensures
            final(path)@ == spec_resolved(old(path)@, base_path@),
    {
        let plen = path.as_str().unicode_len();
        if plen > 0 && path.as_str().get_char(0) == '/' {
            return;
        }
        let blen = base_path.unicode_len();
        let mut out = String::new();
        out.append(base_path);
        if !(blen > 0 && base_path.get_char(blen - 1) == '/') {
            out.append("/");
            proof {
                reveal_strlit("/");
            }
        }
        out.append(path.as_str());
        proof {
            assert(out@ =~= spec_resolved(old(path)@, base_path@));
        }
        *path = out;
    }

    /// Where the running service listens for reload requests: a named
    /// pipe next to the database.
    pub fn control_path(&self) -> (r: String)
        ensures
            r@ == self.database_path@ + ".control"@,
    {
        let mut out = String::new();
        out.append(self.database_path.as_str());
        out.append(".control");
        out
    }
}

} // verus!
