//! The typed configuration model: listening port, optional TLS material,
//! optional static-file rule, optional ordered proxy rules. Reading and
//! parsing the configuration file happens outside the library; the library
//! owns the one normalization step, resolving relative filesystem paths
//! against the configuration file's parent directory.

use vstd::prelude::*;
use crate::text::push_char;

verus! {

/// TLS material: certificate and private-key file paths.
pub struct Secure {
    pub key: String,
    pub cert: String,
}

/// The static-file rule: root directory, mount path prefix, and the single
/// fallback file served when the requested path is absent.
pub struct FileServer {
    pub file_path: String,
    pub route_path: String,
    pub fallback_file: String,
}

/// One proxy rule: a route pattern and the upstream base URL it forwards to.
pub struct Proxy {
    pub route: String,
    pub target: String,
}

/// The whole server configuration, immutable after load.
pub struct Config {
    pub port: u16,
    pub https_config: Option<Secure>,
    pub file_server: Option<FileServer>,
    pub proxies: Option<Vec<Proxy>>,
}

/// A simple named record from the same configuration schema.
pub struct Person {
    pub first_name: String,
    pub last_name: String,
}

/// A path is absolute when it starts with the path separator.
pub open spec fn is_absolute_path(s: Seq<char>) -> bool {
    s.len() > 0 && s[0] == '/'
}

/// Joining a directory with a path: an absolute path stands as it is; a
/// relative one is appended to the directory, with a separator added only
/// when the directory does not already end in one.
pub open spec fn spec_join_path(parent: Seq<char>, rel: Seq<char>) -> Seq<char> {
    if is_absolute_path(rel) {
        rel
    } else if parent.len() == 0 {
        rel
    } else if parent.last() == '/' {
        parent + rel
    } else {
        parent + seq!['/'] + rel
    }
}

/// Resolving a relative path against an absolute directory yields an
/// absolute path, and resolving is idempotent: reapplied to an
/// already-absolute result it does not double-join.
pub proof fn lemma_join_path_idempotent(parent: Seq<char>, rel: Seq<char>)
    requires
        is_absolute_path(parent),
    ensures
        is_absolute_path(spec_join_path(parent, rel)),
        spec_join_path(parent, spec_join_path(parent, rel)) == spec_join_path(parent, rel),
{
    if !is_absolute_path(rel) {
        if parent.last() == '/' {
            assert((parent + rel)[0] == parent[0]);
        } else {
            assert((parent + seq!['/'] + rel)[0] == parent[0]);
        }
    }
}

/// Resolves one path against the configuration file's parent directory.
pub fn resolve_path(parent: &str, rel: &str) -> (r: String)
    ensures
        r@ == spec_join_path(parent@, rel@),
{
    let rel_len = rel.unicode_len();
    if rel_len > 0 && rel.get_char(0) == '/' {
        return rel.to_owned();
    }
    let parent_len = parent.unicode_len();
    if parent_len == 0 {
        return rel.to_owned();
    }
    let mut out = parent.to_owned();
    if parent.get_char(parent_len - 1) != '/' {
        push_char(&mut out, '/');
        proof {
            assert(out@ =~= parent@ + seq!['/']);
        }
    }
    out.append(rel);
    out
}

impl Config {
    /// Resolves every relative filesystem path in the TLS material and the
    /// static-file rule against the configuration file's parent directory,
    /// exactly once. The mount path prefix is a URL path, not a filesystem
    /// path, and stays as it is; so do the port and the proxy rules.
    pub fn resolved(self, parent: &str) -> (r: Config)
        ensures
            r.port == self.port,
            r.proxies == self.proxies,
            r.https_config is Some <==> self.https_config is Some,
            self.https_config matches Some(s) ==> r.https_config matches Some(t)
                && t.key@ == spec_join_path(parent@, s.key@)
                && t.cert@ == spec_join_path(parent@, s.cert@),
            r.file_server is Some <==> self.file_server is Some,
            self.file_server matches Some(f) ==> r.file_server matches Some(g)
                && g.file_path@ == spec_join_path(parent@, f.file_path@)
                && g.fallback_file@ == spec_join_path(parent@, f.fallback_file@)
                && g.route_path == f.route_path,
    {
        let https_config = match self.https_config {
            None => None,
            Some(s) => Some(
                Secure {
                    key: resolve_path(parent, s.key.as_str()),
                    cert: resolve_path(parent, s.cert.as_str()),
                },
            ),
        };
        let file_server = match self.file_server {
            None => None,
            Some(f) => Some(
                FileServer {
                    file_path: resolve_path(parent, f.file_path.as_str()),
                    route_path: f.route_path,
                    fallback_file: resolve_path(parent, f.fallback_file.as_str()),
                },
            ),
        };
        Config { port: self.port, https_config, file_server, proxies: self.proxies }
    }
}

} // verus!
