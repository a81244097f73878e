//! Module specifier resolution of the HTTP ES-module loader: which
//! specifiers are URLs, which are resolved against the page or the importing
//! module, and which are refused.
use vstd::prelude::*;

use crate::text::{is_prefix, starts_with};
use crate::urls::{url_join, url_join_spec, UrlJoinError};

verus! {

/// Why a specifier could not be resolved.
#[derive(Debug, Clone, Copy, PartialEq, Eq, Structural)]
pub enum ResolveError {
    /// The base URL does not parse.
    InvalidBase,
    /// The specifier cannot be resolved against the base.
    JoinFailed,
    /// A bare specifier (`lodash`): import maps are not supported.
    BareSpecifier,
}

/// How a specifier resolves, given the URL it is resolved against.
pub open spec fn resolve_spec(specifier: Seq<char>, base: Seq<char>) -> Result<Seq<char>, ResolveError> {
    if is_prefix("http://"@, specifier) || is_prefix("https://"@, specifier) {
        Ok(specifier)
    } else if is_prefix("//"@, specifier) {
        Ok("https:"@ + specifier)
    } else if is_prefix("./"@, specifier) || is_prefix("../"@, specifier) || is_prefix("/"@, specifier) {
        match url_join_spec(base, specifier) {
            Ok(u) => Ok(u),
            Err(UrlJoinError::InvalidBase) => Err(ResolveError::InvalidBase),
            Err(UrlJoinError::JoinFailed) => Err(ResolveError::JoinFailed),
        }
    } else {
        Err(ResolveError::BareSpecifier)
    }
}

/// HTTP-based module loader state: the base URL of the current page.
pub struct HttpModuleLoader {
    base_url: String,
}

impl HttpModuleLoader {
    pub closed spec fn base(&self) -> Seq<char> {
        self.base_url@
    }

    /// A loader for a page at `base_url`.
    pub fn new(base_url: &str) -> (l: Self)
        ensures
            l.base() == base_url@,
    {
        HttpModuleLoader { base_url: base_url.to_owned() }
    }

    /// Update the base URL (on navigation).
    pub fn set_base_url(&mut self, url: &str)
        ensures
            final(self).base() == url@,
    {
        self.base_url = url.to_owned();
    }

    /// The base URL.
    pub fn base_url(&self) -> (r: &str)
        ensures
            r@ == self.base(),
    {
        self.base_url.as_str()
    }

    /// Resolve a module specifier to an absolute URL: absolute URLs stay,
    /// protocol-relative ones get `https:`, relative and root-relative paths
    /// are resolved against the importing module (or the page), and bare
    /// specifiers are refused.
    pub fn resolve_specifier(&self, specifier: &str, referrer_url: Option<&str>) -> (r: Result<String, ResolveError>)
        ensures
            match (r, resolve_spec(specifier@, match referrer_url {
                Some(u) => u@,
                None => self.base(),
            })) {
                (Ok(a), Ok(b)) => a@ == b,
                (Err(e), Err(f)) => e == f,
                _ => false,
            },
    {
        if starts_with(specifier, "http://") || starts_with(specifier, "https://") {
            return Ok(specifier.to_owned());
        }
        if starts_with(specifier, "//") {
            let mut s = "https:".to_owned();
            s.append(specifier);
            return Ok(s);
        }
        if starts_with(specifier, "./") || starts_with(specifier, "../") || starts_with(specifier, "/") {
            let base = match referrer_url {
                Some(u) => u,
                None => self.base_url.as_str(),
            };
            return match url_join(base, specifier) {
                Ok(u) => Ok(u),
                Err(UrlJoinError::InvalidBase) => Err(ResolveError::InvalidBase),
                Err(UrlJoinError::JoinFailed) => Err(ResolveError::JoinFailed),
            };
        }
        Err(ResolveError::BareSpecifier)
    }
}


/// An absolute `http://` or `https://` specifier resolves to itself,
/// unchanged, whatever URL it is resolved against.
pub proof fn law_absolute_specifier_kept(specifier: Seq<char>, base: Seq<char>, other_base: Seq<char>)
    ensures
        is_prefix("http://"@, specifier) ==> resolve_spec(specifier, base) == Ok::<Seq<char>, ResolveError>(
            specifier,
        ),
        is_prefix("https://"@, specifier) ==> resolve_spec(specifier, base) == Ok::<Seq<char>, ResolveError>(
            specifier,
        ),
        is_prefix("http://"@, specifier) || is_prefix("https://"@, specifier) ==> resolve_spec(specifier, base)
            == resolve_spec(specifier, other_base),
{
}

} // verus!
