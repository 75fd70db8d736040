//! Proxy configuration and per-call transport selection. The scheme of
//! a proxy is inferred from its URL prefix when not given explicitly;
//! the choice of transport is a pure decision here, while clients are
//! built and cached outside the verified core.

use vstd::prelude::*;
use crate::text::{ascii_lower, is_prefix_of, starts_with, str_eq_ignore_ascii_case};

verus! {

/// The kind of proxy a call goes through.
#[derive(Debug, Clone, Copy, PartialEq, Eq, Structural)]
pub enum ProxyType {
    /// An HTTP or HTTPS proxy.
    Http,
    /// A SOCKS5 proxy.
    Socks5,
}

impl ProxyType {
    /// Parses a proxy type name, ignoring ASCII case: `http` or
    /// `socks5`.
    pub fn from_str(s: &str) -> (r: Option<ProxyType>)
        ensures
            r == (if ascii_lower(s@) == "http"@ {
                Some(ProxyType::Http)
            } else if ascii_lower(s@) == "socks5"@ {
                Some(ProxyType::Socks5)
            } else {
                None::<ProxyType>
            }),
    {
        proof {
            reveal_strlit("http");
            reveal_strlit("socks5");
            assert(ascii_lower("http"@) =~= "http"@);
            assert(ascii_lower("socks5"@) =~= "socks5"@);
        }
        if str_eq_ignore_ascii_case(s, "http") {
            Some(ProxyType::Http)
        } else if str_eq_ignore_ascii_case(s, "socks5") {
            Some(ProxyType::Socks5)
        } else {
            None
        }
    }

    /// The type's lower-case name.
    pub open spec fn spec_name(self) -> Seq<char> {
        match self {
            ProxyType::Http => "http"@,
            ProxyType::Socks5 => "socks5"@,
        }
    }

    /// Returns the type's lower-case name.
    pub fn as_str(&self) -> (r: &'static str)
        ensures
            r@ == self.spec_name(),
    {
        match self {
            ProxyType::Http => "http",
            ProxyType::Socks5 => "socks5",
        }
    }
}

/// How a client or one call overrides the transport: a bare proxy URL,
/// a full proxy description, or an explicit opt-out.
#[derive(Debug, Clone, PartialEq, Eq)]
pub enum ProxyConfig {
    /// A proxy URL whose type is inferred from its prefix.
    Simple(String),
    /// A full proxy description.
    Full {
        proxy_type: Option<ProxyType>,
        url: String,
        username: Option<String>,
        password: Option<String>,
        no_proxy: Option<String>,
    },
    /// Proxying switched off for this scope.
    Disabled(bool),
}

/// The proxy type a URL's prefix announces: `http://` or `https://`
/// mean an HTTP proxy, `socks5://` a SOCKS5 proxy.
pub open spec fn spec_url_proxy_type(url: Seq<char>) -> Option<ProxyType> {
    if is_prefix_of("http://"@, url) || is_prefix_of("https://"@, url) {
        Some(ProxyType::Http)
    } else if is_prefix_of("socks5://"@, url) {
        Some(ProxyType::Socks5)
    } else {
        None
    }
}

impl ProxyConfig {
    /// The proxy type this configuration denotes: the explicit type if
    /// any, else the URL prefix's; a full configuration with an
    /// unrecognized prefix falls back to HTTP, a bare URL does not.
    pub open spec fn spec_infer(self) -> Option<ProxyType> {
        match self {
            ProxyConfig::Simple(url) => spec_url_proxy_type(url@),
            ProxyConfig::Full { proxy_type, url, .. } => match proxy_type {
                Some(t) => Some(t),
                None => match spec_url_proxy_type(url@) {
                    Some(t) => Some(t),
                    None => Some(ProxyType::Http),
                },
            },
            ProxyConfig::Disabled(_) => None,
        }
    }

    /// Returns the proxy URL, if the configuration has one.
    pub fn url(&self) -> (r: Option<&String>)
        ensures
            match self {
                ProxyConfig::Simple(u) => r is Some && r->Some_0 == u,
                ProxyConfig::Full { .. } => r is Some && r->Some_0 == self->Full_url,
                ProxyConfig::Disabled(_) => r is None,
            },
    {
        match self {
            ProxyConfig::Simple(url) => Some(url),
            ProxyConfig::Full { url, .. } => Some(url),
            ProxyConfig::Disabled(_) => None,
        }
    }

    /// Returns the explicitly configured proxy type, if any.
    pub fn proxy_type(&self) -> (r: Option<&ProxyType>)
        ensures
            match self {
                ProxyConfig::Full { .. } => ((r is Some <==> self->Full_proxy_type is Some) && (r
                    is Some ==> *r->Some_0 == self->Full_proxy_type->Some_0)),
                _ => r is None,
            },
    {
        match self {
            ProxyConfig::Full { proxy_type, .. } => proxy_type.as_ref(),
            _ => None,
        }
    }

    /// Returns the proxy username, if one is configured.
    pub fn username(&self) -> (r: Option<&String>)
        ensures
            match self {
                ProxyConfig::Full { .. } => ((r is Some <==> self->Full_username is Some) && (r
                    is Some ==> *r->Some_0 == self->Full_username->Some_0)),
                _ => r is None,
            },
    {
        match self {
            ProxyConfig::Full { username, .. } => username.as_ref(),
            _ => None,
        }
    }

    /// Returns the proxy password, if one is configured.
    pub fn password(&self) -> (r: Option<&String>)
        ensures
            match self {
                ProxyConfig::Full { .. } => ((r is Some <==> self->Full_password is Some) && (r
                    is Some ==> *r->Some_0 == self->Full_password->Some_0)),
                _ => r is None,
            },
    {
        match self {
            ProxyConfig::Full { password, .. } => password.as_ref(),
            _ => None,
        }
    }

    /// Returns the domains excluded from proxying, if configured.
    pub fn no_proxy(&self) -> (r: Option<&String>)
        ensures
            match self {
                ProxyConfig::Full { .. } => ((r is Some <==> self->Full_no_proxy is Some) && (r
                    is Some ==> *r->Some_0 == self->Full_no_proxy->Some_0)),
                _ => r is None,
            },
    {
        match self {
            ProxyConfig::Full { no_proxy, .. } => no_proxy.as_ref(),
            _ => None,
        }
    }

    /// Returns whether proxying is explicitly disabled.
    pub fn is_disabled(&self) -> (r: bool)
        ensures
            r == (self is Disabled),
    {
        match self {
            ProxyConfig::Disabled(_) => true,
            _ => false,
        }
    }

    /// Infers the proxy type: the explicit one, else the one the URL
    /// prefix announces; a full configuration defaults to HTTP, a bare
    /// URL with an unrecognized prefix to nothing.
    pub fn infer_proxy_type(&self) -> (r: Option<ProxyType>)
        ensures
            r == self.spec_infer(),
    {
        match self {
            ProxyConfig::Simple(url) => Self::url_proxy_type(url.as_str()),
            ProxyConfig::Full { proxy_type, url, .. } => match proxy_type {
                Some(t) => Some(*t),
                None => match Self::url_proxy_type(url.as_str()) {
                    Some(t) => Some(t),
                    None => Some(ProxyType::Http),
                },
            },
            ProxyConfig::Disabled(_) => None,
        }
    }

    /// Returns the proxy type a URL's prefix announces.
    fn url_proxy_type(url: &str) -> (r: Option<ProxyType>)
        ensures
            r == spec_url_proxy_type(url@),
    {
        if starts_with(url, "http://") || starts_with(url, "https://") {
            Some(ProxyType::Http)
        } else if starts_with(url, "socks5://") {
            Some(ProxyType::Socks5)
        } else {
            None
        }
    }
}

/// The transport one call goes through, resolved from an optional
/// override: the client's own transport, a proxy-free one, or a proxy
/// with its inferred type and credentials.
#[derive(Debug, Clone, PartialEq, Eq)]
pub enum TransportChoice {
    /// Use the client's configured transport.
    ClientDefault,
    /// Use a transport with proxying switched off.
    NoProxy,
    /// Use the described proxy.
    Proxied {
        proxy_type: ProxyType,
        url: String,
        username: Option<String>,
        password: Option<String>,
        no_proxy: Option<String>,
    },
}

/// Resolves the effective transport for one call. No override keeps the
/// client default; an explicit opt-out disables proxying; a proxy
/// configuration yields its URL, credentials and inferred type, and is
/// an error only for a bare URL whose scheme cannot be inferred.
pub fn select_transport(override_config: &Option<ProxyConfig>) -> (r: Result<
    TransportChoice,
    String,
>)
    ensures
        match override_config {
            None => r is Ok && r->Ok_0 == TransportChoice::ClientDefault,
            Some(cfg) => match cfg {
                ProxyConfig::Disabled(_) => r is Ok && r->Ok_0 == TransportChoice::NoProxy,
                ProxyConfig::Simple(url) => {
                    match spec_url_proxy_type(url@) {
                        Some(t) => r is Ok && r->Ok_0 == (TransportChoice::Proxied {
                            proxy_type: t,
                            url: *url,
                            username: None,
                            password: None,
                            no_proxy: None,
                        }),
                        None => r is Err,
                    }
                },
                ProxyConfig::Full { url, username, password, no_proxy, .. } => r is Ok && r->Ok_0
                    == (TransportChoice::Proxied {
                    proxy_type: cfg.spec_infer()->Some_0,
                    url: *url,
                    username: *username,
                    password: *password,
                    no_proxy: *no_proxy,
                }),
            },
        },
{
    match override_config {
        None => Ok(TransportChoice::ClientDefault),
        Some(cfg) => match cfg {
            ProxyConfig::Disabled(_) => Ok(TransportChoice::NoProxy),
            ProxyConfig::Simple(url) => match ProxyConfig::url_proxy_type(url.as_str()) {
                Some(t) => Ok(
                    TransportChoice::Proxied {
                        proxy_type: t,
                        url: url.clone(),
                        username: None,
                        password: None,
                        no_proxy: None,
                    },
                ),
                None => Err(
                    "cannot infer proxy type; use an http://, https:// or socks5:// URL or give the type explicitly".to_owned(),
                ),
            },
            ProxyConfig::Full { url, username, password, no_proxy, .. } => {
                let t: ProxyType = match cfg.infer_proxy_type() {
                    Some(t) => t,
                    None => ProxyType::Http,
                };
                Ok(
                    TransportChoice::Proxied {
                        proxy_type: t,
                        url: url.clone(),
                        username: username.clone(),
                        password: password.clone(),
                        no_proxy: no_proxy.clone(),
                    },
                )
            },
        },
    }
}

} // verus!
