//! The parts of a URL that decide what state goes with a request to it.
use crate::text::same_text;
use vstd::prelude::*;

verus! {

/// The host of a URL.
pub enum Host {
    /// A name.
    Domain(String),
    /// The text of an address.
    Address(String),
}

/// What a `Host` stands for.
pub enum HostModel {
    Domain(Seq<char>),
    Address(Seq<char>),
}

impl View for Host {
    type V = HostModel;

    open spec fn view(&self) -> HostModel {
        match self {
            Host::Domain(name) => HostModel::Domain(name@),
            Host::Address(text) => HostModel::Address(text@),
        }
    }
}

/// A URL.
pub struct ServoUrl {
    pub scheme: String,
    pub host: Option<Host>,
    pub path: String,
}

/// What a `ServoUrl` stands for.
pub struct UrlModel {
    pub scheme: Seq<char>,
    pub host: Option<HostModel>,
    pub path: Seq<char>,
}

impl View for ServoUrl {
    type V = UrlModel;

    open spec fn view(&self) -> UrlModel {
        UrlModel {
            scheme: self.scheme@,
            host: match self.host {
                Some(host) => Some(host@),
                None => None,
            },
            path: self.path@,
        }
    }
}

impl UrlModel {
    /// The name of the host, where it has one.
    pub open spec fn domain(self) -> Option<Seq<char>> {
        match self.host {
            Some(HostModel::Domain(name)) => Some(name),
            _ => None,
        }
    }

    /// The text of the host, empty where there is none.
    pub open spec fn host_text(self) -> Seq<char> {
        match self.host {
            Some(HostModel::Domain(name)) => name,
            Some(HostModel::Address(text)) => text,
            None => ""@,
        }
    }

    /// Whether what goes over the URL is encrypted.
    pub open spec fn is_secure(self) -> bool {
        self.scheme == "https"@ || self.scheme == "wss"@
    }

    /// The same but for the scheme.
    pub open spec fn with_scheme(self, scheme: Seq<char>) -> UrlModel {
        UrlModel { scheme, host: self.host, path: self.path }
    }
}

impl ServoUrl {
    /// The name of the host, where it has one.
    pub fn domain(&self) -> (r: Option<&str>)
        ensures
            match r {
                Some(name) => self@.domain() == Some(name@),
                None => self@.domain() is None,
            },
    {
        match &self.host {
            Some(Host::Domain(name)) => Some(name.as_str()),
            _ => None,
        }
    }

    /// The text of the host, empty where there is none.
    pub fn host_text(&self) -> (r: &str)
        ensures
            r@ == self@.host_text(),
    {
        match &self.host {
            Some(Host::Domain(name)) => name.as_str(),
            Some(Host::Address(text)) => text.as_str(),
            None => "",
        }
    }

    /// Whether what goes over the URL is encrypted.
    pub fn is_secure_scheme(&self) -> (r: bool)
        ensures
            r == self@.is_secure(),
    {
        same_text(self.scheme.as_str(), "https") || same_text(self.scheme.as_str(), "wss")
    }
}

/// What goes over a URL is encrypted exactly where its scheme is `https` or `wss`. Only a host with a
/// name has a domain, and a URL without a host has no text for one.
pub proof fn law_parts_of_a_url(url: UrlModel, name: Seq<char>)
    ensures
        url.is_secure() <==> url.scheme == "https"@ || url.scheme == "wss"@,
        url.domain() == Some(name) <==> url.host == Some(HostModel::Domain(name)),
        url.host == Some(HostModel::Domain(name)) ==> url.host_text() == name,
        url.host == Some(HostModel::Address(name)) ==> url.host_text() == name,
        url.host is None ==> url.host_text() == ""@,
{
}

} // verus!
