//! The rules of the opt-in channel catalog: only channels whose
//! subscription snippet carries an introduction (commit and fingerprint)
//! are shown, and package hits from any other channel are dropped.

use vstd::prelude::*;
use crate::text::{chars_of, string_of, push_str, eq_str};
use crate::types::{Channel, ChannelView};
use crate::channel_list::{parse_channels_list, channels_list_spec, channels_view};

verus! {

/// The catalog's base URL.
pub const TOYS_API: &'static str = "https://toys.whereis.social/api";

/// How long a fetched channel list stays fresh, in seconds.
pub const CACHE_TTL_SECS: u64 = 3600;

/// HTTP timeout for catalog requests, in seconds.
pub const HTTP_TIMEOUT_SECS: u64 = 15;

#[verifier::external_type_specification]
#[verifier::external_body]
pub struct ExReqwestError(reqwest::Error);

/// One catalog channel; `subscription_snippet` is a Scheme `(channel ...)`
/// form as text.
#[derive(Debug, Clone)]
pub struct DiscoveredChannel {
    pub name: String,
    pub url: String,
    pub branch: Option<String>,
    pub commit: Option<String>,
    pub packages_count: u32,
    pub services_count: u32,
    pub subscription_snippet: String,
}

/// One catalog package hit, keyed by the name of its channel.
#[derive(Debug, Clone)]
pub struct DiscoveredPackage {
    pub name: String,
    pub version: String,
    pub channel: String,
    pub synopsis: String,
    pub description: String,
    pub licenses: String,
    pub homepage: String,
    pub module: String,
    pub file: String,
}

/// What a catalog request fails with.
#[derive(Debug)]
pub enum DiscoveryError {
    Http(reqwest::Error),
    Parse(String),
    /// A package hit from a channel that is not indexed or has no
    /// introduction.
    NoIntroductionForChannel(String),
}


/// `reqwest::Error`'s `Display` text: the request's failure as reqwest
/// words it (kind, URL, cause). It depends on the network and the
/// operating system, so nothing is stated of it.
#[verifier::external_body]
fn reqwest_error_text(e: &reqwest::Error) -> (r: String) {
    e.to_string()
}

/// The text of a catalog error, without the HTTP failure's own words.
pub open spec fn discovery_error_message(e: DiscoveryError) -> Seq<char> {
    match e {
        DiscoveryError::Http(_) => "HTTP error: "@,
        DiscoveryError::Parse(s) => "parse error: "@ + s@,
        DiscoveryError::NoIntroductionForChannel(n) => "no introduction for channel: "@ + n@,
    }
}

impl DiscoveryError {
    /// The error's text, as its `Display` renders it; an HTTP failure's
    /// text follows the stated prefix.
    pub fn message(&self) -> (r: String)
        ensures
            match *self {
                DiscoveryError::Http(_) => discovery_error_message(*self).is_prefix_of(r@),
                _ => r@ == discovery_error_message(*self),
            },
    {
        let mut v: Vec<char> = Vec::new();
        match self {
            DiscoveryError::Http(e) => {
                push_str(&mut v, "HTTP error: ");
                let ghost head = v@;
                let t = reqwest_error_text(e);
                push_str(&mut v, t.as_str());
                assert(v@.subrange(0, head.len() as int) =~= head);
            },
            DiscoveryError::Parse(m) => {
                push_str(&mut v, "parse error: ");
                push_str(&mut v, m.as_str());
            },
            DiscoveryError::NoIntroductionForChannel(n) => {
                push_str(&mut v, "no introduction for channel: ");
                push_str(&mut v, n.as_str());
            },
        }
        string_of(&v)
    }
}

/// The channel a snippet stands for, read as `(list SNIPPET)`: the first
/// channel, and only when it has both parts of an introduction.
pub open spec fn snippet_channel(snippet: Seq<char>) -> Option<ChannelView> {
    match channels_list_spec("(list "@ + snippet + ")"@) {
        Ok(l) => if l.0.len() > 0 && l.0[0].introduction_commit is Some
            && l.0[0].introduction_fingerprint is Some {
            Some(l.0[0])
        } else {
            None
        },
        Err(_) => None,
    }
}

impl DiscoveredChannel {
    /// The channel of the subscription snippet, when it is introduced.
    pub fn to_channel(&self) -> (r: Option<Channel>)
        ensures
            match snippet_channel(self.subscription_snippet@) {
                Some(c) => r matches Some(ch) && ch@ == c,
                None => r is None,
            },
    {
        let mut w: Vec<char> = Vec::new();
        push_str(&mut w, "(list ");
        push_str(&mut w, self.subscription_snippet.as_str());
        push_str(&mut w, ")");
        let wrapped = string_of(&w);
        let parsed = match parse_channels_list(wrapped.as_str()) {
            Ok(l) => l,
            Err(_) => return None,
        };
        let mut channels = parsed.into_channels();
        if channels.len() == 0 {
            return None;
        }
        let ch = channels.remove(0);
        assert(channels_view(channels@.insert(0, ch))[0] == ch@) by {
            assert(channels@.insert(0, ch)[0] == ch);
        }
        if ch.introduction_commit.is_none() || ch.introduction_fingerprint.is_none() {
            return None;
        }
        Some(ch)
    }
}

fn dup_opt(o: &Option<String>) -> (r: Option<String>)
    ensures
        r == *o,
{
    match o {
        Some(s) => Some(s.clone()),
        None => None,
    }
}

/// A field-by-field copy.
pub fn dup_channel(c: &DiscoveredChannel) -> (r: DiscoveredChannel)
    ensures
        r == *c,
{
    DiscoveredChannel {
        name: c.name.clone(),
        url: c.url.clone(),
        branch: dup_opt(&c.branch),
        commit: dup_opt(&c.commit),
        packages_count: c.packages_count,
        services_count: c.services_count,
        subscription_snippet: c.subscription_snippet.clone(),
    }
}

/// A field-by-field copy.
pub fn dup_package(p: &DiscoveredPackage) -> (r: DiscoveredPackage)
    ensures
        r == *p,
{
    DiscoveredPackage {
        name: p.name.clone(),
        version: p.version.clone(),
        channel: p.channel.clone(),
        synopsis: p.synopsis.clone(),
        description: p.description.clone(),
        licenses: p.licenses.clone(),
        homepage: p.homepage.clone(),
        module: p.module.clone(),
        file: p.file.clone(),
    }
}

/// Whether a catalog channel survives the filter.
pub open spec fn is_introduced(c: DiscoveredChannel) -> bool {
    snippet_channel(c.subscription_snippet@) is Some
}

/// The introduced channels, in order.
pub open spec fn introduced_spec(cs: Seq<DiscoveredChannel>) -> Seq<DiscoveredChannel>
    decreases cs.len(),
{
    if cs.len() == 0 {
        Seq::empty()
    } else {
        introduced_spec(cs.drop_last()) + if is_introduced(cs.last()) { seq![cs.last()] } else { Seq::empty() }
    }
}

/// Keeps only the introduced channels.
pub fn filter_introduced_channels(channels: Vec<DiscoveredChannel>) -> (r: Vec<DiscoveredChannel>)
    ensures
        r@ == introduced_spec(channels@),
{
    let mut out: Vec<DiscoveredChannel> = Vec::new();
    let mut i: usize = 0;
    assert(channels@.subrange(0, 0) =~= Seq::<DiscoveredChannel>::empty());
    while i < channels.len()
        invariant
            i <= channels@.len(),
            out@ == introduced_spec(channels@.subrange(0, i as int)),
        decreases channels@.len() - i,
    {
        assert(channels@.subrange(0, i + 1).drop_last() =~= channels@.subrange(0, i as int));
        let c = &channels[i];
        if c.to_channel().is_some() {
            out.push(dup_channel(c));
        }
        assert(out@ =~= introduced_spec(channels@.subrange(0, i + 1)));
        i += 1;
    }
    assert(channels@.subrange(0, channels@.len() as int) =~= channels@);
    out
}

pub open spec fn names_view(v: Seq<String>) -> Seq<Seq<char>> {
    v.map_values(|s: String| s@)
}

/// The package hits whose channel is among `names`, in order.
pub open spec fn packages_from(ps: Seq<DiscoveredPackage>, names: Seq<Seq<char>>) -> Seq<DiscoveredPackage>
    decreases ps.len(),
{
    if ps.len() == 0 {
        Seq::empty()
    } else {
        packages_from(ps.drop_last(), names) + if names.contains(ps.last().channel@) {
            seq![ps.last()]
        } else {
            Seq::empty()
        }
    }
}

fn contains_name(names: &Vec<String>, n: &str) -> (r: bool)
    ensures
        r == names_view(names@).contains(n@),
{
    let cs = chars_of(n);
    let mut i: usize = 0;
    while i < names.len()
        invariant
            i <= names@.len(),
            cs@ == n@,
            forall|j: int| 0 <= j < i ==> names@[j]@ != n@,
        decreases names@.len() - i,
    {
        let ni = chars_of(names[i].as_str());
        if eq_str(&ni, n) {
            assert(names_view(names@)[i as int] == n@);
            return true;
        }
        i += 1;
    }
    proof {
        if names_view(names@).contains(n@) {
            let j = choose|j: int| 0 <= j < names_view(names@).len() && names_view(names@)[j] == n@;
            assert(names@[j]@ == n@);
        }
    }
    false
}

/// Keeps only the hits from channels named in `introduced_names`.
pub fn filter_packages_by_introduced(packages: Vec<DiscoveredPackage>, introduced_names: &Vec<String>) -> (r: Vec<DiscoveredPackage>)
    ensures
        r@ == packages_from(packages@, names_view(introduced_names@)),
{
    let ghost names = names_view(introduced_names@);
    let mut out: Vec<DiscoveredPackage> = Vec::new();
    let mut i: usize = 0;
    assert(packages@.subrange(0, 0) =~= Seq::<DiscoveredPackage>::empty());
    while i < packages.len()
        invariant
            i <= packages@.len(),
            names == names_view(introduced_names@),
            out@ == packages_from(packages@.subrange(0, i as int), names),
        decreases packages@.len() - i,
    {
        assert(packages@.subrange(0, i + 1).drop_last() =~= packages@.subrange(0, i as int));
        let p = &packages[i];
        if contains_name(introduced_names, p.channel.as_str()) {
            out.push(dup_package(p));
        }
        assert(out@ =~= packages_from(packages@.subrange(0, i + 1), names));
        i += 1;
    }
    assert(packages@.subrange(0, packages@.len() as int) =~= packages@);
    out
}

/// The names of channels, in order.
pub fn channel_names(channels: &Vec<DiscoveredChannel>) -> (r: Vec<String>)
    ensures
        names_view(r@) == channels@.map_values(|c: DiscoveredChannel| c.name@),
{
    let mut out: Vec<String> = Vec::new();
    let mut i: usize = 0;
    while i < channels.len()
        invariant
            i <= channels@.len(),
            names_view(out@) == channels@.subrange(0, i as int).map_values(|c: DiscoveredChannel| c.name@),
        decreases channels@.len() - i,
    {
        let ghost before = names_view(out@);
        out.push(channels[i].name.clone());
        assert(names_view(out@) =~= before.push(channels@[i as int].name@));
        assert(channels@.subrange(0, i + 1).map_values(|c: DiscoveredChannel| c.name@)
            =~= channels@.subrange(0, i as int).map_values(|c: DiscoveredChannel| c.name@).push(channels@[i as int].name@));
        i += 1;
    }
    assert(channels@.subrange(0, channels@.len() as int) =~= channels@);
    out
}

/// Whether a channel list fetched `age_secs` ago can still be used.
pub fn cache_is_fresh(age_secs: u64) -> (r: bool)
    ensures
        r == (age_secs < CACHE_TTL_SECS),
{
    age_secs < CACHE_TTL_SECS
}

/// `BASE/channels`.
pub fn channels_url() -> (r: String)
    ensures
        r@ == TOYS_API@ + "/channels"@,
{
    let mut v: Vec<char> = Vec::new();
    push_str(&mut v, TOYS_API);
    push_str(&mut v, "/channels");
    string_of(&v)
}

/// `BASE/packages` (the query goes in parameters).
pub fn packages_url() -> (r: String)
    ensures
        r@ == TOYS_API@ + "/packages"@,
{
    let mut v: Vec<char> = Vec::new();
    push_str(&mut v, TOYS_API);
    push_str(&mut v, "/packages");
    string_of(&v)
}

} // verus!
