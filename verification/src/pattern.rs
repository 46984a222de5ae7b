//! Remote URL patterns and execution-context classification.
//!
//! A remote URL pattern wraps a compiled URL-matching pattern together with
//! its original textual form. Before compiling, empty or absent query,
//! fragment and path components are widened to the wildcard `*`, so a
//! host-only pattern matches any path, query and fragment under that host.
//! Equality is defined component-wise over the eight compiled component
//! pattern strings, never over the original text. Matching faults degrade
//! to a non-match: origin checks fail closed.

use std::sync::Arc;

use vstd::prelude::*;
use vstd::std_specs::cmp::PartialEqSpec;
use vstd::string::StringExecFns;

verus! {

#[verifier::external_type_specification]
#[verifier::external_body]
pub struct ExUrl(url::Url);

#[verifier::external_type_specification]
pub struct ExUrlPatternInit(urlpattern::UrlPatternInit);

/// A handle on a compiled urlpattern matcher; its contents are opaque to
/// the verifier, which is why it stands behind this struct: the matcher
/// type is generic over an outside regular-expression engine.
#[derive(Debug)]
#[verifier::external_body]
pub struct PatternHandle {
    inner: Arc<urlpattern::UrlPattern<regex::Regex>>,
}

/// Errors while parsing a URL pattern from text.
#[derive(Debug, Clone, Copy, PartialEq, Eq, Structural)]
pub enum PatternError {
    /// The constructor string could not be parsed.
    ConstructorSyntax,
    /// The parsed components could not be compiled into a pattern.
    Compile,
}

/// The view of an optional string.
pub open spec fn opt_text(o: Option<String>) -> Option<Seq<char>> {
    match o {
        Some(s) => Some(s@),
        None => None,
    }
}

/// Mathematical model of [`PatternInit`].
pub struct PatternInitModel {
    /// The protocol component, if authored.
    pub protocol: Option<Seq<char>>,
    /// The username component, if authored.
    pub username: Option<Seq<char>>,
    /// The password component, if authored.
    pub password: Option<Seq<char>>,
    /// The hostname component, if authored.
    pub hostname: Option<Seq<char>>,
    /// The port component, if authored.
    pub port: Option<Seq<char>>,
    /// The pathname component, if authored.
    pub pathname: Option<Seq<char>>,
    /// The query component, if authored.
    pub search: Option<Seq<char>>,
    /// The fragment component, if authored.
    pub hash: Option<Seq<char>>,
}

/// The model of an authored init: the per-component text before
/// compilation; an absent component is left to the matcher's default.
pub open spec fn init_model(i: urlpattern::UrlPatternInit) -> PatternInitModel {
    PatternInitModel {
        protocol: opt_text(i.protocol),
        username: opt_text(i.username),
        password: opt_text(i.password),
        hostname: opt_text(i.hostname),
        port: opt_text(i.port),
        pathname: opt_text(i.pathname),
        search: opt_text(i.search),
        hash: opt_text(i.hash),
    }
}

/// Mathematical model of [`PatternComponents`].
pub struct PatternComponentsModel {
    /// The compiled protocol pattern string.
    pub protocol: Seq<char>,
    /// The compiled username pattern string.
    pub username: Seq<char>,
    /// The compiled password pattern string.
    pub password: Seq<char>,
    /// The compiled hostname pattern string.
    pub hostname: Seq<char>,
    /// The compiled port pattern string.
    pub port: Seq<char>,
    /// The compiled pathname pattern string.
    pub pathname: Seq<char>,
    /// The compiled query pattern string.
    pub search: Seq<char>,
    /// The compiled fragment pattern string.
    pub hash: Seq<char>,
}

/// The eight compiled component pattern strings of a pattern; pattern
/// equality is defined over these.
#[derive(Debug)]
pub struct PatternComponents {
    /// The compiled protocol pattern string.
    pub protocol: String,
    /// The compiled username pattern string.
    pub username: String,
    /// The compiled password pattern string.
    pub password: String,
    /// The compiled hostname pattern string.
    pub hostname: String,
    /// The compiled port pattern string.
    pub port: String,
    /// The compiled pathname pattern string.
    pub pathname: String,
    /// The compiled query pattern string.
    pub search: String,
    /// The compiled fragment pattern string.
    pub hash: String,
}

impl View for PatternComponents {
    type V = PatternComponentsModel;

    open spec fn view(&self) -> PatternComponentsModel {
        PatternComponentsModel {
            protocol: self.protocol@,
            username: self.username@,
            password: self.password@,
            hostname: self.hostname@,
            port: self.port@,
            pathname: self.pathname@,
            search: self.search@,
            hash: self.hash@,
        }
    }
}

pub uninterp spec fn constructor_init(s: Seq<char>) -> Option<PatternInitModel>;

pub uninterp spec fn compiled_components(i: PatternInitModel) -> Option<PatternComponentsModel>;

/// Relies on urlpattern::UrlPatternInit::parse_constructor_string with no
/// base URL: parsing is a pure function of the pattern text, it leaves the
/// base URL absent, and it fails exactly on the texts it cannot parse (or
/// that name no protocol).
#[verifier::external_body]
fn parse_constructor_init(s: &str) -> (r: Result<urlpattern::UrlPatternInit, PatternError>)
    ensures
        r is Ok <==> constructor_init(s@) is Some,
        r is Ok ==> Some(init_model(r->Ok_0)) == constructor_init(s@),
        r is Ok ==> r->Ok_0.base_url is None,
        r is Err ==> r->Err_0 == PatternError::ConstructorSyntax,
{
    match urlpattern::UrlPatternInit::parse_constructor_string::<regex::Regex>(s, None) {
        Ok(i) => Ok(i),
        Err(_) => Err(PatternError::ConstructorSyntax),
    }
}

/// Relies on urlpattern::UrlPattern::parse and the component accessors:
/// with no base URL, compilation is deterministic in the authored
/// components, and each accessor returns the compiled pattern string of
/// its component.
#[verifier::external_body]
fn compile_pattern(init: urlpattern::UrlPatternInit) -> (r: Result<
    (PatternHandle, PatternComponents),
    PatternError,
>)
    requires
        init.base_url is None,
    ensures
        r is Ok <==> compiled_components(init_model(init)) is Some,
        r is Ok ==> Some(r->Ok_0.1@) == compiled_components(init_model(init)),
        r is Err ==> r->Err_0 == PatternError::Compile,
{
    match urlpattern::UrlPattern::parse(init, urlpattern::UrlPatternOptions::default()) {
        Ok(p) => {
            let c = PatternComponents {
                protocol: p.protocol().to_string(), username: p.username().to_string(),
                password: p.password().to_string(), hostname: p.hostname().to_string(),
                port: p.port().to_string(), pathname: p.pathname().to_string(),
                search: p.search().to_string(), hash: p.hash().to_string(),
            };
            Ok((PatternHandle { inner: Arc::new(p) }, c))
        },
        Err(_) => Err(PatternError::Compile),
    }
}

pub uninterp spec fn pattern_verdict(p: PatternHandle, url: Seq<char>) -> Option<bool>;

/// Relies on url::Url::parse and urlpattern::UrlPattern::test: the
/// matcher's verdict is a function of the compiled pattern and the URL
/// text alone; an unparseable URL or a matcher fault is surfaced as
/// `None`.
#[verifier::external_body]
fn raw_test(pattern: &PatternHandle, url: &str) -> (r: Option<bool>)
    ensures
        r == pattern_verdict(*pattern, url@),
{
    match url::Url::parse(url) {
        Ok(parsed) => pattern.inner.test(urlpattern::UrlPatternMatchInput::Url(parsed)).ok(),
        Err(_) => None,
    }
}

/// Relies on Arc::clone: the clone shares the same compiled pattern.
#[verifier::external_body]
fn clone_pattern_handle(pattern: &PatternHandle) -> (r: PatternHandle)
    ensures
        r == *pattern,
{
    PatternHandle { inner: pattern.inner.clone() }
}

/// Widens an empty or absent component to the wildcard `*`.
pub open spec fn normalize_component(c: Option<Seq<char>>) -> Option<Seq<char>> {
    if c is None || c->0.len() == 0 {
        Some("*"@)
    } else {
        c
    }
}

/// Widens an empty, absent or root (`/`) path component to the wildcard
/// `*`.
pub open spec fn normalize_path(c: Option<Seq<char>>) -> Option<Seq<char>> {
    if c is None || c->0.len() == 0 || c->0 == "/"@ {
        Some("*"@)
    } else {
        c
    }
}

/// The normalization applied to an authored init before compiling: query,
/// fragment and path are widened so a host-only pattern matches the whole
/// origin.
pub open spec fn normalize_init(i: PatternInitModel) -> PatternInitModel {
    PatternInitModel {
        pathname: normalize_path(i.pathname),
        search: normalize_component(i.search),
        hash: normalize_component(i.hash),
        ..i
    }
}

fn normalize_field(c: Option<String>) -> (r: Option<String>)
    ensures
        opt_text(r) == normalize_component(opt_text(c)),
{
    match c {
        Some(s) => {
            if s.as_str().is_empty() {
                Some(String::from_str("*"))
            } else {
                Some(s)
            }
        },
        None => Some(String::from_str("*")),
    }
}

fn normalize_path_field(c: Option<String>) -> (r: Option<String>)
    ensures
        opt_text(r) == normalize_path(opt_text(c)),
{
    match c {
        Some(s) => {
            if s.as_str().is_empty() || s == String::from_str("/") {
                Some(String::from_str("*"))
            } else {
                Some(s)
            }
        },
        None => Some(String::from_str("*")),
    }
}

/// Applies the component normalization to an authored init.
fn normalize(init: urlpattern::UrlPatternInit) -> (r: urlpattern::UrlPatternInit)
    ensures
        init_model(r) == normalize_init(init_model(init)),
        r.base_url == init.base_url,
{
    let urlpattern::UrlPatternInit {
        protocol,
        username,
        password,
        hostname,
        port,
        pathname,
        search,
        hash,
        base_url,
    } = init;
    urlpattern::UrlPatternInit {
        protocol,
        username,
        password,
        hostname,
        port,
        pathname: normalize_path_field(pathname),
        search: normalize_field(search),
        hash: normalize_field(hash),
        base_url,
    }
}

/// A compiled URL pattern for a remote execution context, with its original
/// textual form and its compiled component strings.
#[derive(Debug)]
pub struct RemoteUrlPattern {
    pattern: PatternHandle,
    source: String,
    components: PatternComponents,
}

/// Mathematical model of [`RemoteUrlPattern`].
pub struct RemoteUrlPatternModel {
    /// The compiled pattern the matcher runs.
    pub pattern: PatternHandle,
    /// The original textual form the pattern was parsed from.
    pub source: Seq<char>,
    /// The eight compiled component pattern strings.
    pub components: PatternComponentsModel,
}

impl View for RemoteUrlPattern {
    type V = RemoteUrlPatternModel;

    closed spec fn view(&self) -> RemoteUrlPatternModel {
        RemoteUrlPatternModel {
            pattern: self.pattern,
            source: self.source@,
            components: self.components@,
        }
    }
}

/// A pattern was parsed from the given text: its components are the
/// compilation of the normalized constructor init of that text.
pub open spec fn parsed_from(p: RemoteUrlPattern, s: Seq<char>) -> bool {
    &&& constructor_init(s) is Some
    &&& Some(p@.components) == compiled_components(normalize_init(constructor_init(s)->0))
    &&& p@.source == s
}

impl RemoteUrlPattern {
    /// Parses a URL pattern from its textual form. Before compiling, an
    /// empty or absent query or fragment, and an empty, absent or root
    /// path, are each replaced with the wildcard `*`.
    pub fn parse(s: &str) -> (r: Result<RemoteUrlPattern, PatternError>)
        ensures
            r is Ok <==> (constructor_init(s@) is Some && compiled_components(
                normalize_init(constructor_init(s@)->0),
            ) is Some),
            r matches Ok(p) ==> parsed_from(p, s@),
            constructor_init(s@) is None ==> r == Err::<RemoteUrlPattern, PatternError>(
                PatternError::ConstructorSyntax,
            ),
            constructor_init(s@) is Some && compiled_components(
                normalize_init(constructor_init(s@)->0),
            ) is None ==> r == Err::<RemoteUrlPattern, PatternError>(PatternError::Compile),
    {
        let init = match parse_constructor_init(s) {
            Ok(i) => i,
            Err(e) => {
                return Err(e);
            },
        };
        let init = normalize(init);
        match compile_pattern(init) {
            Ok((pattern, components)) => Ok(
                RemoteUrlPattern { pattern, source: s.to_owned(), components },
            ),
            Err(e) => Err(e),
        }
    }

    /// The original textual form the pattern was parsed from.
    pub fn as_str(&self) -> (r: &str)
        ensures
            r@ == self@.source,
    {
        self.source.as_str()
    }

    /// The eight compiled component pattern strings.
    pub fn components(&self) -> (r: &PatternComponents)
        ensures
            r@ == self@.components,
    {
        &self.components
    }

    /// Tests if a given URL matches the pattern: the result is the
    /// matcher's verdict on the URL text, and only a successful match
    /// permits; an unparseable URL or a matcher fault degrades to a
    /// non-match, so origin checks fail closed.
    pub fn test(&self, url: &str) -> (r: bool)
        ensures
            r == (pattern_verdict(self@.pattern, url@) == Some(true)),
    {
        match_outcome(raw_test(&self.pattern, url))
    }
}

/// The fail-closed reading of a matcher outcome: a fault is a non-match.
pub fn match_outcome(outcome: Option<bool>) -> (r: bool)
    ensures
        r == (outcome == Some(true)),
{
    match outcome {
        Some(b) => b,
        None => false,
    }
}

impl PartialEq for RemoteUrlPattern {
    /// Component-wise equality over the eight compiled component strings;
    /// the original text takes no part.
    fn eq(&self, other: &Self) -> (r: bool) {
        self.components.protocol == other.components.protocol
            && self.components.username == other.components.username
            && self.components.password == other.components.password
            && self.components.hostname == other.components.hostname
            && self.components.port == other.components.port
            && self.components.pathname == other.components.pathname
            && self.components.search == other.components.search
            && self.components.hash == other.components.hash
    }
}

impl vstd::std_specs::cmp::PartialEqSpecImpl for RemoteUrlPattern {
    open spec fn obeys_eq_spec() -> bool {
        true
    }

    open spec fn eq_spec(&self, other: &Self) -> bool {
        self@.components == other@.components
    }
}

impl Eq for RemoteUrlPattern {

}

impl Clone for RemoteUrlPattern {
    /// The clone shares the compiled pattern and copies the text and the
    /// component strings.
    fn clone(&self) -> (res: Self)
        ensures
            res == *self,
    {
        RemoteUrlPattern {
            pattern: clone_pattern_handle(&self.pattern),
            source: self.source.clone(),
            components: PatternComponents {
                protocol: self.components.protocol.clone(),
                username: self.components.username.clone(),
                password: self.components.password.clone(),
                hostname: self.components.hostname.clone(),
                port: self.components.port.clone(),
                pathname: self.components.pathname.clone(),
                search: self.components.search.clone(),
                hash: self.components.hash.clone(),
            },
        }
    }
}

/// Two parsed patterns are equal exactly when every one of the eight
/// compiled components is identical; equality never depends on the original
/// text the patterns were spelled with.
pub proof fn lemma_pattern_equality(
    s1: Seq<char>,
    s2: Seq<char>,
    a: RemoteUrlPattern,
    b: RemoteUrlPattern,
)
    requires
        parsed_from(a, s1),
        parsed_from(b, s2),
    ensures
        a.eq_spec(&b) <==> compiled_components(normalize_init(constructor_init(s1)->0))
            == compiled_components(normalize_init(constructor_init(s2)->0)),
{
}

/// Execution context of an IPC call.
#[derive(Debug, Default, Clone, PartialEq, Eq)]
pub enum ExecutionContext {
    /// The application's own local content is used.
    #[default]
    Local,
    /// A remote URL is trying to use the IPC.
    Remote {
        /// The pattern that matched the URL trying to access the IPC.
        url: RemoteUrlPattern,
    },
}

impl core::str::FromStr for RemoteUrlPattern {
    type Err = PatternError;

    fn from_str(s: &str) -> Result<RemoteUrlPattern, PatternError> {
        RemoteUrlPattern::parse(s)
    }
}

/// The index of the first set flag, if any.
pub fn first_match(flags: &Vec<bool>) -> (r: Option<usize>)
    ensures
        match r {
            Some(i) => i < flags@.len() && flags@[i as int] && forall|j: int|
                0 <= j < i ==> !flags@[j],
            None => forall|j: int| 0 <= j < flags@.len() ==> !flags@[j],
        },
{
    let mut i: usize = 0;
    while i < flags.len()
        invariant
            i <= flags@.len(),
            forall|j: int| 0 <= j < i ==> !flags@[j],
        decreases flags@.len() - i,
    {
        if flags[i] {
            return Some(i);
        }
        i = i + 1;
    }
    None
}

/// Classifies the origin of a call. Local content is the application's own
/// context. Remote content is tested against the authored patterns in
/// declaration order and takes the first pattern that matches; content that
/// matches no pattern yields no context, and the consuming policy must deny
/// it: this classifier never invents a default-allow context.
pub fn classify(local: bool, url: &str, patterns: &Vec<RemoteUrlPattern>) -> (r: Option<
    ExecutionContext,
>)
    ensures
        local ==> r == Some(ExecutionContext::Local),
        !local ==> ((r is Some) <==> exists|i: int|
            0 <= i < patterns@.len() && pattern_verdict(patterns@[i]@.pattern, url@) == Some(
                true,
            )),
        !local ==> match r {
            Some(c) => exists|i: int|
                {
                    &&& 0 <= i < patterns@.len()
                    &&& pattern_verdict(patterns@[i]@.pattern, url@) == Some(true)
                    &&& forall|j: int|
                        0 <= j < i ==> pattern_verdict(patterns@[j]@.pattern, url@) != Some(true)
                    &&& c == (ExecutionContext::Remote { url: patterns@[i] })
                },
            None => true,
        },
{
    if local {
        return Some(ExecutionContext::Local);
    }
    let mut flags: Vec<bool> = Vec::new();
    let mut i: usize = 0;
    while i < patterns.len()
        invariant
            flags@.len() == i,
            i <= patterns@.len(),
            forall|k: int|
                0 <= k < i ==> flags@[k] == (pattern_verdict(patterns@[k]@.pattern, url@)
                    == Some(true)),
        decreases patterns@.len() - i,
    {
        let matched = patterns[i].test(url);
        flags.push(matched);
        i = i + 1;
    }
    match first_match(&flags) {
        Some(index) => {
            proof {
                assert(pattern_verdict(patterns@[index as int]@.pattern, url@) == Some(true));
                assert forall|j: int|
                    0 <= j < index implies pattern_verdict(patterns@[j]@.pattern, url@) != Some(
                    true,
                ) by {
                    assert(!flags@[j]);
                }
            }
            Some(ExecutionContext::Remote { url: patterns[index].clone() })
        },
        None => {
            proof {
                assert forall|k: int|
                    0 <= k < patterns@.len() implies pattern_verdict(
                    patterns@[k]@.pattern,
                    url@,
                ) != Some(true) by {
                    assert(!flags@[k]);
                }
            }
            None
        },
    }
}

} // verus!
