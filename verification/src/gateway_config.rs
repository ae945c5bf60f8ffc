//! Validating the gateway environment (`PROMPTFORGE_GATEWAY_URL`,
//! `PROMPTFORGE_GATEWAY_API_KEY`) into a [`Gateway`].
//!
//! Empty and whitespace-only values are treated as absent. A token without a
//! usable endpoint is rejected so it can never silently downgrade to a
//! local-only tool set.

use vstd::prelude::*;
use vstd::string::StringExecFns;

verus! {

/// The variable naming the gateway endpoint.
pub const GATEWAY_URL_VAR: &'static str = "PROMPTFORGE_GATEWAY_URL";

/// The variable holding the gateway bearer token.
pub const GATEWAY_API_KEY_VAR: &'static str = "PROMPTFORGE_GATEWAY_API_KEY";

/// Unicode `White_Space`, the set `char::is_whitespace` tests.
pub open spec fn is_white_space(c: char) -> bool {
    ||| ('\u{9}' <= c && c <= '\u{d}')
    ||| c == ' '
    ||| c == '\u{85}'
    ||| c == '\u{a0}'
    ||| c == '\u{1680}'
    ||| ('\u{2000}' <= c && c <= '\u{200a}')
    ||| c == '\u{2028}'
    ||| c == '\u{2029}'
    ||| c == '\u{202f}'
    ||| c == '\u{205f}'
    ||| c == '\u{3000}'
}

/// `s` without its leading white space.
pub open spec fn trim_start_of(s: Seq<char>) -> Seq<char>
    decreases s.len(),
{
    if s.len() > 0 && is_white_space(s[0]) {
        trim_start_of(s.drop_first())
    } else {
        s
    }
}

/// `s` without its trailing white space.
pub open spec fn trim_end_of(s: Seq<char>) -> Seq<char>
    decreases s.len(),
{
    if s.len() > 0 && is_white_space(s.last()) {
        trim_end_of(s.drop_last())
    } else {
        s
    }
}

/// `s` without leading or trailing white space.
pub open spec fn trimmed(s: Seq<char>) -> Seq<char> {
    trim_end_of(trim_start_of(s))
}

/// `str::trim`: the string with leading and trailing Unicode `White_Space`
/// removed, as its documentation defines it.
#[verifier::external_body]
fn trim(s: &str) -> (t: &str)
    ensures
        t@ == trimmed(s@),
{
    s.trim()
}

/// A raw value taken as present: trimmed, and only when something is left.
pub open spec fn usable(value: Option<Seq<char>>) -> Option<Seq<char>> {
    match value {
        Some(v) => if trimmed(v).len() > 0 {
            Some(trimmed(v))
        } else {
            None
        },
        None => None,
    }
}

pub open spec fn str_option_view(value: Option<&str>) -> Option<Seq<char>> {
    match value {
        Some(v) => Some(v@),
        None => None,
    }
}

/// A validated endpoint and bearer token pair.
#[derive(Debug)]
pub struct Remote {
    endpoint: String,
    token: String,
}

impl Remote {
    /// The validated endpoint.
    pub closed spec fn endpoint_view(&self) -> Seq<char> {
        self.endpoint@
    }

    /// The validated token.
    pub closed spec fn token_view(&self) -> Seq<char> {
        self.token@
    }

    /// Validates an endpoint and token into the remote state; both must be
    /// non-empty once trimmed, and are kept trimmed.
    pub fn new(endpoint: &str, token: &str) -> (remote: Result<Remote, GatewayError>)
        ensures
            match remote {
                Ok(r) => usable(Some(endpoint@)) == Some(r.endpoint_view()) && usable(Some(token@))
                    == Some(r.token_view()),
                Err(e) => e == GatewayError::BlankRemote && (usable(Some(endpoint@)) is None
                    || usable(Some(token@)) is None),
            },
    {
        let endpoint = trim(endpoint);
        let token = trim(token);
        if endpoint.is_empty() || token.is_empty() {
            Err(GatewayError::BlankRemote)
        } else {
            Ok(Remote { endpoint: endpoint.to_owned(), token: token.to_owned() })
        }
    }

    /// The gateway endpoint URL.
    pub fn endpoint(&self) -> (endpoint: &str)
        ensures
            endpoint@ == self.endpoint_view(),
    {
        self.endpoint.as_str()
    }

    /// The gateway bearer token.
    pub fn token(&self) -> (token: &str)
        ensures
            token@ == self.token_view(),
    {
        self.token.as_str()
    }
}

/// Where runs send model and tool traffic.
#[derive(Debug)]
pub enum Gateway {
    /// No gateway: only local tools, and an empty model catalog.
    LocalOnly,
    /// A configured remote gateway.
    Remote(Remote),
}

/// Why the gateway configuration was rejected.
#[derive(Debug, PartialEq, Eq)]
pub enum GatewayError {
    /// A token was given without a usable endpoint.
    KeyWithoutUrl,
    /// A remote endpoint or token is blank.
    BlankRemote,
    /// An environment variable is set but not valid Unicode.
    NotUnicode { name: String },
}

impl GatewayError {
    /// The message the command line reports for this error.
    pub fn message(&self) -> (message: String)
        ensures
            *self == GatewayError::KeyWithoutUrl ==> message@ == "PROMPTFORGE_GATEWAY_API_KEY is set but PROMPTFORGE_GATEWAY_URL is missing or empty; both are required to reach the gateway"@,
            *self == GatewayError::BlankRemote ==> message@ == "the gateway endpoint and token must both be non-empty"@,
            self matches GatewayError::NotUnicode { name } ==> message@ == "read environment variable "@ + name@,
    {
        match self {
            GatewayError::KeyWithoutUrl => "PROMPTFORGE_GATEWAY_API_KEY is set but PROMPTFORGE_GATEWAY_URL is missing or empty; both are required to reach the gateway".to_owned(),
            GatewayError::BlankRemote => "the gateway endpoint and token must both be non-empty".to_owned(),
            GatewayError::NotUnicode { name } => "read environment variable ".to_owned().concat(name.as_str()),
        }
    }
}

/// The gateway that a URL/key pair selects, as a mathematical value.
pub enum GatewayView {
    LocalOnly,
    Remote { endpoint: Seq<char>, token: Seq<char> },
}

impl View for Gateway {
    type V = GatewayView;

    open spec fn view(&self) -> GatewayView {
        match self {
            Gateway::LocalOnly => GatewayView::LocalOnly,
            Gateway::Remote(r) => GatewayView::Remote { endpoint: r.endpoint_view(), token: r.token_view() },
        }
    }
}

/// What a raw URL/key pair validates to: a usable key needs a usable URL; no
/// usable key means local-only.
pub open spec fn gateway_of(url: Option<Seq<char>>, key: Option<Seq<char>>) -> Result<
    GatewayView,
    GatewayError,
> {
    match (usable(key), usable(url)) {
        (Some(token), Some(endpoint)) => Ok(GatewayView::Remote { endpoint, token }),
        (Some(_), None) => Err(GatewayError::KeyWithoutUrl),
        (None, _) => Ok(GatewayView::LocalOnly),
    }
}

pub open spec fn gateway_result_view(r: Result<Gateway, GatewayError>) -> Result<
    GatewayView,
    GatewayError,
> {
    match r {
        Ok(g) => Ok(g@),
        Err(e) => Err(e),
    }
}

fn usable_value(value: Option<&str>) -> (usable_value: Option<&str>)
    ensures
        str_option_view(usable_value) == usable(str_option_view(value)),
{
    match value {
        Some(v) => {
            let t = trim(v);
            if t.is_empty() {
                None
            } else {
                Some(t)
            }
        },
        None => None,
    }
}

/// Validates a raw URL/key pair into a [`Gateway`], rejecting a token that
/// has no usable endpoint.
pub fn gateway_from_parts(url: Option<&str>, key: Option<&str>) -> (gateway: Result<Gateway, GatewayError>)
    ensures
        gateway_result_view(gateway) == gateway_of(str_option_view(url), str_option_view(key)),
{
    let token = usable_value(key);
    let endpoint = usable_value(url);
    match (token, endpoint) {
        (Some(token), Some(endpoint)) => {
            proof {
                let raw_url = str_option_view(url)->0;
                let raw_key = str_option_view(key)->0;
                lemma_trimmed_idempotent(raw_url);
                lemma_trimmed_idempotent(raw_key);
                assert(endpoint@ == trimmed(raw_url));
                assert(usable(Some(endpoint@)) == Some(endpoint@));
                assert(usable(Some(token@)) == Some(token@));
            }
            match Remote::new(endpoint, token) {
                Ok(remote) => Ok(Gateway::Remote(remote)),
                Err(e) => Err(e),
            }
        },
        (Some(_), None) => Err(GatewayError::KeyWithoutUrl),
        (None, _) => Ok(Gateway::LocalOnly),
    }
}

/// The outcome of looking up one environment variable.
pub enum EnvLookup {
    /// Set, with a Unicode value.
    Present(String),
    /// Not set.
    NotPresent,
    /// Set, but not valid Unicode.
    NotUnicode,
}

/// An optional environment variable: absent is `None`, a non-Unicode value is
/// an error naming the variable.
pub fn env_optional(name: &str, lookup: EnvLookup) -> (value: Result<Option<String>, GatewayError>)
    ensures
        match lookup {
            EnvLookup::Present(v) => value matches Ok(Some(w)) && w@ == v@,
            EnvLookup::NotPresent => value matches Ok(None),
            EnvLookup::NotUnicode => value matches Err(GatewayError::NotUnicode { name: n }) && n@ == name@,
        },
{
    match lookup {
        EnvLookup::Present(v) => Ok(Some(v)),
        EnvLookup::NotPresent => Ok(None),
        EnvLookup::NotUnicode => Err(GatewayError::NotUnicode { name: name.to_owned() }),
    }
}

pub open spec fn lookup_value(lookup: EnvLookup) -> Option<Seq<char>> {
    match lookup {
        EnvLookup::Present(v) => Some(v@),
        _ => None,
    }
}

fn option_as_str(value: &Option<String>) -> (s: Option<&str>)
    ensures
        str_option_view(s) == match value {
            Some(v) => Some(v@),
            None => None::<Seq<char>>,
        },
{
    match value {
        Some(v) => Some(v.as_str()),
        None => None,
    }
}

/// Validates the looked-up gateway environment: a non-Unicode URL, then a
/// non-Unicode key, is an error; otherwise the pair validates as in
/// [`gateway_from_parts`].
pub fn gateway_from_env(url: EnvLookup, key: EnvLookup) -> (gateway: Result<Gateway, GatewayError>)
    ensures
        url is NotUnicode ==> (gateway matches Err(GatewayError::NotUnicode { name }) && name@
            == GATEWAY_URL_VAR@),
        !(url is NotUnicode) && key is NotUnicode ==> (gateway matches Err(
            GatewayError::NotUnicode { name },
        ) && name@ == GATEWAY_API_KEY_VAR@),
        !(url is NotUnicode) && !(key is NotUnicode) ==> gateway_result_view(gateway) == gateway_of(
            lookup_value(url),
            lookup_value(key),
        ),
{
    let ghost url_value = lookup_value(url);
    let ghost key_value = lookup_value(key);
    let url = match env_optional(GATEWAY_URL_VAR, url) {
        Ok(v) => v,
        Err(e) => return Err(e),
    };
    let key = match env_optional(GATEWAY_API_KEY_VAR, key) {
        Ok(v) => v,
        Err(e) => return Err(e),
    };
    gateway_from_parts(option_as_str(&url), option_as_str(&key))
}

proof fn lemma_trim_start_idempotent(s: Seq<char>)
    ensures
        trim_start_of(trim_start_of(s)) == trim_start_of(s),
        trim_start_of(s).len() > 0 ==> !is_white_space(trim_start_of(s)[0]),
    decreases s.len(),
{
    if s.len() > 0 && is_white_space(s[0]) {
        lemma_trim_start_idempotent(s.drop_first());
    }
}

proof fn lemma_trim_end_keeps_start(s: Seq<char>)
    requires
        s.len() > 0 ==> !is_white_space(s[0]),
    ensures
        trim_end_of(s).len() > 0 ==> !is_white_space(trim_end_of(s)[0]),
        trim_end_of(s).len() > 0 ==> !is_white_space(trim_end_of(s).last()),
        trim_end_of(s).len() <= s.len(),
        trim_end_of(s) == s.take(trim_end_of(s).len() as int),
    decreases s.len(),
{
    if s.len() > 0 && is_white_space(s.last()) {
        let d = s.drop_last();
        lemma_trim_end_keeps_start(d);
        assert(d.take(trim_end_of(d).len() as int) =~= s.take(trim_end_of(d).len() as int));
        if trim_end_of(d).len() > 0 {
            assert(trim_end_of(d)[0] == s[0]);
        }
    } else {
        assert(s.take(s.len() as int) =~= s);
    }
}

/// Trimming twice trims nothing more.
pub proof fn lemma_trimmed_idempotent(s: Seq<char>)
    ensures
        trimmed(trimmed(s)) == trimmed(s),
{
    let a = trim_start_of(s);
    lemma_trim_start_idempotent(s);
    lemma_trim_end_keeps_start(a);
    let t = trim_end_of(a);
    if t.len() > 0 {
        assert(!is_white_space(t[0]));
        assert(trim_start_of(t) == t);
        assert(!is_white_space(t.last()));
        assert(trim_end_of(t) == t);
    } else {
        assert(trim_start_of(t) == t);
        assert(trim_end_of(t) == t);
    }
}

/// Blank values are absent: a pair whose key is blank or missing is
/// local-only whatever the URL, and a usable key without a usable URL is
/// refused.
pub proof fn lemma_blank_values_are_absent(url: Option<Seq<char>>, key: Option<Seq<char>>)
    ensures
        usable(key) is None ==> gateway_of(url, key) == Ok::<GatewayView, GatewayError>(GatewayView::LocalOnly),
        usable(key) is Some && usable(url) is None ==> gateway_of(url, key) == Err::<GatewayView, GatewayError>(
            GatewayError::KeyWithoutUrl,
        ),
        usable(key) is Some && usable(url) is Some ==> gateway_of(url, key) is Ok,
{
}

/// Every character of `s` is white space.
pub open spec fn all_white_space(s: Seq<char>) -> bool {
    forall|i: int| 0 <= i < s.len() ==> is_white_space(#[trigger] s[i])
}

/// A raw value with `before` and `after` around it.
pub open spec fn padded(value: Option<Seq<char>>, before: Seq<char>, after: Seq<char>) -> Option<Seq<char>> {
    match value {
        Some(v) => Some(before + v + after),
        None => None,
    }
}

proof fn lemma_trim_start_skips_white(p: Seq<char>, t: Seq<char>)
    requires
        all_white_space(p),
    ensures
        trim_start_of(p + t) == trim_start_of(t),
    decreases p.len(),
{
    if p.len() > 0 {
        assert((p + t)[0] == p[0]);
        assert((p + t).drop_first() =~= p.drop_first() + t);
        assert forall|i: int| 0 <= i < p.drop_first().len() implies is_white_space(#[trigger] p.drop_first()[i]) by {
            assert(p.drop_first()[i] == p[i + 1]);
        }
        lemma_trim_start_skips_white(p.drop_first(), t);
    } else {
        assert(p + t =~= t);
    }
}

proof fn lemma_trim_end_skips_white(t: Seq<char>, q: Seq<char>)
    requires
        all_white_space(q),
    ensures
        trim_end_of(t + q) == trim_end_of(t),
    decreases q.len(),
{
    if q.len() > 0 {
        assert((t + q).last() == q.last());
        assert((t + q).drop_last() =~= t + q.drop_last());
        assert forall|i: int| 0 <= i < q.drop_last().len() implies is_white_space(#[trigger] q.drop_last()[i]) by {
            assert(q.drop_last()[i] == q[i]);
        }
        lemma_trim_end_skips_white(t, q.drop_last());
    } else {
        assert(t + q =~= t);
    }
}

proof fn lemma_trim_start_append(s: Seq<char>, q: Seq<char>)
    ensures
        trim_start_of(s + q) == (if trim_start_of(s).len() > 0 {
            trim_start_of(s) + q
        } else {
            trim_start_of(q)
        }),
    decreases s.len(),
{
    if s.len() == 0 {
        assert(s + q =~= q);
    } else {
        assert((s + q)[0] == s[0]);
        if is_white_space(s[0]) {
            assert((s + q).drop_first() =~= s.drop_first() + q);
            lemma_trim_start_append(s.drop_first(), q);
        }
    }
}

proof fn lemma_trim_start_all_white(q: Seq<char>)
    requires
        all_white_space(q),
    ensures
        trim_start_of(q).len() == 0,
    decreases q.len(),
{
    if q.len() > 0 {
        assert forall|i: int| 0 <= i < q.drop_first().len() implies is_white_space(#[trigger] q.drop_first()[i]) by {
            assert(q.drop_first()[i] == q[i + 1]);
        }
        lemma_trim_start_all_white(q.drop_first());
    }
}

/// White space around a value does not change what it trims to.
pub proof fn lemma_padding_keeps_trimmed(before: Seq<char>, s: Seq<char>, after: Seq<char>)
    requires
        all_white_space(before),
        all_white_space(after),
    ensures
        trimmed(before + s + after) == trimmed(s),
{
    assert(before + s + after =~= before + (s + after));
    lemma_trim_start_skips_white(before, s + after);
    lemma_trim_start_append(s, after);
    if trim_start_of(s).len() > 0 {
        lemma_trim_end_skips_white(trim_start_of(s), after);
    } else {
        lemma_trim_start_all_white(after);
        assert(trim_start_of(after) =~= Seq::<char>::empty());
        assert(trim_start_of(s) =~= Seq::<char>::empty());
    }
}

/// White space around the URL and the key does not change which gateway
/// they select; and two values that are non-blank once trimmed select the
/// remote gateway at the trimmed URL with the trimmed key.
pub proof fn lemma_padding_keeps_gateway(
    url: Option<Seq<char>>,
    key: Option<Seq<char>>,
    url_before: Seq<char>,
    url_after: Seq<char>,
    key_before: Seq<char>,
    key_after: Seq<char>,
)
    requires
        all_white_space(url_before),
        all_white_space(url_after),
        all_white_space(key_before),
        all_white_space(key_after),
    ensures
        gateway_of(padded(url, url_before, url_after), padded(key, key_before, key_after)) == gateway_of(url, key),
        (url matches Some(u) && key matches Some(k) && trimmed(u).len() > 0 && trimmed(k).len() > 0)
            ==> gateway_of(url, key) == Ok::<GatewayView, GatewayError>(
            GatewayView::Remote { endpoint: trimmed(url->0), token: trimmed(key->0) },
        ),
{
    if let Some(u) = url {
        lemma_padding_keeps_trimmed(url_before, u, url_after);
    }
    if let Some(k) = key {
        lemma_padding_keeps_trimmed(key_before, k, key_after);
    }
}

} // verus!
