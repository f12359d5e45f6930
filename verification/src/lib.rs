//! Client library for a host-intelligence HTTP API.
//!
//! The library builds authenticated request URLs from typed parameters and
//! classifies JSON response bodies into either an endpoint payload or a
//! service-reported error. Network transport and payload deserialization are
//! left to a thin unverified layer around this crate.

use vstd::prelude::*;

pub mod account;
pub mod api_info;
pub mod api_status;
pub mod builders;
pub mod directory;
pub mod dns;
pub mod encoding;
pub mod error;
pub mod query;
pub mod response;
pub mod scanning;
pub mod search;
pub mod search_result;
pub mod utility;

use encoding::{encode_component, encode_path, encoded_component, encoded_path};
use error::Error;
use vstd::string::{StrSliceExecFns, StringExecFns};

verus! {

/// The fixed host every request of [`ShodanClient`] is addressed to.
pub const BASE_API_URL: &'static str = "https://api.shodan.io";

/// Decimal digit for a value below ten.
pub open spec fn dec_digit(n: nat) -> char
    recommends
        n < 10,
{
    if n == 0 {
        '0'
    } else if n == 1 {
        '1'
    } else if n == 2 {
        '2'
    } else if n == 3 {
        '3'
    } else if n == 4 {
        '4'
    } else if n == 5 {
        '5'
    } else if n == 6 {
        '6'
    } else if n == 7 {
        '7'
    } else if n == 8 {
        '8'
    } else {
        '9'
    }
}

/// Decimal text of a natural number, most significant digit first.
pub open spec fn dec_str(n: nat) -> Seq<char>
    decreases n,
{
    if n < 10 {
        seq![dec_digit(n)]
    } else {
        dec_str(n / 10) + seq![dec_digit(n % 10)]
    }
}

/// Decimal text of an integer: a minus sign before the digits when negative.
pub open spec fn int_dec_str(n: int) -> Seq<char> {
    if n < 0 {
        seq!['-'] + dec_str((-n) as nat)
    } else {
        dec_str(n as nat)
    }
}

/// The text `true` or `false` of a boolean.
pub open spec fn bool_str(b: bool) -> Seq<char> {
    if b {
        seq!['t', 'r', 'u', 'e']
    } else {
        seq!['f', 'a', 'l', 's', 'e']
    }
}

fn dec_digit_char(n: u32) -> (c: char)
    requires
        n < 10,
    ensures
        c == dec_digit(n as nat),
{
    match n {
        0 => '0',
        1 => '1',
        2 => '2',
        3 => '3',
        4 => '4',
        5 => '5',
        6 => '6',
        7 => '7',
        8 => '8',
        _ => '9',
    }
}

/// Render an unsigned number as decimal text.
pub fn u32_to_decimal(n: u32) -> (r: String)
    ensures
        r@ == dec_str(n as nat),
    decreases n,
{
    if n < 10 {
        let mut s = String::new();
        encoding::push_char(&mut s, dec_digit_char(n));
        proof {
            assert(s@ =~= seq![dec_digit(n as nat)]);
        }
        s
    } else {
        let mut s = u32_to_decimal(n / 10);
        encoding::push_char(&mut s, dec_digit_char(n % 10));
        proof {
            assert(s@ =~= dec_str((n / 10) as nat) + seq![dec_digit((n % 10) as nat)]);
        }
        s
    }
}

/// Render a signed number as decimal text.
pub fn i32_to_decimal(n: i32) -> (r: String)
    ensures
        r@ == int_dec_str(n as int),
{
    if n >= 0 {
        u32_to_decimal(n as u32)
    } else {
        let wide: i64 = n as i64;
        let magnitude: u32 = (-wide) as u32;
        let mut s = String::new();
        encoding::push_char(&mut s, '-');
        let digits = u32_to_decimal(magnitude);
        s.append(digits.as_str());
        proof {
            assert(s@ =~= seq!['-'] + dec_str((-(n as int)) as nat));
        }
        s
    }
}

/// A query-parameter value in its string form.
pub struct ParameterValue(pub String);

impl View for ParameterValue {
    type V = Seq<char>;

    open spec fn view(&self) -> Seq<char> {
        self.0@
    }
}

/// The closed set of argument kinds that can be rendered as a query-parameter
/// value. `query_value` is the rendering each implementation promises.
pub trait IntoParameterValue {
    spec fn query_value(&self) -> Seq<char>;

    fn into_parameter_value(self) -> (r: ParameterValue)
        ensures
            r@ == self.query_value(),
    ;
}

impl IntoParameterValue for ParameterValue {
    open spec fn query_value(&self) -> Seq<char> {
        self@
    }

    fn into_parameter_value(self) -> (r: ParameterValue) {
        self
    }
}

impl IntoParameterValue for String {
    open spec fn query_value(&self) -> Seq<char> {
        self@
    }

    fn into_parameter_value(self) -> (r: ParameterValue) {
        ParameterValue(self)
    }
}

impl IntoParameterValue for &str {
    open spec fn query_value(&self) -> Seq<char> {
        self@
    }

    fn into_parameter_value(self) -> (r: ParameterValue) {
        ParameterValue(String::from_str(self))
    }
}

impl IntoParameterValue for u32 {
    open spec fn query_value(&self) -> Seq<char> {
        dec_str(*self as nat)
    }

    fn into_parameter_value(self) -> (r: ParameterValue) {
        ParameterValue(u32_to_decimal(self))
    }
}

impl IntoParameterValue for i32 {
    open spec fn query_value(&self) -> Seq<char> {
        int_dec_str(*self as int)
    }

    fn into_parameter_value(self) -> (r: ParameterValue) {
        ParameterValue(i32_to_decimal(self))
    }
}

impl IntoParameterValue for bool {
    open spec fn query_value(&self) -> Seq<char> {
        bool_str(*self)
    }

    fn into_parameter_value(self) -> (r: ParameterValue) {
        if self {
            let s = String::from_str("true");
            proof {
                reveal_strlit("true");
                assert(s@ =~= bool_str(true));
            }
            ParameterValue(s)
        } else {
            let s = String::from_str("false");
            proof {
                reveal_strlit("false");
                assert(s@ =~= bool_str(false));
            }
            ParameterValue(s)
        }
    }
}

/// Index of the first entry with the given name, or the length when absent.
pub open spec fn key_index<V>(entries: Seq<(Seq<char>, V)>, key: Seq<char>) -> int
    decreases entries.len(),
{
    if entries.len() == 0 {
        0
    } else if entries[0].0 == key {
        0
    } else {
        1 + key_index(entries.drop_first(), key)
    }
}

/// Whether some entry carries the given name.
pub open spec fn has_key<V>(entries: Seq<(Seq<char>, V)>, key: Seq<char>) -> bool {
    exists|i: int| 0 <= i < entries.len() && entries[i].0 == key
}

/// No two entries carry the same name.
pub open spec fn keys_unique<V>(entries: Seq<(Seq<char>, V)>) -> bool {
    forall|i: int, j: int|
        0 <= i < j < entries.len() ==> #[trigger] entries[i].0 != #[trigger] entries[j].0
}

/// The entries after writing `key = value`: an entry with the same name is
/// dropped, and the new pair goes to the end.
pub open spec fn bag_set(
    entries: Seq<(Seq<char>, Seq<char>)>,
    key: Seq<char>,
    value: Seq<char>,
) -> Seq<(Seq<char>, Seq<char>)> {
    if has_key(entries, key) {
        entries.remove(key_index(entries, key)) + seq![(key, value)]
    } else {
        entries + seq![(key, value)]
    }
}

/// The entries after optionally writing `key`: unchanged when the value is
/// absent.
pub open spec fn bag_set_optional(
    entries: Seq<(Seq<char>, Seq<char>)>,
    key: Seq<char>,
    value: Option<Seq<char>>,
) -> Seq<(Seq<char>, Seq<char>)> {
    match value {
        Some(v) => bag_set(entries, key, v),
        None => entries,
    }
}

/// The name-to-value collection a request's query string is built from.
/// Names are unique: writing a name again replaces its value.
pub struct ParameterBag {
    entries: Vec<(String, String)>,
}

impl View for ParameterBag {
    type V = Seq<(Seq<char>, Seq<char>)>;

    /// The entries as pairs of character sequences, in insertion order.
    closed spec fn view(&self) -> Seq<(Seq<char>, Seq<char>)> {
        self.entries@.map_values(|p: (String, String)| (p.0@, p.1@))
    }
}

impl ParameterBag {
    /// Entry names never repeat.
    pub open spec fn wf(&self) -> bool {
        keys_unique(self@)
    }

    pub fn new() -> (r: Self)
        ensures
            r@ == Seq::<(Seq<char>, Seq<char>)>::empty(),
            r.wf(),
    {
        let r = ParameterBag { entries: Vec::new() };
        proof {
            assert(r@ =~= Seq::<(Seq<char>, Seq<char>)>::empty());
        }
        r
    }

    /// Insert or overwrite `key` with `value`.
    pub fn set<K: IntoParameterValue, V: IntoParameterValue>(&mut self, key: K, value: V)
        requires
            old(self).wf(),
        ensures
            final(self)@ == bag_set(old(self)@, key.query_value(), value.query_value()),
            final(self).wf(),
    {
        let key_string = key.into_parameter_value().0;
        let value_string = value.into_parameter_value().0;
        let ghost old_view = self@;
        let ghost k = key_string@;
        let mut i: usize = 0;
        while i < self.entries.len()
            invariant
                self@ == old_view,
                old_view == old(self)@,
                self.wf(),
                i <= self.entries@.len(),
                key_string@ == k,
                k == key.query_value(),
                value_string@ == value.query_value(),
                forall|j: int| 0 <= j < i ==> old_view[j].0 != k,
            decreases self.entries@.len() - i,
        {
            if self.entries[i].0 == key_string {
                proof {
                    assert(old_view[i as int].0 == k);
                    assert(has_key(old_view, k));
                    lemma_key_index_found(old_view, k, i as int);
                }
                self.entries.remove(i);
                self.entries.push((key_string, value_string));
                proof {
                    assert(self@ =~= old_view.remove(i as int) + seq![
                        (k, value_string@),
                    ]);
                    lemma_bag_set_wf(old_view, k, value_string@);
                }
                return ;
            }
            i = i + 1;
        }
        self.entries.push((key_string, value_string));
        proof {
            assert(!has_key(old_view, k));
            assert(self@ =~= old_view + seq![(k, value_string@)]);
            lemma_bag_set_wf(old_view, k, value_string@);
        }
    }

    /// Insert `key` only when a value is present; absent values leave the
    /// bag unchanged, so the built query never carries the name.
    pub fn set_optional<K: IntoParameterValue, V: IntoParameterValue>(
        &mut self,
        key: K,
        value: Option<V>,
    )
        requires
            old(self).wf(),
        ensures
            match value {
                Some(v) => final(self)@ == bag_set(old(self)@, key.query_value(), v.query_value()),
                None => final(self)@ == old(self)@,
            },
            final(self).wf(),
    {
        match value {
            Some(v) => self.set(key, v),
            None => (),
        }
    }

    /// The collected pairs, for consumption by the URL builder.
    pub fn pairs(&self) -> (r: &Vec<(String, String)>)
        ensures
            r@.map_values(|p: (String, String)| (p.0@, p.1@)) == self@,
    {
        &self.entries
    }
}

pub proof fn lemma_key_index_found<V>(entries: Seq<(Seq<char>, V)>, key: Seq<char>, i: int)
    requires
        0 <= i < entries.len(),
        entries[i].0 == key,
        forall|j: int| 0 <= j < i ==> entries[j].0 != key,
    ensures
        key_index(entries, key) == i,
    decreases i,
{
    if i > 0 {
        lemma_key_index_found(entries.drop_first(), key, i - 1);
    }
}

/// Law: writing a pair puts exactly that pair in the bag; together with the
/// query-decoding laws this says a written pair always reaches the URL.
pub proof fn lemma_bag_set_contains(
    entries: Seq<(Seq<char>, Seq<char>)>,
    key: Seq<char>,
    value: Seq<char>,
)
    ensures
        bag_set(entries, key, value).contains((key, value)),
{
    let result = bag_set(entries, key, value);
    assert(result[result.len() - 1] == (key, value));
}

/// Law: writing one name never disturbs a pair under another name.
pub proof fn lemma_bag_set_keeps_other_pairs(
    entries: Seq<(Seq<char>, Seq<char>)>,
    key: Seq<char>,
    value: Seq<char>,
    name: Seq<char>,
    kept: Seq<char>,
)
    requires
        entries.contains((name, kept)),
        name != key,
    ensures
        bag_set(entries, key, value).contains((name, kept)),
{
    let i = choose|i: int| 0 <= i < entries.len() && entries[i] == (name, kept);
    let result = bag_set(entries, key, value);
    if has_key(entries, key) {
        lemma_key_index_in_range(entries, key);
        let r = key_index(entries, key);
        assert(entries[r].0 == key);
        assert(i != r);
        if i < r {
            assert(result[i] == entries[i]);
        } else {
            assert(result[i - 1] == entries[i]);
        }
    } else {
        assert(result[i] == entries[i]);
    }
}

proof fn lemma_bag_set_wf(entries: Seq<(Seq<char>, Seq<char>)>, key: Seq<char>, value: Seq<char>)
    requires
        keys_unique(entries),
    ensures
        keys_unique(bag_set(entries, key, value)),
{
    if has_key(entries, key) {
        let i = key_index(entries, key);
        lemma_key_index_in_range(entries, key);
        let removed = entries.remove(i);
        assert forall|a: int, b: int|
            0 <= a < b < bag_set(entries, key, value).len() implies #[trigger] bag_set(
            entries,
            key,
            value,
        )[a].0 != #[trigger] bag_set(entries, key, value)[b].0 by {
            if b < removed.len() {
            } else {
                assert(bag_set(entries, key, value)[b].0 == key);
                if a < i {
                    assert(removed[a] == entries[a]);
                    assert(entries[a].0 != key);
                } else {
                    assert(removed[a] == entries[a + 1]);
                    assert(entries[a + 1].0 != key);
                }
            }
        }
    } else {
        assert forall|a: int, b: int|
            0 <= a < b < bag_set(entries, key, value).len() implies #[trigger] bag_set(
            entries,
            key,
            value,
        )[a].0 != #[trigger] bag_set(entries, key, value)[b].0 by {
            if b == entries.len() {
                assert(bag_set(entries, key, value)[a].0 == entries[a].0);
                assert(!(exists|i: int| 0 <= i < entries.len() && entries[i].0 == key));
            }
        }
    }
}

pub proof fn lemma_key_index_in_range<V>(entries: Seq<(Seq<char>, V)>, key: Seq<char>)
    requires
        has_key(entries, key),
    ensures
        0 <= key_index(entries, key) < entries.len(),
        entries[key_index(entries, key)].0 == key,
    decreases entries.len(),
{
    if entries.len() > 0 && entries[0].0 != key {
        assert(has_key(entries.drop_first(), key)) by {
            let i = choose|i: int| 0 <= i < entries.len() && entries[i].0 == key;
            assert(entries.drop_first()[i - 1].0 == key);
        }
        lemma_key_index_in_range(entries.drop_first(), key);
    }
}

/// The query string of a built URL: the credential first, then every bag
/// entry, each percent-encoded.
pub open spec fn query_string(api_key: Seq<char>, prs: Seq<(Seq<char>, Seq<char>)>) -> Seq<char> {
    seq!['k', 'e', 'y', '='] + encoded_component(api_key) + pairs_suffix(prs)
}

/// The `&name=value` tail of a query string, one piece per entry.
pub open spec fn pairs_suffix(prs: Seq<(Seq<char>, Seq<char>)>) -> Seq<char>
    decreases prs.len(),
{
    if prs.len() == 0 {
        Seq::empty()
    } else {
        seq!['&'] + encoded_component(prs[0].0) + seq!['='] + encoded_component(prs[0].1)
            + pairs_suffix(prs.drop_first())
    }
}

/// The path as it appears in a built URL: percent-encoded, with a leading
/// slash supplied when the endpoint did not carry one.
pub open spec fn url_path(path: Seq<char>) -> Seq<char> {
    if path.len() > 0 && path[0] == '/' {
        encoded_path(path)
    } else {
        seq!['/'] + encoded_path(path)
    }
}

/// The full text of a request URL built from its four ingredients.
pub open spec fn url_spec(
    base: Seq<char>,
    path: Seq<char>,
    api_key: Seq<char>,
    prs: Seq<(Seq<char>, Seq<char>)>,
) -> Seq<char> {
    base + url_path(path) + seq!['?'] + query_string(api_key, prs)
}

pub proof fn lemma_pairs_suffix_concat(a: Seq<(Seq<char>, Seq<char>)>, b: Seq<(Seq<char>, Seq<char>)>)
    ensures
        pairs_suffix(a + b) == pairs_suffix(a) + pairs_suffix(b),
    decreases a.len(),
{
    if a.len() == 0 {
        assert(a + b =~= b);
        assert(pairs_suffix(a) + pairs_suffix(b) =~= pairs_suffix(b));
    } else {
        lemma_pairs_suffix_concat(a.drop_first(), b);
        assert((a + b).drop_first() =~= a.drop_first() + b);
        assert(seq!['&'] + encoded_component(a[0].0) + seq!['='] + encoded_component(a[0].1) + (
        pairs_suffix(a.drop_first()) + pairs_suffix(b)) =~= (seq!['&'] + encoded_component(a[0].0)
            + seq!['='] + encoded_component(a[0].1) + pairs_suffix(a.drop_first())) + pairs_suffix(
            b,
        ));
    }
}

/// Whether a string parses as an absolute URL, as the `url` crate decides it.
pub uninterp spec fn url_parse_ok(s: Seq<char>) -> bool;

/// Relies on `url::Url::parse`: returns no message exactly when the string
/// parses as an absolute URL, and the parser's diagnostic otherwise.
#[verifier::external_body]
fn check_base_url(s: &str) -> (r: Option<String>)
    ensures
        r is None <==> url_parse_ok(s@),
{
    match url::Url::parse(s) {
        Ok(_) => None,
        Err(e) => Some(e.to_string()),
    }
}

/// Build the text of a request URL from a base host, an endpoint path, a
/// credential, and the collected parameters.
///
/// Fails exactly when the base host is not a syntactically valid URL.
pub fn build_url(base: &str, path: &str, api_key: &str, parameters: &ParameterBag) -> (r: Result<
    String,
    Error,
>)
    ensures
        match r {
            Ok(u) => url_parse_ok(base@) && u@ == url_spec(base@, path@, api_key@, parameters@),
            Err(e) => !url_parse_ok(base@) && e is UrlConstruction,
        },
{
    match check_base_url(base) {
        Some(message) => Err(Error::UrlConstruction(message)),
        None => {
            let mut url = String::new();
            url.append(base);
            if path.is_empty() || path.get_char(0) != '/' {
                encoding::push_char(&mut url, '/');
            }
            let path_text = encode_path(path);
            url.append(path_text.as_str());
            encoding::push_char(&mut url, '?');
            url.append("key=");
            let key_text = encode_component(api_key);
            url.append(key_text.as_str());
            proof {
                reveal_strlit("key=");
                assert("key="@ =~= seq!['k', 'e', 'y', '=']);
                assert(url@ =~= base@ + url_path(path@) + seq!['?'] + seq!['k', 'e', 'y', '=']
                    + encoded_component(api_key@));
            }
            let ghost prs = parameters@;
            let entries = parameters.pairs();
            let ghost head = base@ + url_path(path@) + seq!['?'] + seq!['k', 'e', 'y', '=']
                + encoded_component(api_key@);
            proof {
                assert(prs.take(0) =~= Seq::<(Seq<char>, Seq<char>)>::empty());
                assert(pairs_suffix(Seq::<(Seq<char>, Seq<char>)>::empty())
                    =~= Seq::<char>::empty());
                assert(url@ =~= head + pairs_suffix(prs.take(0)));
            }
            let mut i: usize = 0;
            while i < entries.len()
                invariant
                    i <= entries@.len(),
                    prs == entries@.map_values(|p: (String, String)| (p.0@, p.1@)),
                    url@ == head + pairs_suffix(prs.take(i as int)),
                decreases entries@.len() - i,
            {
                encoding::push_char(&mut url, '&');
                let name_text = encode_component(entries[i].0.as_str());
                url.append(name_text.as_str());
                encoding::push_char(&mut url, '=');
                let value_text = encode_component(entries[i].1.as_str());
                url.append(value_text.as_str());
                proof {
                    let piece = seq![prs[i as int]];
                    lemma_pairs_suffix_concat(prs.take(i as int), piece);
                    assert(piece.drop_first() =~= Seq::<(Seq<char>, Seq<char>)>::empty());
                    assert(pairs_suffix(piece) == seq!['&'] + encoded_component(piece[0].0)
                        + seq!['='] + encoded_component(piece[0].1) + pairs_suffix(
                        piece.drop_first(),
                    ));
                    assert(pairs_suffix(Seq::<(Seq<char>, Seq<char>)>::empty())
                        =~= Seq::<char>::empty());
                    assert(pairs_suffix(piece) =~= seq!['&'] + encoded_component(prs[i as int].0)
                        + seq!['='] + encoded_component(prs[i as int].1));
                    assert(prs.take(i as int + 1) =~= prs.take(i as int) + piece);
                    assert(url@ =~= head + pairs_suffix(prs.take(i as int + 1)));
                }
                i = i + 1;
            }
            proof {
                assert(prs.take(prs.len() as int) =~= prs);
                assert(url@ =~= url_spec(base@, path@, api_key@, prs));
            }
            Ok(url)
        },
    }
}

/// A handle on the remote API: owns the credential used to authenticate
/// every request. Immutable after construction.
pub struct ShodanClient {
    api_key: String,
}

impl ShodanClient {
    /// The credential this client sends as the `key` query parameter.
    pub closed spec fn spec_api_key(&self) -> Seq<char> {
        self.api_key@
    }

    pub fn new(api_key: String) -> (client: Self)
        ensures
            client.spec_api_key() == api_key@,
    {
        Self { api_key }
    }

    /// Build the URL of a request against this client's fixed base host,
    /// carrying its credential and the given parameters.
    pub fn build_request_url(&self, endpoint: &str, parameters: &ParameterBag) -> (r: Result<
        String,
        Error,
    >)
        ensures
            match r {
                Ok(u) => url_parse_ok(BASE_API_URL@) && u@ == url_spec(
                    BASE_API_URL@,
                    endpoint@,
                    self.spec_api_key(),
                    parameters@,
                ),
                Err(e) => !url_parse_ok(BASE_API_URL@) && e is UrlConstruction,
            },
    {
        build_url(BASE_API_URL, endpoint, self.api_key.as_str(), parameters)
    }
}

} // verus!
