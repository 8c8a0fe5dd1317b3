use vstd::prelude::*;

use crate::errors::CliError;

verus! {

/// Everything the tool was asked to do: what to hit and how hard.
#[derive(Debug)]
pub struct Options {
    pub target_parameters: TargetParameters,
    pub test_parameters: TestParameters,
}

impl Options {
    /// Puts the two halves of the options together.
    pub fn from_params(params: TestParameters, target_params: TargetParameters) -> (res: Options)
        ensures
            res.test_parameters == params,
            res.target_parameters == target_params,
    {
        Options { target_parameters: target_params, test_parameters: params }
    }
}

/// The request that every test sends: the target URL and HTTP method as
/// given on the command line, an optional body and the extra headers.
#[derive(Debug)]
pub struct TargetParameters {
    pub body: Option<String>,
    pub headers: Vec<Header>,
    pub method: String,
    pub url: String,
}

/// One HTTP header, given on the command line as `Name: Value`.
#[derive(Debug)]
pub struct Header {
    pub name: String,
    pub value: String,
}

impl TargetParameters {
    /// Both describe the same request: the same body, headers, method and URL.
    pub open spec fn same_as(self, other: TargetParameters) -> bool {
        &&& self.body == other.body
        &&& self.headers@ == other.headers@
        &&& self.method == other.method
        &&& self.url == other.url
    }
}

impl Clone for Header {
    /// A header with the same name and value.
    fn clone(&self) -> (res: Header)
        ensures
            res == *self,
    {
        Header { name: self.name.clone(), value: self.value.clone() }
    }
}

impl Clone for TargetParameters {
    /// Target parameters with the same body, headers, method and URL.
    fn clone(&self) -> (res: TargetParameters)
        ensures
            res.same_as(*self),
    {
        let body = match &self.body {
            Some(text) => Some(text.clone()),
            None => None,
        };
        let headers = self.headers.clone();
        proof {
            assert(headers@ =~= self.headers@);
        }
        TargetParameters {
            body,
            headers,
            method: self.method.clone(),
            url: self.url.clone(),
        }
    }
}

/// How the test is run: the number of connections, the total number of
/// requests, debug logging, the output format and the HTTP client.
#[derive(Debug, Clone)]
pub struct TestParameters {
    pub connection_count: u32,
    pub request_count: u32,
    pub debug: bool,
    pub output: Option<OutputType>,
    pub client: HttpClientType,
}

/// The HTTP client implementation that sends the requests.
#[derive(Debug, Clone, Copy, PartialEq, Eq, Structural)]
pub enum HttpClientType {
    Isahc,
    H1,
    Hyper,
}

/// How the results are reported: a summary table, or one JSON or RON
/// line per request.
#[derive(Debug, Clone, Copy, PartialEq, Eq, Structural)]
pub enum OutputType {
    Cli,
    Json,
    Ron,
}

/// What `str::to_lowercase` of std makes of a text: each character
/// replaced by its Unicode lower-case mapping.
pub uninterp spec fn lowercase(s: Seq<char>) -> Seq<char>;

/// What `char::is_whitespace` of std says of a character: whether it has
/// the Unicode `White_Space` property, which these code points have.
pub open spec fn white_space(c: char) -> bool {
    let n = c as u32;
    ||| 0x9 <= n <= 0xD
    ||| n == 0x20
    ||| n == 0x85
    ||| n == 0xA0
    ||| n == 0x1680
    ||| 0x2000 <= n <= 0x200A
    ||| n == 0x2028
    ||| n == 0x2029
    ||| n == 0x202F
    ||| n == 0x205F
    ||| n == 0x3000
}

/// `t` is `s` without its leading and trailing white space: a contiguous
/// part of `s` with only white space outside it, and no white space at
/// either of its ends.
pub open spec fn is_trim_of(t: Seq<char>, s: Seq<char>) -> bool {
    exists|i: int, j: int|
        #![trigger s.subrange(i, j)]
        0 <= i <= j <= s.len() && t == s.subrange(i, j) && (forall|k: int|
            0 <= k < i ==> white_space(#[trigger] s[k])) && (forall|k: int|
            j <= k < s.len() ==> white_space(#[trigger] s[k])) && (i < j ==> !white_space(s[i])
            && !white_space(s[j - 1]))
}

/// Every character of `s` is white space.
pub open spec fn all_white_space(s: Seq<char>) -> bool {
    forall|k: int| 0 <= k < s.len() ==> white_space(#[trigger] s[k])
}

/// A trimmed text is empty exactly where the text was all white space.
pub proof fn lemma_trim_empty(t: Seq<char>, s: Seq<char>)
    requires
        is_trim_of(t, s),
    ensures
        t.len() == 0 <==> all_white_space(s),
{
    let (i, j) = choose|i: int, j: int|
        #![trigger s.subrange(i, j)]
        0 <= i <= j <= s.len() && t == s.subrange(i, j) && (forall|k: int|
            0 <= k < i ==> white_space(#[trigger] s[k])) && (forall|k: int|
            j <= k < s.len() ==> white_space(#[trigger] s[k])) && (i < j ==> !white_space(s[i])
            && !white_space(s[j - 1]));
    if t.len() == 0 {
        assert forall|k: int| 0 <= k < s.len() implies white_space(#[trigger] s[k]) by {
            if k >= i {
                assert(j <= k);
            }
        }
    } else {
        assert(!white_space(s[i]));
    }
}

/// `str::to_lowercase` of std; its result is named [`lowercase`], and
/// nothing more is claimed of it.
#[verifier::external_body]
fn to_lowercase(s: &str) -> (res: String)
    ensures
        res@ == lowercase(s@),
{
    s.to_lowercase()
}

/// `str::trim` of std: as its documentation says, the text with leading
/// and trailing white space removed, where white space is the Unicode
/// `White_Space` property ([`white_space`]).
#[verifier::external_body]
fn trim_text(s: &str) -> (res: &str)
    ensures
        is_trim_of(res@, s@),
        res@.len() > 0 ==> !white_space(res@[0]) && !white_space(res@.last()),
{
    s.trim()
}

/// Whether two texts hold the same characters.
pub fn same_text(a: &str, b: &str) -> (res: bool)
    ensures
        res == (a@ == b@),
{
    let n = a.unicode_len();
    if n != b.unicode_len() {
        return false;
    }
    let mut i: usize = 0;
    while i < n
        invariant
            n == a@.len(),
            n == b@.len(),
            i <= n,
            forall|j: int| 0 <= j < i ==> a@[j] == b@[j],
        decreases n - i,
    {
        if a.get_char(i) != b.get_char(i) {
            return false;
        }
        i += 1;
    }
    assert(a@ =~= b@);
    true
}

/// The text `prefix` followed by `rest`.
fn joined(prefix: &str, rest: &str) -> (res: String)
    ensures
        res@ == prefix@ + rest@,
{
    let mut text = String::from_str(prefix);
    text.append(rest);
    text
}

/// The client that a lower-case name stands for.
pub open spec fn client_named(lowered: Seq<char>) -> Option<HttpClientType> {
    if lowered == "isahc"@ {
        Some(HttpClientType::Isahc)
    } else if lowered == "h1"@ {
        Some(HttpClientType::H1)
    } else if lowered == "hyper"@ {
        Some(HttpClientType::Hyper)
    } else {
        None
    }
}

/// `res` is what parsing the client name `given`, whose lower-case form
/// is `lowered`, gives: the client it names, or a validation error that
/// quotes `given`.
pub open spec fn client_parsed(
    res: Result<HttpClientType, CliError>,
    lowered: Seq<char>,
    given: Seq<char>,
) -> bool {
    match client_named(lowered) {
        Some(client) => res == Ok::<HttpClientType, CliError>(client),
        None => res matches Err(CliError::ValidationError(message)) && message@
            == "Could not choose client "@ + given,
    }
}

/// Exactly three names are accepted for a client, each for its own
/// client: `isahc` for Isahc, `h1` for H1 and `hyper` for Hyper; every
/// other lower-case name is refused.
pub proof fn lemma_client_names(lowered: Seq<char>)
    ensures
        client_named(lowered) == Some(HttpClientType::Isahc) <==> lowered == "isahc"@,
        client_named(lowered) == Some(HttpClientType::H1) <==> lowered == "h1"@,
        client_named(lowered) == Some(HttpClientType::Hyper) <==> lowered == "hyper"@,
        client_named(lowered) is None <==> (lowered != "isahc"@ && lowered != "h1"@ && lowered
            != "hyper"@),
{
    reveal_strlit("isahc");
    reveal_strlit("h1");
    reveal_strlit("hyper");
    assert("isahc"@.len() == 5);
    assert("h1"@.len() == 2);
    assert("hyper"@.len() == 5);
    assert("isahc"@[0] != "hyper"@[0]);
}

impl HttpClientType {
    /// The client named by `lowered`, the lower-case form of the user's
    /// text `given`; an error that quotes `given` for any other name.
    pub fn from_lowercase(lowered: &str, given: &str) -> (res: Result<HttpClientType, CliError>)
        ensures
            client_parsed(res, lowered@, given@),
            res == Ok::<HttpClientType, CliError>(HttpClientType::Isahc) <==> lowered@ == "isahc"@,
            res == Ok::<HttpClientType, CliError>(HttpClientType::H1) <==> lowered@ == "h1"@,
            res == Ok::<HttpClientType, CliError>(HttpClientType::Hyper) <==> lowered@ == "hyper"@,
            res is Err <==> (lowered@ != "isahc"@ && lowered@ != "h1"@ && lowered@ != "hyper"@),
    {
        proof {
            lemma_client_names(lowered@);
        }
        if same_text(lowered, "isahc") {
            Ok(HttpClientType::Isahc)
        } else if same_text(lowered, "h1") {
            Ok(HttpClientType::H1)
        } else if same_text(lowered, "hyper") {
            Ok(HttpClientType::Hyper)
        } else {
            Err(CliError::ValidationError(joined("Could not choose client ", given)))
        }
    }

    /// The client named by `s`, in any case: `isahc`, `h1` or `hyper`.
    pub fn parse(s: &str) -> (res: Result<HttpClientType, CliError>)
        ensures
            client_parsed(res, lowercase(s@), s@),
            res == Ok::<HttpClientType, CliError>(HttpClientType::Isahc) <==> lowercase(s@)
                == "isahc"@,
            res == Ok::<HttpClientType, CliError>(HttpClientType::H1) <==> lowercase(s@) == "h1"@,
            res == Ok::<HttpClientType, CliError>(HttpClientType::Hyper) <==> lowercase(s@)
                == "hyper"@,
            res is Err <==> (lowercase(s@) != "isahc"@ && lowercase(s@) != "h1"@ && lowercase(s@)
                != "hyper"@),
    {
        let lowered = to_lowercase(s);
        HttpClientType::from_lowercase(lowered.as_str(), s)
    }
}

impl std::str::FromStr for HttpClientType {
    type Err = CliError;

    fn from_str(s: &str) -> (res: Result<HttpClientType, CliError>)
        ensures
            client_parsed(res, lowercase(s@), s@),
    {
        HttpClientType::parse(s)
    }
}

/// The output format that a lower-case name stands for: `json`, `ron`,
/// and the summary table for anything else.
pub open spec fn output_named(lowered: Seq<char>) -> OutputType {
    if lowered == "json"@ {
        OutputType::Json
    } else if lowered == "ron"@ {
        OutputType::Ron
    } else {
        OutputType::Cli
    }
}

impl OutputType {
    /// The output format named by the lower-case text `lowered`.
    pub fn from_lowercase(lowered: &str) -> (res: OutputType)
        ensures
            res == output_named(lowered@),
    {
        if same_text(lowered, "json") {
            OutputType::Json
        } else if same_text(lowered, "ron") {
            OutputType::Ron
        } else {
            OutputType::Cli
        }
    }

    /// The output format named by `s`, in any case; any name other than
    /// `json` and `ron` means the summary table, so this never fails.
    pub fn parse(s: &str) -> (res: Result<OutputType, CliError>)
        ensures
            res == Ok::<OutputType, CliError>(output_named(lowercase(s@))),
    {
        let lowered = to_lowercase(s);
        Ok(OutputType::from_lowercase(lowered.as_str()))
    }
}

impl std::str::FromStr for OutputType {
    type Err = CliError;

    fn from_str(s: &str) -> (res: Result<OutputType, CliError>)
        ensures
            res == Ok::<OutputType, CliError>(output_named(lowercase(s@))),
    {
        OutputType::parse(s)
    }
}

/// Where the first `:` of `s` stands, if it has one.
pub open spec fn first_colon(s: Seq<char>) -> Option<int> {
    if exists|k: int| 0 <= k < s.len() && s[k] == ':' {
        Some(choose|k: int| 0 <= k < s.len() && s[k] == ':' && forall|j: int| 0 <= j < k ==> s[j] != ':')
    } else {
        None
    }
}

/// `res` is what parsing the header text `given` gives: where it has a
/// `:` and some name before it, the header whose name is the text before
/// the first `:` and whose value is the text after it, each without its
/// leading and trailing white space; otherwise a validation error that
/// quotes `given`.
pub open spec fn header_parsed(res: Result<Header, CliError>, given: Seq<char>) -> bool {
    match first_colon(given) {
        Some(k) if !all_white_space(given.take(k)) => res matches Ok(header) && is_trim_of(
            header.name@,
            given.take(k),
        ) && is_trim_of(header.value@, given.skip(k + 1)),
        _ => res matches Err(CliError::ValidationError(message)) && message@
            == "Could not parse header "@ + given,
    }
}

/// The position of the first `:` of `s`, if it has one.
fn find_colon(s: &str) -> (res: Option<usize>)
    ensures
        match res {
            Some(k) => 0 <= k < s@.len() && s@[k as int] == ':' && forall|j: int|
                0 <= j < k ==> s@[j] != ':',
            None => forall|j: int| 0 <= j < s@.len() ==> s@[j] != ':',
        },
{
    let n = s.unicode_len();
    let mut i: usize = 0;
    while i < n
        invariant
            n == s@.len(),
            i <= n,
            forall|j: int| 0 <= j < i ==> s@[j] != ':',
        decreases n - i,
    {
        if s.get_char(i) == ':' {
            return Some(i);
        }
        i += 1;
    }
    None
}

impl Header {
    /// The header with the already trimmed `name` and `value` taken from
    /// the user's text `given`; an error that quotes `given` where the
    /// name is empty.
    pub fn from_trimmed(name: &str, value: &str, given: &str) -> (res: Result<Header, CliError>)
        ensures
            name@.len() > 0 ==> (res matches Ok(header) && header.name@ == name@ && header.value@
                == value@),
            name@.len() == 0 ==> (res matches Err(CliError::ValidationError(message)) && message@
                == "Could not parse header "@ + given@),
    {
        if name.unicode_len() == 0 {
            Err(CliError::ValidationError(joined("Could not parse header ", given)))
        } else {
            Ok(Header { name: String::from_str(name), value: String::from_str(value) })
        }
    }

    /// The header written as `Name: Value`.
    pub fn parse(s: &str) -> (res: Result<Header, CliError>)
        ensures
            header_parsed(res, s@),
    {
        match find_colon(s) {
            Some(k) => {
                proof {
                    assert(exists|j: int| 0 <= j < s@.len() && s@[j] == ':');
                    let c = choose|j: int|
                        0 <= j < s@.len() && s@[j] == ':' && forall|i: int| 0 <= i < j ==> s@[i] != ':';
                    assert(c == k as int) by {
                        if c < k {
                            assert(s@[c] != ':');
                        } else if c > k {
                            assert(s@[k as int] != ':');
                        }
                    }
                }
                let n = s.unicode_len();
                let name = trim_text(s.substring_char(0, k));
                let value = trim_text(s.substring_char(k + 1, n));
                proof {
                    assert(s@.subrange(0, k as int) =~= s@.take(k as int));
                    assert(s@.subrange(k + 1, n as int) =~= s@.skip(k + 1));
                    lemma_trim_empty(name@, s@.take(k as int));
                }
                Header::from_trimmed(name, value, s)
            },
            None => Err(CliError::ValidationError(joined("Could not parse header ", s))),
        }
    }
}

impl std::str::FromStr for Header {
    type Err = CliError;

    fn from_str(s: &str) -> (res: Result<Header, CliError>)
        ensures
            header_parsed(res, s@),
    {
        Header::parse(s)
    }
}

} // verus!
