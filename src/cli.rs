//! Validation of the command line: request URLs and `key=value` body pairs.
use vstd::prelude::*;
use vstd::string::StrSliceExecFns;
use vstd::string::StringExecFns;

verus! {

/// Why a command-line argument was rejected; each variant holds the argument.
#[derive(Debug, Clone)]
pub enum ParseError {
    InvalidUrl(String),
    InvalidPair(String),
}

/// A character that may stand in a URL scheme.
pub open spec fn is_scheme_char(c: char) -> bool {
    ||| ('a' <= c && c <= 'z')
    ||| ('A' <= c && c <= 'Z')
    ||| ('0' <= c && c <= '9')
    ||| c == '+' || c == '-' || c == '.'
}

/// A control character or a space (at most U+0020); the URL parser ignores
/// these around a URL and ignores tabs and line breaks within it.
pub open spec fn is_control_or_space(c: char) -> bool {
    c as u32 <= 0x20
}

/// `s` starts with a scheme: a `:` before which, controls and spaces aside,
/// stand only scheme characters, the first of them an ASCII letter.
pub open spec fn has_scheme(s: Seq<char>) -> bool {
    exists|i: int|
        #![trigger s[i]]
        0 <= i < s.len() && s[i] == ':' && (forall|j: int|
            0 <= j < i ==> is_control_or_space(s[j]) || is_scheme_char(s[j])) && (exists|j: int|
            0 <= j < i && (('a' <= s[j] && s[j] <= 'z') || ('A' <= s[j] && s[j] <= 'Z'))
                && forall|k: int| 0 <= k < j ==> is_control_or_space(#[trigger] s[k]))
}

/// What `reqwest::Url`'s parser (the `url` crate) makes of a string: nothing
/// where it is no absolute URL, else whether the URL has a host.
pub uninterp spec fn url_host_presence(s: Seq<char>) -> Option<bool>;

/// Relies on `<url::Url as FromStr>::from_str` (re-exported by reqwest) and
/// `Url::has_host`: the answer depends on the text alone, and a URL that
/// parses starts with a scheme (`Parser::parse_scheme`).
#[verifier::external_body]
fn url_has_host(s: &str) -> (r: Option<bool>)
    ensures
        r == url_host_presence(s@),
        r is Some ==> has_scheme(s@),
{
    match s.parse::<reqwest::Url>() {
        Ok(u) => Some(u.has_host()),
        Err(_) => None,
    }
}

/// Accepts `url` exactly when it parses as an absolute URL with a host, and
/// hands it back.
pub fn parse_url(url: &str) -> (r: Result<String, ParseError>)
    ensures
        r is Ok <==> url_host_presence(url@) == Some(true),
        !has_scheme(url@) ==> r is Err,
        r matches Ok(u) ==> u@ == url@,
        r matches Err(e) ==> e matches ParseError::InvalidUrl(a) && a@ == url@,
{
    match url_has_host(url) {
        Some(true) => Ok(url.to_owned()),
        _ => Err(ParseError::InvalidUrl(url.to_owned())),
    }
}

/// A POST body entry given on the command line as `key=value`.
#[derive(Debug, Clone)]
pub struct PostBodyKVPair {
    pub key: String,
    pub value: String,
}

/// ASCII whitespace: space, tab, line feed, carriage return, vertical tab
/// and form feed.
pub open spec fn is_whitespace(c: char) -> bool {
    c == ' ' || c == '\t' || c == '\n' || c == '\r' || c == '\x0B' || c == '\x0C'
}

/// `s` with all whitespace removed.
pub open spec fn strip_whitespace(s: Seq<char>) -> Seq<char>
    decreases s.len(),
{
    if s.len() == 0 {
        Seq::empty()
    } else if is_whitespace(s.last()) {
        strip_whitespace(s.drop_last())
    } else {
        strip_whitespace(s.drop_last()).push(s.last())
    }
}

/// `s` holds no whitespace.
pub open spec fn no_whitespace(s: Seq<char>) -> bool {
    forall|i: int| 0 <= i < s.len() ==> !is_whitespace(#[trigger] s[i])
}

/// `i` is the position of the first `=` of `t`, with a non-empty key before it
/// and a non-empty value after it.
pub open spec fn splits_at(t: Seq<char>, i: int) -> bool {
    &&& 0 < i < t.len() - 1
    &&& t[i] == '='
    &&& !t.take(i).contains('=')
}

/// The key and value that a token denotes: whitespace is removed, then the
/// text is split at its first `=`; a side left empty, or no `=`, gives nothing.
pub open spec fn token_pair(s: Seq<char>) -> Option<(Seq<char>, Seq<char>)> {
    let t = strip_whitespace(s);
    if exists|i: int| splits_at(t, i) {
        let i = choose|i: int| splits_at(t, i);
        Some((t.take(i), t.skip(i + 1)))
    } else {
        None
    }
}

/// Whether `c` is whitespace.
fn char_is_whitespace(c: char) -> (r: bool)
    ensures
        r == is_whitespace(c),
{
    c == ' ' || c == '\t' || c == '\n' || c == '\r' || c == '\x0B' || c == '\x0C'
}

/// Removes the whitespace of `s`.
fn remove_whitespace(s: &str) -> (r: String)
    ensures
        r@ == strip_whitespace(s@),
{
    let n = s.unicode_len();
    let mut r = String::new();
    let mut i: usize = 0;
    while i < n
        invariant
            n == s@.len(),
            i <= n,
            r@ == strip_whitespace(s@.take(i as int)),
        decreases n - i,
    {
        let c = s.get_char(i);
        assert(s@.take(i + 1).drop_last() =~= s@.take(i as int));
        if !char_is_whitespace(c) {
            let one = s.substring_char(i, i + 1);
            assert(one@ =~= seq![c]);
            r.append(one);
            assert(r@ =~= strip_whitespace(s@.take(i as int)).push(c));
        }
        i = i + 1;
    }
    assert(s@.take(n as int) =~= s@);
    r
}

/// The position of the first `=` in `t`, if there is one.
fn first_equals(t: &str) -> (r: Option<usize>)
    ensures
        r matches Some(i) ==> i < t@.len() && t@[i as int] == '=' && !t@.take(i as int).contains('='),
        r is None ==> !t@.contains('='),
{
    let n = t.unicode_len();
    let mut i: usize = 0;
    while i < n
        invariant
            n == t@.len(),
            i <= n,
            !t@.take(i as int).contains('='),
        decreases n - i,
    {
        if t.get_char(i) == '=' {
            return Some(i);
        }
        assert(t@.take(i + 1) =~= t@.take(i as int).push(t@[i as int]));
        i = i + 1;
    }
    assert(t@.take(n as int) =~= t@);
    None
}

/// A text splits, if anywhere, only at its first `=`.
pub proof fn lemma_split_only_at_first_equals(t: Seq<char>, i: int)
    requires
        0 <= i < t.len(),
        t[i] == '=',
        !t.take(i).contains('='),
    ensures
        forall|j: int| splits_at(t, j) ==> j == i,
{
    assert forall|j: int| splits_at(t, j) implies j == i by {
        if j < i {
            assert(t.take(i)[j] == '=');
        } else if j > i {
            assert(t.take(j)[i] == '=');
        }
    }
}

impl PostBodyKVPair {
    /// Reads a `key=value` token: whitespace is dropped, the first `=` splits
    /// key from value (the value may hold more `=`), and both sides must be
    /// non-empty; otherwise the token is refused.
    pub fn from_str(s: &str) -> (r: Result<PostBodyKVPair, ParseError>)
        ensures
            r is Ok <==> token_pair(s@) is Some,
            r matches Ok(p) ==> token_pair(s@) == Some((p.key@, p.value@)),
            r matches Err(e) ==> e matches ParseError::InvalidPair(a) && a@ == s@,
    {
        let t = remove_whitespace(s);
        let ghost tv = t@;
        let n = t.as_str().unicode_len();
        match first_equals(t.as_str()) {
            Some(i) => {
                proof {
                    lemma_split_only_at_first_equals(tv, i as int);
                }
                if 0 < i && i + 1 < n {
                    assert(splits_at(tv, i as int));
                    let key = t.as_str().substring_char(0, i).to_owned();
                    let value = t.as_str().substring_char(i + 1, n).to_owned();
                    assert(key@ =~= tv.take(i as int));
                    assert(value@ =~= tv.skip(i + 1));
                    Ok(PostBodyKVPair { key, value })
                } else {
                    Err(ParseError::InvalidPair(s.to_owned()))
                }
            },
            None => {
                assert(!exists|j: int| splits_at(tv, j)) by {
                    if exists|j: int| splits_at(tv, j) {
                        let j = choose|j: int| splits_at(tv, j);
                        assert(tv.contains('=')) by {
                            assert(tv[j] == '=');
                        }
                    }
                }
                Err(ParseError::InvalidPair(s.to_owned()))
            },
        }
    }
}

/// Reads one POST body argument; see [`PostBodyKVPair::from_str`].
pub fn parse_body_kv_pair(s: &str) -> (r: Result<PostBodyKVPair, ParseError>)
    ensures
        r is Ok <==> token_pair(s@) is Some,
        r matches Ok(p) ==> token_pair(s@) == Some((p.key@, p.value@)),
        r matches Err(e) ==> e matches ParseError::InvalidPair(a) && a@ == s@,
{
    PostBodyKVPair::from_str(s)
}

/// Removing whitespace distributes over concatenation.
pub proof fn lemma_strip_whitespace_concat(a: Seq<char>, b: Seq<char>)
    ensures
        strip_whitespace(a + b) == strip_whitespace(a) + strip_whitespace(b),
    decreases b.len(),
{
    if b.len() == 0 {
        assert(a + b =~= a);
        assert(strip_whitespace(a) + strip_whitespace(b) =~= strip_whitespace(a));
    } else {
        assert((a + b).drop_last() =~= a + b.drop_last());
        assert((a + b).last() == b.last());
        lemma_strip_whitespace_concat(a, b.drop_last());
        if !is_whitespace(b.last()) {
            assert(strip_whitespace(a) + strip_whitespace(b.drop_last()).push(b.last())
                =~= (strip_whitespace(a) + strip_whitespace(b.drop_last())).push(b.last()));
        }
    }
}

/// Text without whitespace is left as it is by [`strip_whitespace`].
pub proof fn lemma_strip_whitespace_identity(s: Seq<char>)
    requires
        no_whitespace(s),
    ensures
        strip_whitespace(s) == s,
    decreases s.len(),
{
    if s.len() > 0 {
        assert(no_whitespace(s.drop_last())) by {
            assert forall|k: int| 0 <= k < s.drop_last().len() implies !is_whitespace(
                #[trigger] s.drop_last()[k],
            ) by {
                assert(s.drop_last()[k] == s[k]);
            }
        }
        lemma_strip_whitespace_identity(s.drop_last());
        assert(!is_whitespace(s.last())) by {
            assert(s[s.len() - 1] == s.last());
        }
        assert(s.drop_last().push(s.last()) =~= s);
    }
}

/// Whitespace put anywhere into a token changes neither whether it is
/// accepted nor its key and value.
pub proof fn lemma_whitespace_ignored(a: Seq<char>, b: Seq<char>, w: char)
    requires
        is_whitespace(w),
    ensures
        token_pair(a + seq![w] + b) == token_pair(a + b),
{
    lemma_strip_whitespace_concat(a + seq![w], b);
    lemma_strip_whitespace_concat(a, seq![w]);
    lemma_strip_whitespace_concat(a, b);
    assert(seq![w].drop_last() =~= Seq::<char>::empty());
    assert(strip_whitespace(seq![w]) =~= Seq::<char>::empty()) by {
        let one = seq![w];
        assert(one.len() == 1);
        assert(one.last() == w);
        assert(strip_whitespace(one) == strip_whitespace(one.drop_last()));
        assert(strip_whitespace(Seq::<char>::empty()) =~= Seq::<char>::empty());
    }
    assert(strip_whitespace(a) + Seq::<char>::empty() =~= strip_whitespace(a));
}

/// A token `a=b`, with `a` and `b` non-empty and free of whitespace and `a`
/// free of `=`, gives key `a` and value `b`; `b` may itself hold `=`, so only
/// the first `=` splits.
pub proof fn lemma_token_splits_at_first_equals(a: Seq<char>, b: Seq<char>)
    requires
        a.len() > 0,
        b.len() > 0,
        !a.contains('='),
        no_whitespace(a),
        no_whitespace(b),
    ensures
        token_pair(a + seq!['='] + b) == Some((a, b)),
{
    let t = a + seq!['='] + b;
    let i = a.len() as int;
    assert forall|k: int| 0 <= k < t.len() implies !is_whitespace(#[trigger] t[k]) by {
        if k < i {
            assert(t[k] == a[k]);
        } else if k > i {
            assert(t[k] == b[k - i - 1]);
        }
    }
    lemma_strip_whitespace_identity(t);
    assert(t.take(i) =~= a);
    assert(t.skip(i + 1) =~= b);
    assert(splits_at(t, i));
    lemma_split_only_at_first_equals(t, i);
}

/// A token is refused when, whitespace removed, it has no `=`, starts with
/// `=` (empty key), or has its first `=` at the end (empty value).
pub proof fn lemma_token_refused(s: Seq<char>)
    requires
        ({
            let t = strip_whitespace(s);
            ||| !t.contains('=')
            ||| (t.len() > 0 && t[0] == '=')
            ||| (t.len() > 0 && t.last() == '=' && !t.drop_last().contains('='))
        }),
    ensures
        token_pair(s) is None,
{
    let t = strip_whitespace(s);
    if exists|i: int| splits_at(t, i) {
        let i = choose|i: int| splits_at(t, i);
        if !t.contains('=') {
            assert(t[i] == '=');
        } else if t.len() > 0 && t[0] == '=' {
            assert(t.take(i)[0] == '=');
        } else {
            assert(t.drop_last()[i] == '=');
        }
    }
}

} // verus!
