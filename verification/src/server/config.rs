//! Server configuration: command-line settings and the secrets read from
//! files (plain, or as `KEY=value` lines).
use vstd::prelude::*;

use crate::server::error::BackendError;
use crate::text::{
    chars_of, copy_range, is_whitespace, string_of_range, to_owned, trim, trim_bounds, trim_start,
};

verus! {

/// The command-line settings. Paths are kept as displayed text, and
/// `upstream_timeout_seconds` is positive.
#[derive(Clone, Debug, PartialEq, Eq)]
pub struct Cli {
    pub lastfm_api_key_path: String,
    pub goodreads_rss_url_path: String,
    pub lastfm_username: String,
    pub letterboxd_rss_url: String,
    pub upstream_timeout_seconds: u64,
}

/// The settings the server runs with.
#[derive(Clone, Debug, PartialEq, Eq)]
pub struct ServerConfig {
    pub lastfm_api_key: String,
    pub lastfm_username: String,
    pub letterboxd_rss_url: String,
    pub goodreads_rss_url: String,
    pub upstream_timeout_seconds: u64,
}

/// The index of the first `'\n'` in `s` at or after `i` (`s.len()` when
/// there is none).
pub open spec fn newline_from(s: Seq<char>, i: int) -> int
    decreases s.len() - i,
{
    if i < 0 || i >= s.len() {
        s.len() as int
    } else if s[i] == '\n' {
        i
    } else {
        newline_from(s, i + 1)
    }
}

/// `s` without one trailing `'\r'`.
pub open spec fn strip_cr(s: Seq<char>) -> Seq<char> {
    if s.len() > 0 && s.last() == '\r' {
        s.drop_last()
    } else {
        s
    }
}

/// The index of the first character of `s` at or after `i` that is not
/// `c` (`s.len()` when there is none).
pub open spec fn skip_char_from(s: Seq<char>, c: char, i: int) -> int
    decreases s.len() - i,
{
    if 0 <= i < s.len() && s[i] == c {
        skip_char_from(s, c, i + 1)
    } else {
        i
    }
}

/// The length of the longest prefix of `s.take(j)` that does not end in `c`.
pub open spec fn trim_char_end_len(s: Seq<char>, c: char, j: int) -> int
    decreases j,
{
    if 0 < j <= s.len() && s[j - 1] == c {
        trim_char_end_len(s, c, j - 1)
    } else {
        j
    }
}

/// `str::trim_matches(c)`: `s` without the copies of `c` at either end.
pub open spec fn trim_matches(s: Seq<char>, c: char) -> Seq<char> {
    let t = s.skip(skip_char_from(s, c, 0));
    t.take(trim_char_end_len(t, c, t.len() as int))
}

/// The value a single line gives for `key`: the trimmed line must start
/// with `key`, then (after optional whitespace) `=`; the value is what
/// follows, trimmed, without surrounding double quotes.
pub open spec fn dotenv_line_value(line: Seq<char>, key: Seq<char>) -> Option<Seq<char>> {
    let t = trim(line);
    if key.is_prefix_of(t) {
        let rest = trim_start(t.skip(key.len() as int));
        if rest.len() > 0 && rest[0] == '=' {
            Some(trim_matches(trim(rest.drop_first()), '"'))
        } else {
            None
        }
    } else {
        None
    }
}

/// The value of the first line at or after index `p` of `s` that gives
/// one for `key`. Lines end at `'\n'`, and a `'\r'` just before it is not
/// part of the line.
pub open spec fn dotenv_from(s: Seq<char>, key: Seq<char>, p: int) -> Option<Seq<char>>
    decreases s.len() - p,
{
    if p < 0 || p >= s.len() {
        None
    } else {
        let k = newline_from(s, p);
        let line = if k < s.len() {
            strip_cr(s.subrange(p, k))
        } else {
            s.subrange(p, s.len() as int)
        };
        match dotenv_line_value(line, key) {
            Some(v) => Some(v),
            None => if p <= k < s.len() {
                dotenv_from(s, key, k + 1)
            } else {
                None
            },
        }
    }
}

/// The value that the text of a `.env`-style file gives for `key`: that of
/// its first line of the form `KEY = value`.
pub open spec fn dotenv_spec(s: Seq<char>, key: Seq<char>) -> Option<Seq<char>> {
    dotenv_from(s, key, 0)
}

proof fn lemma_newline_from(s: Seq<char>, i: int)
    requires
        0 <= i <= s.len(),
    ensures
        i <= newline_from(s, i) <= s.len(),
        newline_from(s, i) < s.len() ==> s[newline_from(s, i)] == '\n',
        forall|k: int| i <= k < newline_from(s, i) ==> s[k] != '\n',
    decreases s.len() - i,
{
    if i < s.len() && s[i] != '\n' {
        lemma_newline_from(s, i + 1);
    }
}

/// The bounds of `trim_matches(s[from..to], c)` inside `s`.
fn trim_char_bounds(s: &[char], c: char, from: usize, to: usize) -> (res: (usize, usize))
    requires
        from <= to <= s@.len(),
    ensures
        from <= res.0 <= res.1 <= to,
        s@.subrange(res.0 as int, res.1 as int) == trim_matches(
            s@.subrange(from as int, to as int),
            c,
        ),
{
    let ghost u = s@.subrange(from as int, to as int);
    let mut i: usize = from;
    while i < to && s[i] == c
        invariant
            from <= i <= to <= s@.len(),
            u == s@.subrange(from as int, to as int),
            skip_char_from(u, c, (i - from) as int) == skip_char_from(u, c, 0),
        decreases to - i,
    {
        assert(u[i - from] == s@[i as int]);
        i = i + 1;
    }
    assert(skip_char_from(u, c, (i - from) as int) == (i - from) as int);
    let ghost t = u.skip((i - from) as int);
    let mut j: usize = to;
    while j > i && s[j - 1] == c
        invariant
            from <= i <= j <= to <= s@.len(),
            u == s@.subrange(from as int, to as int),
            t == u.skip((i - from) as int),
            trim_char_end_len(t, c, (j - i) as int) == trim_char_end_len(t, c, t.len() as int),
        decreases j,
    {
        assert(t[(j - i) - 1] == s@[j - 1]);
        j = j - 1;
    }
    assert(trim_char_end_len(t, c, (j - i) as int) == (j - i) as int);
    assert(s@.subrange(i as int, j as int) =~= t.take((j - i) as int));
    (i, j)
}

/// The value that the line `s[from..to]` gives for `key`.
fn line_value(s: &[char], from: usize, to: usize, key: &[char]) -> (res: Option<String>)
    requires
        from <= to <= s@.len(),
    ensures
        match (res, dotenv_line_value(s@.subrange(from as int, to as int), key@)) {
            (Some(r), Some(v)) => r@ == v,
            (None, None) => true,
            _ => false,
        },
{
    let ghost line = s@.subrange(from as int, to as int);
    let lv = copy_range(s, from, to);
    assert(lv@ =~= line);
    let (a, b) = trim_bounds(lv.as_slice());
    // t = lv[a..b] = trim(line)
    let ghost t = trim(line);
    if b - a < key.len() {
        assert(!key@.is_prefix_of(t));
        return None;
    }
    let mut k: usize = 0;
    while k < key.len()
        invariant
            k <= key.len(),
            a + key.len() <= b <= lv@.len(),
            lv@.subrange(a as int, b as int) == t,
            line == s@.subrange(from as int, to as int),
            t == trim(line),
            forall|m: int| 0 <= m < k ==> lv@[a + m] == key@[m],
        decreases key.len() - k,
    {
        if lv[a + k] != key[k] {
            assert(t[k as int] != key@[k as int]);
            return None;
        }
        k = k + 1;
    }
    assert(key@.is_prefix_of(t)) by {
        assert forall|m: int| 0 <= m < key@.len() implies t[m] == key@[m] by {
            assert(t[m] == lv@[a + m]);
        }
    }
    let mut p: usize = a + key.len();
    let ghost after = t.skip(key@.len() as int);
    while p < b && is_whitespace(lv[p])
        invariant
            a + key.len() <= p <= b <= lv@.len(),
            lv@.subrange(a as int, b as int) == t,
            line == s@.subrange(from as int, to as int),
            t == trim(line),
            key@.is_prefix_of(t),
            after == t.skip(key@.len() as int),
            crate::text::skip_ws_from(after, (p - a - key.len()) as int)
                == crate::text::skip_ws_from(after, 0),
        decreases b - p,
    {
        assert(after[(p - a - key.len()) as int] == lv@[p as int]);
        p = p + 1;
    }
    assert(crate::text::skip_ws_from(after, (p - a - key.len()) as int) == (p - a
        - key.len()) as int);
    let ghost rest = trim_start(after);
    assert(rest =~= lv@.subrange(p as int, b as int));
    if p == b || lv[p] != '=' {
        return None;
    }
    // value = trim_matches(trim(rest.drop_first()), '"')
    let inner = copy_range(lv.as_slice(), p + 1, b);
    assert(inner@ =~= rest.drop_first());
    let (c, d) = trim_bounds(inner.as_slice());
    let (e, f) = trim_char_bounds(inner.as_slice(), '"', c, d);
    Some(string_of_range(inner.as_slice(), e, f))
}

/// The value that the text `input` of a `.env`-style file gives for `key`.
pub fn dotenv_value(input: &str, key: &str) -> (res: Option<String>)
    ensures
        match (res, dotenv_spec(input@, key@)) {
            (Some(r), Some(v)) => r@ == v,
            (None, None) => true,
            _ => false,
        },
{
    let s = chars_of(input);
    let k = chars_of(key);
    let mut p: usize = 0;
    while p < s.len()
        invariant
            p <= s@.len(),
            s@ == input@,
            k@ == key@,
            dotenv_from(s@, k@, p as int) == dotenv_spec(s@, k@),
        decreases s.len() - p,
    {
        proof {
            lemma_newline_from(s@, p as int);
        }
        let mut e: usize = p;
        while e < s.len() && s[e] != '\n'
            invariant
                p <= e <= s@.len(),
                newline_from(s@, e as int) == newline_from(s@, p as int),
            decreases s.len() - e,
        {
            e = e + 1;
        }
        let end = if e < s.len() && e > p && s[e - 1] == '\r' {
            e - 1
        } else {
            e
        };
        assert(e < s@.len() ==> s@.subrange(p as int, end as int) =~= strip_cr(
            s@.subrange(p as int, e as int),
        ));
        let v = line_value(s.as_slice(), p, end, k.as_slice());
        if v.is_some() {
            return v;
        }
        if e == s.len() {
            return None;
        }
        p = e + 1;
    }
    None
}

/// The `label` secret read from the file at `path`: `read` is what reading
/// the file gave. The text is trimmed and must not be empty.
pub fn read_secret_file(
    read: Result<String, std::io::Error>,
    path: String,
    label: &'static str,
) -> (res: Result<String, BackendError>)
    ensures
        match read {
            Err(e) => res == Err::<String, BackendError>(
                BackendError::SecretFileRead { label, path, source: e },
            ),
            Ok(text) => if trim(text@).len() == 0 {
                res == Err::<String, BackendError>(BackendError::EmptySecret { label, path })
            } else {
                res matches Ok(secret) && secret@ == trim(text@)
            },
        },
{
    match read {
        Err(source) => Err(BackendError::SecretFileRead { label, path, source }),
        Ok(text) => {
            let cs = chars_of(text.as_str());
            let (a, b) = trim_bounds(cs.as_slice());
            if a == b {
                Err(BackendError::EmptySecret { label, path })
            } else {
                Ok(string_of_range(cs.as_slice(), a, b))
            }
        },
    }
}

/// The secret itself: the value the text gives for `key` when it has one,
/// the whole text otherwise.
pub open spec fn secret_value(text: Seq<char>, key: Seq<char>) -> Seq<char> {
    match dotenv_spec(text, key) {
        Some(v) => v,
        None => text,
    }
}

/// A secret from a file that holds it plainly or as a `key=value` line.
fn read_keyed_secret(
    read: Result<String, std::io::Error>,
    path: String,
    label: &'static str,
    key: &str,
) -> (res: Result<String, BackendError>)
    ensures
        match read {
            Err(e) => res == Err::<String, BackendError>(
                BackendError::SecretFileRead { label, path, source: e },
            ),
            Ok(text) => if trim(text@).len() == 0 {
                res == Err::<String, BackendError>(BackendError::EmptySecret { label, path })
            } else {
                res matches Ok(secret) && secret@ == secret_value(trim(text@), key@)
            },
        },
{
    match read_secret_file(read, path, label) {
        Err(e) => Err(e),
        Ok(value) => match dotenv_value(value.as_str(), key) {
            Some(v) => Ok(v),
            None => Ok(value),
        },
    }
}

/// The Last.fm API key from its file (`read` is what reading it gave).
pub fn read_lastfm_api_key(read: Result<String, std::io::Error>, path: String) -> (res: Result<
    String,
    BackendError,
>)
    ensures
        match read {
            Err(e) => res == Err::<String, BackendError>(
                BackendError::SecretFileRead { label: "Last.fm API key", path, source: e },
            ),
            Ok(text) => if trim(text@).len() == 0 {
                res == Err::<String, BackendError>(
                    BackendError::EmptySecret { label: "Last.fm API key", path },
                )
            } else {
                res matches Ok(secret) && secret@ == secret_value(
                    trim(text@),
                    "LASTFM_API_KEY"@,
                )
            },
        },
{
    read_keyed_secret(read, path, "Last.fm API key", "LASTFM_API_KEY")
}

/// The Goodreads RSS URL from its file (`read` is what reading it gave).
pub fn read_goodreads_rss_url(read: Result<String, std::io::Error>, path: String) -> (res: Result<
    String,
    BackendError,
>)
    ensures
        match read {
            Err(e) => res == Err::<String, BackendError>(
                BackendError::SecretFileRead { label: "Goodreads RSS URL", path, source: e },
            ),
            Ok(text) => if trim(text@).len() == 0 {
                res == Err::<String, BackendError>(
                    BackendError::EmptySecret { label: "Goodreads RSS URL", path },
                )
            } else {
                res matches Ok(secret) && secret@ == secret_value(
                    trim(text@),
                    "GOODREADS_RSS_URL"@,
                )
            },
        },
{
    read_keyed_secret(read, path, "Goodreads RSS URL", "GOODREADS_RSS_URL")
}

impl ServerConfig {
    /// The configuration from the command line and the two secret files
    /// it names (`lastfm_key_file` and `goodreads_url_file` are what
    /// reading them gave). The Last.fm key is checked first.
    pub fn from_cli(
        cli: Cli,
        lastfm_key_file: Result<String, std::io::Error>,
        goodreads_url_file: Result<String, std::io::Error>,
    ) -> (res: Result<ServerConfig, BackendError>)
        ensures
            match lastfm_key_file {
                Err(e) => res == Err::<ServerConfig, BackendError>(
                    BackendError::SecretFileRead {
                        label: "Last.fm API key",
                        path: cli.lastfm_api_key_path,
                        source: e,
                    },
                ),
                Ok(key_text) => if trim(key_text@).len() == 0 {
                    res == Err::<ServerConfig, BackendError>(
                        BackendError::EmptySecret {
                            label: "Last.fm API key",
                            path: cli.lastfm_api_key_path,
                        },
                    )
                } else {
                    match goodreads_url_file {
                        Err(e) => res == Err::<ServerConfig, BackendError>(
                            BackendError::SecretFileRead {
                                label: "Goodreads RSS URL",
                                path: cli.goodreads_rss_url_path,
                                source: e,
                            },
                        ),
                        Ok(url_text) => if trim(url_text@).len() == 0 {
                            res == Err::<ServerConfig, BackendError>(
                                BackendError::EmptySecret {
                                    label: "Goodreads RSS URL",
                                    path: cli.goodreads_rss_url_path,
                                },
                            )
                        } else {
                            res matches Ok(config) && config.lastfm_api_key@ == secret_value(
                                trim(key_text@),
                                "LASTFM_API_KEY"@,
                            ) && config.goodreads_rss_url@ == secret_value(
                                trim(url_text@),
                                "GOODREADS_RSS_URL"@,
                            ) && config.lastfm_username == cli.lastfm_username
                                && config.letterboxd_rss_url == cli.letterboxd_rss_url
                                && config.upstream_timeout_seconds
                                == cli.upstream_timeout_seconds
                        },
                    }
                },
            },
    {
        let lastfm_api_key = match read_lastfm_api_key(lastfm_key_file, cli.lastfm_api_key_path) {
            Ok(k) => k,
            Err(e) => return Err(e),
        };
        let goodreads_rss_url = match read_goodreads_rss_url(
            goodreads_url_file,
            cli.goodreads_rss_url_path,
        ) {
            Ok(u) => u,
            Err(e) => return Err(e),
        };
        Ok(ServerConfig {
            lastfm_api_key,
            lastfm_username: cli.lastfm_username,
            letterboxd_rss_url: cli.letterboxd_rss_url,
            goodreads_rss_url,
            upstream_timeout_seconds: cli.upstream_timeout_seconds,
        })
    }
}

} // verus!
