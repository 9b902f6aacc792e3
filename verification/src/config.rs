//! The API configuration, read from `key = "value"` lines of the config file.
use vstd::prelude::*;

use crate::text::{
    chars_of, count_leading, lemma_count_leading, leading_in, starts_with, string_of_range,
    trim_by, trim_range, Pat,
};

verus! {

/// `l` without one carriage return at its end.
pub open spec fn strip_cr(l: Seq<char>) -> Seq<char> {
    if l.len() > 0 && l.last() == '\r' {
        l.drop_last()
    } else {
        l
    }
}

/// The lines of `s` as `str::lines` yields them: split after each `'\n'`, with the
/// `'\n'` and a `'\r'` right before it removed; a final `'\n'` opens no empty line.
pub open spec fn lines_of(s: Seq<char>) -> Seq<Seq<char>>
    decreases s.len(),
{
    if s.len() == 0 {
        seq![]
    } else {
        proof {
            lemma_count_leading(s, Pat::AnyBut('\n'));
        }
        let n = count_leading(s, Pat::AnyBut('\n'));
        if n >= s.len() {
            seq![s]
        } else {
            seq![strip_cr(s.take(n as int))] + lines_of(s.skip(n + 1 as int))
        }
    }
}

/// What a line assigns to `key`: for a line that starts with `key` and holds an
/// `'='`, the text after the first `'='`, trimmed of white space and then of
/// double quotes.
pub open spec fn line_value(line: Seq<char>, key: Seq<char>) -> Option<Seq<char>> {
    let e = count_leading(line, Pat::AnyBut('='));
    if starts_with(line, key) && e < line.len() {
        Some(trim_by(trim_by(line.skip(e + 1 as int), Pat::Space), Pat::Exactly('"')))
    } else {
        None
    }
}

/// The value of the first line among `ls` that assigns to `key`.
pub open spec fn first_value(ls: Seq<Seq<char>>, key: Seq<char>) -> Option<Seq<char>>
    decreases ls.len(),
{
    if ls.len() == 0 {
        None
    } else {
        match line_value(ls[0], key) {
            Some(v) => Some(v),
            None => first_value(ls.drop_first(), key),
        }
    }
}

/// The value that `content` gives `key`: that of the first line assigning to it,
/// where an empty value counts as none.
pub open spec fn config_value(content: Seq<char>, key: Seq<char>) -> Option<Seq<char>> {
    match first_value(lines_of(content), key) {
        Some(v) => if v.len() == 0 {
            None
        } else {
            Some(v)
        },
        None => None,
    }
}

/// The view of an optional string.
pub open spec fn opt_view(o: Option<String>) -> Option<Seq<char>> {
    match o {
        Some(s) => Some(s@),
        None => None,
    }
}

/// Whether `v[lo..hi]` begins with `w`.
fn range_starts_with(v: &Vec<char>, lo: usize, hi: usize, w: &Vec<char>) -> (b: bool)
    requires
        lo <= hi <= v@.len(),
    ensures
        b == starts_with(v@.subrange(lo as int, hi as int), w@),
{
    let ghost s = v@.subrange(lo as int, hi as int);
    if w.len() > hi - lo {
        return false;
    }
    let mut i: usize = 0;
    while i < w.len()
        invariant
            lo <= hi <= v@.len(),
            s == v@.subrange(lo as int, hi as int),
            w@.len() <= hi - lo,
            i <= w@.len(),
            forall|j: int| 0 <= j < i ==> s[j] == w@[j],
        decreases w@.len() - i,
    {
        if v[lo + i] != w[i] {
            assert(s.take(w@.len() as int)[i as int] != w@[i as int]);
            return false;
        }
        i = i + 1;
    }
    assert(s.take(w@.len() as int) =~= w@);
    true
}

proof fn lemma_lines_step(v: Seq<char>, i: int, n: int)
    requires
        0 <= i < v.len(),
        n == count_leading(v.subrange(i, v.len() as int), Pat::AnyBut('\n')),
        i + n < v.len(),
    ensures
        lines_of(v.subrange(i, v.len() as int)) == seq![strip_cr(v.subrange(i, i + n))]
            + lines_of(v.subrange(i + n + 1, v.len() as int)),
{
    let s = v.subrange(i, v.len() as int);
    assert(s.take(n) =~= v.subrange(i, i + n));
    assert(s.skip(n + 1) =~= v.subrange(i + n + 1, v.len() as int));
}

/// The value that the first line of `content` starting with `key` and holding an
/// `'='` gives it: the text after the `'='`, trimmed of white space and then of
/// double quotes; `None` where no such line exists or where that value is empty.
pub fn extract_value(content: &str, key: &str) -> (r: Option<String>)
    ensures
        opt_view(r) == config_value(content@, key@),
{
    let v = chars_of(content);
    let w = chars_of(key);
    let len = v.len();
    let mut i: usize = 0;
    assert(v@.subrange(0, len as int) =~= v@);
    while i < len
        invariant
            v@ == content@,
            w@ == key@,
            len == v@.len(),
            i <= len,
            first_value(lines_of(content@), key@) == first_value(
                lines_of(v@.subrange(i as int, len as int)),
                key@,
            ),
        decreases len - i,
    {
        let ghost rest = v@.subrange(i as int, len as int);
        let n = leading_in(&v, i, len, Pat::AnyBut('\n'));
        proof {
            lemma_count_leading(rest, Pat::AnyBut('\n'));
        }
        let e = i + n;
        // the line is v[i..le], its '\r' (if it ends a '\n'-terminated line) cut off
        let le = if e < len && e > i && v[e - 1] == '\r' {
            e - 1
        } else {
            e
        };
        let ghost line = v@.subrange(i as int, le as int);
        proof {
            if e < len {
                lemma_lines_step(v@, i as int, n as int);
                assert(strip_cr(v@.subrange(i as int, e as int)) =~= line);
            } else {
                assert(rest =~= line);
            }
            assert(lines_of(rest)[0] == line);
        }
        if range_starts_with(&v, i, le, &w) {
            let m = leading_in(&v, i, le, Pat::AnyBut('='));
            if i + m < le {
                let (x, y) = trim_range(&v, i + m + 1, le, Pat::Space);
                let (p, q) = trim_range(&v, x, y, Pat::Exactly('"'));
                proof {
                    assert(line.skip(m + 1) =~= v@.subrange(i + m + 1, le as int));
                    assert(line_value(line, key@) == Some(v@.subrange(p as int, q as int)));
                }
                if p == q {
                    return None;
                }
                return Some(string_of_range(&v, p, q));
            }
        }
        assert(line_value(line, key@) is None);
        if e < len {
            assert(lines_of(rest).drop_first() =~= lines_of(v@.subrange(e + 1, len as int)));
            i = e + 1;
        } else {
            assert(lines_of(rest) =~= seq![line]);
            assert(lines_of(rest).drop_first() =~= Seq::<Seq<char>>::empty());
            assert(lines_of(v@.subrange(len as int, len as int)) =~= Seq::<Seq<char>>::empty());
            i = len;
        }
    }
    assert(lines_of(v@.subrange(len as int, len as int)) =~= Seq::<Seq<char>>::empty());
    None
}

/// The API keys and endpoints of the configuration.
pub struct ApiConfig {
    pub claude_api_key: Option<String>,
    pub claude_base_url: Option<String>,
    pub openai_api_key: Option<String>,
    pub custom_api_key: Option<String>,
    pub custom_base_url: Option<String>,
}

impl ApiConfig {
    /// A configuration with nothing set (`Default`).
    pub fn empty() -> (c: ApiConfig)
        ensures
            c.claude_api_key is None,
            c.claude_base_url is None,
            c.openai_api_key is None,
            c.custom_api_key is None,
            c.custom_base_url is None,
    {
        ApiConfig {
            claude_api_key: None,
            claude_base_url: None,
            openai_api_key: None,
            custom_api_key: None,
            custom_base_url: None,
        }
    }

    /// The configuration that the text of a config file gives: each field is the
    /// value of the key of its name.
    pub fn parse(content: &str) -> (c: ApiConfig)
        ensures
            opt_view(c.claude_api_key) == config_value(content@, "claude_api_key"@),
            opt_view(c.claude_base_url) == config_value(content@, "claude_base_url"@),
            opt_view(c.openai_api_key) == config_value(content@, "openai_api_key"@),
            opt_view(c.custom_api_key) == config_value(content@, "custom_api_key"@),
            opt_view(c.custom_base_url) == config_value(content@, "custom_base_url"@),
    {
        ApiConfig {
            claude_api_key: extract_value(content, "claude_api_key"),
            claude_base_url: extract_value(content, "claude_base_url"),
            openai_api_key: extract_value(content, "openai_api_key"),
            custom_api_key: extract_value(content, "custom_api_key"),
            custom_base_url: extract_value(content, "custom_base_url"),
        }
    }

    /// The configuration with the assistant service's key and endpoint taken from the
    /// environment, where set, filling in those that the config file leaves
    /// unset.
    pub fn with_environment(self, api_key: Option<String>, base_url: Option<String>) -> (c: ApiConfig)
        ensures
            c.claude_api_key == (if self.claude_api_key is Some {
                self.claude_api_key
            } else {
                api_key
            }),
            c.claude_base_url == (if self.claude_base_url is Some {
                self.claude_base_url
            } else {
                base_url
            }),
            c.openai_api_key == self.openai_api_key,
            c.custom_api_key == self.custom_api_key,
            c.custom_base_url == self.custom_base_url,
    {
        let claude_api_key = match self.claude_api_key {
            Some(k) => Some(k),
            None => api_key,
        };
        let claude_base_url = match self.claude_base_url {
            Some(u) => Some(u),
            None => base_url,
        };
        ApiConfig {
            claude_api_key,
            claude_base_url,
            openai_api_key: self.openai_api_key,
            custom_api_key: self.custom_api_key,
            custom_base_url: self.custom_base_url,
        }
    }
}

} // verus!
