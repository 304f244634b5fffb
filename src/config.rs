//! Choosing the provider and its API key from the environment and the
//! key/value configuration file.

use vstd::prelude::*;
use crate::message::{AgentProvider, opt_str, provider_named};
use crate::text::{chars_of, lowercased, slice_text, starts_with, trim_text, trimmed};

verus! {

/// The position of the first `c` at or after `i`, or -1.
pub open spec fn find_char(s: Seq<char>, c: char, i: int) -> int
    decreases s.len() - i,
{
    if i < 0 || i >= s.len() {
        -1
    } else if s[i] == c {
        i
    } else {
        find_char(s, c, i + 1)
    }
}

/// A line without its carriage return.
pub open spec fn strip_cr(l: Seq<char>) -> Seq<char> {
    if l.len() > 0 && l.last() == '\r' {
        l.drop_last()
    } else {
        l
    }
}

/// The lines from position `i`, as `str::lines` gives them.
pub open spec fn lines_from(s: Seq<char>, i: int) -> Seq<Seq<char>>
    decreases s.len() - i,
{
    if i < 0 || i >= s.len() {
        Seq::empty()
    } else {
        let p = find_char(s, '\n', i);
        if i <= p < s.len() {
            seq![strip_cr(s.subrange(i, p))] + lines_from(s, p + 1)
        } else {
            seq![strip_cr(s.subrange(i, s.len() as int))]
        }
    }
}

/// A text without leading and trailing double quotes.
pub open spec fn strip_quotes(s: Seq<char>) -> Seq<char>
    decreases s.len(),
{
    if s.len() > 0 && s[0] == '"' {
        strip_quotes(s.drop_first())
    } else if s.len() > 0 && s.last() == '"' {
        strip_quotes(s.drop_last())
    } else {
        s
    }
}

/// What follows the first `=` of a text, up to the next `=`.
pub open spec fn second_field(t: Seq<char>) -> Option<Seq<char>> {
    let p = find_char(t, '=', 0);
    if 0 <= p < t.len() {
        let q = find_char(t, '=', p + 1);
        if p < q < t.len() {
            Some(t.subrange(p + 1, q))
        } else {
            Some(t.subrange(p + 1, t.len() as int))
        }
    } else {
        None
    }
}

/// The value a line gives a key: the trimmed line begins with the key, and
/// the text after its `=`, trimmed and unquoted, is not empty.
pub open spec fn line_value(line: Seq<char>, key: Seq<char>) -> Option<Seq<char>> {
    let t = trimmed(line);
    if t.len() >= key.len() && t.subrange(0, key.len() as int) == key {
        match second_field(t) {
            Some(f) => {
                let v = trimmed(strip_quotes(trimmed(f)));
                if v.len() > 0 {
                    Some(v)
                } else {
                    None
                }
            },
            None => None,
        }
    } else {
        None
    }
}

/// The value of the first line that gives the key one.
pub open spec fn first_value(lines: Seq<Seq<char>>, key: Seq<char>) -> Option<Seq<char>>
    decreases lines.len(),
{
    if lines.len() == 0 {
        None
    } else if line_value(lines[0], key) is Some {
        line_value(lines[0], key)
    } else {
        first_value(lines.drop_first(), key)
    }
}

/// The value a configuration text gives a key.
pub open spec fn config_value(content: Seq<char>, key: Seq<char>) -> Option<Seq<char>> {
    first_value(lines_from(content, 0), key)
}

fn find_from(s: &Vec<char>, c: char, i: usize) -> (r: usize)
    requires
        i <= s@.len(),
    ensures
        i <= r <= s@.len(),
        r < s@.len() ==> find_char(s@, c, i as int) == r,
        r == s@.len() ==> find_char(s@, c, i as int) == -1,
{
    let mut j: usize = i;
    while j < s.len() && s[j] != c
        invariant
            i <= j <= s@.len(),
            find_char(s@, c, i as int) == find_char(s@, c, j as int),
        decreases s@.len() - j,
    {
        j = j + 1;
    }
    j
}

fn unquote(s: &Vec<char>) -> (r: String)
    ensures
        r@ == strip_quotes(s@),
{
    let mut a: usize = 0;
    let mut b: usize = s.len();
    assert(s@.subrange(0, s@.len() as int) =~= s@);
    while a < b && (s[a] == '"' || s[b - 1] == '"')
        invariant
            a <= b <= s@.len(),
            strip_quotes(s@) == strip_quotes(s@.subrange(a as int, b as int)),
        decreases b - a,
    {
        let ghost t = s@.subrange(a as int, b as int);
        if s[a] == '"' {
            assert(t.drop_first() =~= s@.subrange(a + 1, b as int));
            a = a + 1;
        } else {
            assert(t.drop_last() =~= s@.subrange(a as int, b - 1));
            b = b - 1;
        }
    }
    slice_text(s.as_slice(), a, b)
}

fn value_of_line(line: &str, key: &Vec<char>) -> (r: Option<String>)
    ensures
        opt_str(r) == line_value(line@, key@),
{
    let t = chars_of(trim_text(line).as_str());
    if !starts_with(t.as_slice(), key.as_slice()) {
        return None;
    }
    let p = find_from(&t, '=', 0);
    if p == t.len() {
        return None;
    }
    let q = find_from(&t, '=', p + 1);
    let f = slice_text(t.as_slice(), p + 1, q);
    let ft = chars_of(trim_text(f.as_str()).as_str());
    let v = trim_text(unquote(&ft).as_str());
    if v.as_str().is_empty() {
        None
    } else {
        Some(v)
    }
}

/// The value a configuration text gives a key: the first line that, trimmed,
/// begins with the key and has a non-empty value after its `=`, with
/// surrounding whitespace and quotes removed.
pub fn get_config_value(content: &str, key: &str) -> (r: Option<String>)
    ensures
        opt_str(r) == config_value(content@, key@),
{
    let s = chars_of(content);
    let k = chars_of(key);
    let n = s.len();
    let mut i: usize = 0;
    while i < n
        invariant
            n == s@.len(),
            s@ == content@,
            k@ == key@,
            i <= n,
            config_value(content@, key@) == first_value(lines_from(s@, i as int), key@),
        decreases n - i,
    {
        let p = find_from(&s, '\n', i);
        let mut end = p;
        if end > i && s[end - 1] == '\r' {
            end = end - 1;
        }
        let line = slice_text(s.as_slice(), i, end);
        proof {
            let raw = s@.subrange(i as int, p as int);
            assert(line@ == strip_cr(raw)) by {
                if raw.len() > 0 && raw.last() == '\r' {
                    assert(raw.drop_last() =~= s@.subrange(i as int, end as int));
                } else {
                    assert(raw =~= s@.subrange(i as int, end as int));
                }
            }
            let ls = lines_from(s@, i as int);
            assert(ls[0] == line@);
            if p < n {
                assert(ls.drop_first() =~= lines_from(s@, p + 1));
            } else {
                assert(ls.drop_first() =~= Seq::<Seq<char>>::empty());
            }
        }
        let v = value_of_line(line.as_str(), &k);
        if v.is_some() {
            return v;
        }
        if p == n {
            proof {
                assert(lines_from(s@, n as int) =~= Seq::<Seq<char>>::empty());
            }
            i = n;
        } else {
            i = p + 1;
        }
    }
    None
}

/// The environment variable and the configuration keys that hold a
/// provider's API key, in the order they are consulted.
pub open spec fn key_names(p: AgentProvider) -> (Seq<char>, Seq<char>) {
    match p {
        AgentProvider::OpenAi => ("OPENAI_API_KEY"@, "api_key"@),
        AgentProvider::Gemini => ("GEMINI_API_KEY"@, "gemini_api_key"@),
    }
}

/// The environment variable that holds a provider's API key.
pub fn key_env_var(p: AgentProvider) -> (r: &'static str)
    ensures
        r@ == key_names(p).0,
{
    match p {
        AgentProvider::OpenAi => "OPENAI_API_KEY",
        AgentProvider::Gemini => "GEMINI_API_KEY",
    }
}

/// The alternate configuration key of a provider's API key.
pub fn key_config_name(p: AgentProvider) -> (r: &'static str)
    ensures
        r@ == key_names(p).1,
{
    match p {
        AgentProvider::OpenAi => "api_key",
        AgentProvider::Gemini => "gemini_api_key",
    }
}

/// The API key: the environment variable when set and not empty, else the
/// configuration's value for the variable's name, else for the alternate key.
pub open spec fn api_key_choice(p: AgentProvider, env: Option<Seq<char>>, config: Option<Seq<char>>) -> Option<
    Seq<char>,
> {
    if env matches Some(e) && e.len() > 0 {
        env
    } else {
        match config {
            None => None,
            Some(c) => if config_value(c, key_names(p).0) is Some {
                config_value(c, key_names(p).0)
            } else {
                config_value(c, key_names(p).1)
            },
        }
    }
}

/// Chooses a provider's API key from the environment variable's value and
/// the configuration text, when they exist.
pub fn select_api_key(p: AgentProvider, env: Option<String>, config: Option<&str>) -> (r: Option<String>)
    ensures
        opt_str(r) == api_key_choice(p, opt_str(env), match config {
            Some(c) => Some(c@),
            None => None,
        }),
{
    if let Some(e) = env {
        if !e.as_str().is_empty() {
            return Some(e);
        }
    }
    match config {
        None => None,
        Some(c) => match get_config_value(c, key_env_var(p)) {
            Some(v) => Some(v),
            None => get_config_value(c, key_config_name(p)),
        },
    }
}

/// The provider: the environment's choice when it names one, else the
/// configuration's `provider` value when it names one, else OpenAI.
pub open spec fn provider_choice(env: Option<Seq<char>>, config: Option<Seq<char>>) -> AgentProvider {
    let from_env = match env {
        Some(e) => provider_named(lowercased(e)),
        None => None,
    };
    let from_config = match config {
        Some(c) => match config_value(c, "provider"@) {
            Some(v) => provider_named(lowercased(v)),
            None => None,
        },
        None => None,
    };
    if from_env is Some {
        from_env->0
    } else if from_config is Some {
        from_config->0
    } else {
        AgentProvider::OpenAi
    }
}

/// Chooses the provider from the environment variable's value and the
/// configuration text, when they exist.
pub fn select_provider(env: Option<&str>, config: Option<&str>) -> (r: AgentProvider)
    ensures
        r == provider_choice(
            match env {
                Some(e) => Some(e@),
                None => None,
            },
            match config {
                Some(c) => Some(c@),
                None => None,
            },
        ),
{
    if let Some(e) = env {
        if let Ok(p) = AgentProvider::parse(e) {
            return p;
        }
    }
    if let Some(c) = config {
        if let Some(v) = get_config_value(c, "provider") {
            if let Ok(p) = AgentProvider::parse(v.as_str()) {
                return p;
            }
        }
    }
    AgentProvider::OpenAi
}

} // verus!
