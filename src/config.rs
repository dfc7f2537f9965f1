//! Settings of the service, built from raw key values with defaults.
use vstd::prelude::*;

use crate::text::text_or;

verus! {

/// Settings of the service.
#[derive(Debug, Clone)]
pub struct Config {
    pub listen_addr: String,
    pub log_level: String,
    pub log_style: String,
    /// Allowed CORS origins; `*` allows any.
    pub cors_origins: Vec<String>,
    pub database_url: String,
    pub request_timeout_secs: u64,
}

/// What `str::trim` yields for a text.
pub uninterp spec fn trim_of(s: Seq<char>) -> Seq<char>;

/// Relies on `str::trim`: the text without leading and trailing white space.
#[verifier::external_body]
fn trim_text(s: &str) -> (r: String)
    ensures
        r@ == trim_of(s@),
{
    s.trim().to_owned()
}

/// Whether `c` is an ASCII decimal digit.
pub open spec fn is_digit(c: char) -> bool {
    '0' <= c && c <= '9'
}

/// The value of a decimal digit.
pub open spec fn digit_value(c: char) -> int {
    c as int - '0' as int
}

/// The value of a run of decimal digits, most significant first.
pub open spec fn digits_value(s: Seq<char>) -> int
    decreases s.len(),
{
    if s.len() == 0 {
        0
    } else {
        digits_value(s.drop_last()) * 10 + digit_value(s.last())
    }
}

/// `s` without one leading `+`.
pub open spec fn unsigned_body(s: Seq<char>) -> Seq<char> {
    if s.len() > 0 && s[0] == '+' {
        s.drop_first()
    } else {
        s
    }
}

/// The number a text spells as `str::parse::<u64>` reads it: an optional `+`,
/// then one or more decimal digits whose value fits in 64 bits.
pub open spec fn decimal_of(s: Seq<char>) -> Option<u64> {
    let body = unsigned_body(s);
    if body.len() > 0 && (forall|i: int| 0 <= i < body.len() ==> is_digit(#[trigger] body[i]))
        && digits_value(body) <= u64::MAX {
        Some(digits_value(body) as u64)
    } else {
        None
    }
}

/// A run of digits is worth at least as much as any of its prefixes, and
/// nothing negative.
proof fn lemma_digits_prefix(t: Seq<char>, j: int)
    requires
        0 <= j <= t.len(),
        forall|i: int| 0 <= i < t.len() ==> is_digit(#[trigger] t[i]),
    ensures
        0 <= digits_value(t.take(j)) <= digits_value(t),
    decreases t.len(),
{
    if j < t.len() {
        let front = t.drop_last();
        assert(front.take(j) =~= t.take(j));
        assert(is_digit(t[t.len() - 1]));
        lemma_digits_prefix(front, j);
        lemma_digits_prefix(front, front.len() as int);
        assert(front.take(front.len() as int) =~= front);
        let x = digits_value(front);
        let d = digit_value(t.last());
        assert(x * 10 + d >= x) by (nonlinear_arith)
            requires x >= 0, d >= 0;
    } else {
        assert(t.take(j) =~= t);
        if t.len() > 0 {
            lemma_digits_prefix(t.drop_last(), 0);
            assert(t.drop_last().take(0) =~= Seq::<char>::empty());
            lemma_digits_prefix(t.drop_last(), t.len() - 1);
            assert(t.drop_last().take(t.len() - 1) =~= t.drop_last());
            assert(is_digit(t[t.len() - 1]));
        }
    }
}

/// Reads an unsigned decimal number, as `str::parse::<u64>` does.
pub fn parse_decimal(s: &str) -> (r: Option<u64>)
    ensures
        r == decimal_of(s@),
{
    let n = s.unicode_len();
    let mut start: usize = 0;
    if n > 0 && s.get_char(0) == '+' {
        start = 1;
    }
    let ghost body = unsigned_body(s@);
    assert(body =~= s@.subrange(start as int, n as int));
    if start == n {
        return None;
    }
    let mut acc: u64 = 0;
    let mut i: usize = start;
    assert(body.take(0) =~= Seq::<char>::empty());
    while i < n
        invariant
            start <= i <= n,
            n == s@.len(),
            body == s@.subrange(start as int, n as int),
            body == unsigned_body(s@),
            body.len() > 0,
            acc as int == digits_value(body.take(i - start)),
            forall|j: int| 0 <= j < i - start ==> is_digit(#[trigger] body[j]),
        decreases n - i,
    {
        let c = s.get_char(i);
        assert(body[i - start] == c);
        if !('0' <= c && c <= '9') {
            assert(!is_digit(body[i - start]));
            return None;
        }
        let d = (c as u32 - '0' as u32) as u64;
        assert(body.take(i - start + 1).drop_last() =~= body.take(i - start));
        assert(body.take(i - start + 1).last() == c);
        assert(digit_value(c) == d as int);
        assert(digits_value(body.take(i - start + 1)) == acc as int * 10 + d as int);
        if acc > (u64::MAX - d) / 10 {
            proof {
                assert(acc as int * 10 + d as int > u64::MAX) by (nonlinear_arith)
                    requires acc as int > (u64::MAX - d as int) / 10, 0 <= d <= 9;
                if forall|j: int| 0 <= j < body.len() ==> is_digit(#[trigger] body[j]) {
                    lemma_digits_prefix(body, i - start + 1);
                }
            }
            return None;
        }
        assert(acc as int * 10 + d as int <= u64::MAX) by (nonlinear_arith)
            requires acc as int <= (u64::MAX - d as int) / 10, 0 <= d <= 9;
        acc = acc * 10 + d;
        i += 1;
    }
    assert(body.take(n - start) =~= body);
    Some(acc)
}

/// The pieces of `s` between occurrences of `sep`, as `str::split` walks them:
/// one more piece than there are separators, empty pieces included.
pub open spec fn split_on(s: Seq<char>, sep: char) -> Seq<Seq<char>>
    decreases s.len(),
{
    if s.len() == 0 {
        seq![Seq::empty()]
    } else {
        let front = split_on(s.drop_last(), sep);
        if s.last() == sep {
            front.push(Seq::empty())
        } else {
            front.update(front.len() - 1, front.last().push(s.last()))
        }
    }
}

/// A split never yields an empty list of pieces.
proof fn lemma_split_nonempty(s: Seq<char>, sep: char)
    ensures
        split_on(s, sep).len() >= 1,
    decreases s.len(),
{
    if s.len() > 0 {
        lemma_split_nonempty(s.drop_last(), sep);
    }
}

/// The comma-separated list in `s`, each item trimmed of white space.
pub open spec fn origin_list(s: Seq<char>) -> Seq<Seq<char>> {
    split_on(s, ',').map_values(|p: Seq<char>| trim_of(p))
}

/// Splits `s` at each comma and trims each piece.
pub fn split_origins(s: &str) -> (r: Vec<String>)
    ensures
        r@.len() == origin_list(s@).len(),
        forall|k: int| 0 <= k < r@.len() ==> #[trigger] r@[k]@ == origin_list(s@)[k],
{
    let n = s.unicode_len();
    let mut out: Vec<String> = Vec::new();
    let mut start: usize = 0;
    let mut i: usize = 0;
    assert(s@.take(0) =~= Seq::<char>::empty());
    while i < n
        invariant
            n == s@.len(),
            start <= i <= n,
            out@.len() + 1 == split_on(s@.take(i as int), ',').len(),
            forall|k: int|
                0 <= k < out@.len() ==> #[trigger] out@[k]@ == trim_of(
                    split_on(s@.take(i as int), ',')[k],
                ),
            split_on(s@.take(i as int), ',').last() == s@.subrange(start as int, i as int),
        decreases n - i,
    {
        let c = s.get_char(i);
        let ghost front = split_on(s@.take(i as int), ',');
        assert(s@.take(i + 1).drop_last() =~= s@.take(i as int));
        assert(s@.take(i + 1).last() == c);
        if c == ',' {
            let piece = s.substring_char(start, i);
            out.push(trim_text(piece));
            start = i + 1;
            assert(s@.subrange(start as int, i + 1) =~= Seq::<char>::empty());
        } else {
            proof {
                lemma_split_nonempty(s@.take(i as int), ',');
            }
            assert(s@.subrange(start as int, i + 1) =~= s@.subrange(start as int, i as int).push(c));
        }
        i += 1;
    }
    assert(s@.take(n as int) =~= s@);
    let piece = s.substring_char(start, n);
    out.push(trim_text(piece));
    out
}

/// Whether the list allows every origin.
pub open spec fn allows_any(origins: Seq<String>) -> bool {
    exists|i: int| 0 <= i < origins.len() && origins[i]@ == "*"@
}

impl Config {
    /// Settings from raw values, each absent one replaced by its default:
    /// listen address `0.0.0.0:50051`, log level `info`, log style `auto`,
    /// CORS origins `*`, request timeout 30 seconds (also when the value does
    /// not parse). The CORS value is a comma-separated list, each item trimmed.
    pub fn from_settings(
        listen_addr: Option<String>,
        log_level: Option<String>,
        log_style: Option<String>,
        cors_origins: Option<String>,
        database_url: String,
        request_timeout_secs: Option<String>,
    ) -> (r: Config)
        ensures
            r.listen_addr@ == text_or(listen_addr, "0.0.0.0:50051"@),
            r.log_level@ == text_or(log_level, "info"@),
            r.log_style@ == text_or(log_style, "auto"@),
            r.cors_origins@.len() == origin_list(text_or(cors_origins, "*"@)).len(),
            forall|k: int|
                0 <= k < r.cors_origins@.len() ==> #[trigger] r.cors_origins@[k]@ == origin_list(
                    text_or(cors_origins, "*"@),
                )[k],
            r.database_url == database_url,
            r.request_timeout_secs == match request_timeout_secs {
                Some(t) => match decimal_of(t@) {
                    Some(v) => v,
                    None => 30,
                },
                None => 30,
            },
    {
        let listen_addr = match listen_addr {
            Some(v) => v,
            None => String::from_str("0.0.0.0:50051"),
        };
        let log_level = match log_level {
            Some(v) => v,
            None => String::from_str("info"),
        };
        let log_style = match log_style {
            Some(v) => v,
            None => String::from_str("auto"),
        };
        let origins = match &cors_origins {
            Some(v) => split_origins(v.as_str()),
            None => split_origins("*"),
        };
        let timeout = match &request_timeout_secs {
            Some(t) => match parse_decimal(t.as_str()) {
                Some(v) => v,
                None => 30,
            },
            None => 30,
        };
        Config {
            listen_addr,
            log_level,
            log_style,
            cors_origins: origins,
            database_url,
            request_timeout_secs: timeout,
        }
    }

    /// Whether any origin is allowed: some listed origin is `*`.
    pub fn cors_is_permissive(&self) -> (r: bool)
        ensures
            r == allows_any(self.cors_origins@),
    {
        let wildcard = String::from_str("*");
        let mut i: usize = 0;
        while i < self.cors_origins.len()
            invariant
                0 <= i <= self.cors_origins@.len(),
                wildcard@ == "*"@,
                forall|j: int| 0 <= j < i ==> self.cors_origins@[j]@ != "*"@,
            decreases self.cors_origins@.len() - i,
        {
            if self.cors_origins[i] == wildcard {
                return true;
            }
            i += 1;
        }
        false
    }
}

} // verus!
