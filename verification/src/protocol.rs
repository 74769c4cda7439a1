//! The inbound message grammar.
//!
//! A viewer message is one object in the usual brace-and-quote notation,
//! carrying an `action` discriminator and the variant's fields:
//! `{"action":"navigate","url":...}`, `{"action":"click","x":...,"y":...}`,
//! `{"action":"key","key":...}`. Field order is free, unknown scalar fields
//! are ignored, and anything malformed parses to nothing (the connection
//! handler drops such a message and keeps the connection open).
//!
//! The grammar is stated by spec functions over character sequences; the
//! executable scanner is proved to return exactly what they say.

use vstd::prelude::*;
use vstd::string::StrSliceExecFns;
use vstd::string::StringExecFns;
use crate::command::{CmdModel, Command, Coord};

verus! {

// ---------------------------------------------------------------------------
// Character classes
// ---------------------------------------------------------------------------

/// Blank characters allowed between tokens: space, tab, line feed, carriage
/// return.
pub open spec fn is_ws_char(c: char) -> bool {
    c == ' ' || c == '\t' || c == '\n' || c == '\r'
}

/// Decimal digits.
pub open spec fn is_digit_char(c: char) -> bool {
    '0' <= c && c <= '9'
}

fn is_ws(c: char) -> (r: bool)
    ensures
        r == is_ws_char(c),
{
    c == ' ' || c == '\t' || c == '\n' || c == '\r'
}

fn is_digit(c: char) -> (r: bool)
    ensures
        r == is_digit_char(c),
{
    '0' <= c && c <= '9'
}

// ---------------------------------------------------------------------------
// Whitespace and digit runs
// ---------------------------------------------------------------------------

/// The first index at or after `i` holding a non-blank character (or the end).
pub open spec fn ws_end(s: Seq<char>, i: int) -> int
    decreases s.len() - i,
{
    if i < s.len() && is_ws_char(s[i]) {
        ws_end(s, i + 1)
    } else {
        i
    }
}

/// The first index at or after `i` holding a non-digit character (or the end).
pub open spec fn digit_run_end(s: Seq<char>, i: int) -> int
    decreases s.len() - i,
{
    if i < s.len() && is_digit_char(s[i]) {
        digit_run_end(s, i + 1)
    } else {
        i
    }
}

pub proof fn lemma_digit_run_end_bounds(s: Seq<char>, i: int)
    requires
        0 <= i <= s.len(),
    ensures
        i <= digit_run_end(s, i) <= s.len(),
    decreases s.len() - i,
{
    if i < s.len() && is_digit_char(s[i]) {
        lemma_digit_run_end_bounds(s, i + 1);
    }
}

fn scan_ws(s: &str, n: usize, i: usize) -> (r: usize)
    requires
        n == s@.len(),
        i <= n,
    ensures
        r == ws_end(s@, i as int),
        i <= r <= n,
{
    let mut j = i;
    while j < n && is_ws(s.get_char(j))
        invariant
            i <= j <= n,
            n == s@.len(),
            ws_end(s@, i as int) == ws_end(s@, j as int),
        decreases n - j,
    {
        j = j + 1;
    }
    j
}

fn scan_digits(s: &str, n: usize, i: usize) -> (r: usize)
    requires
        n == s@.len(),
        i <= n,
    ensures
        r == digit_run_end(s@, i as int),
        i <= r <= n,
{
    let mut j = i;
    while j < n && is_digit(s.get_char(j))
        invariant
            i <= j <= n,
            n == s@.len(),
            digit_run_end(s@, i as int) == digit_run_end(s@, j as int),
        decreases n - j,
    {
        j = j + 1;
    }
    j
}

// ---------------------------------------------------------------------------
// Numbers
// ---------------------------------------------------------------------------

/// End of the optional fraction part beginning at `k`: a dot must be followed
/// by at least one digit; with no dot the fraction is empty.
pub open spec fn frac_end(s: Seq<char>, k: int) -> Option<int> {
    if k < s.len() && s[k] == '.' {
        if k + 1 < s.len() && is_digit_char(s[k + 1]) {
            Some(digit_run_end(s, k + 1))
        } else {
            None
        }
    } else {
        Some(k)
    }
}

/// End of the optional exponent part beginning at `k`: an `e` or `E`, an
/// optional sign, then at least one digit; with no `e` the exponent is empty.
pub open spec fn exp_end(s: Seq<char>, k: int) -> Option<int> {
    if k < s.len() && (s[k] == 'e' || s[k] == 'E') {
        let m = if k + 1 < s.len() && (s[k + 1] == '+' || s[k + 1] == '-') {
            k + 2
        } else {
            k + 1
        };
        if m < s.len() && is_digit_char(s[m]) {
            Some(digit_run_end(s, m))
        } else {
            None
        }
    } else {
        Some(k)
    }
}

/// End of a number beginning exactly at `i`: an optional minus, an integer
/// part with no leading zero, an optional fraction, an optional exponent.
/// `None` when no number starts at `i`.
pub open spec fn number_end(s: Seq<char>, i: int) -> Option<int> {
    let j = if i < s.len() && s[i] == '-' {
        i + 1
    } else {
        i
    };
    if j < s.len() && is_digit_char(s[j]) {
        let k = if s[j] == '0' {
            j + 1
        } else {
            digit_run_end(s, j)
        };
        match frac_end(s, k) {
            Some(k2) => exp_end(s, k2),
            None => None,
        }
    } else {
        None
    }
}

/// The whole of `s` is one well-formed number.
pub open spec fn is_number_text(s: Seq<char>) -> bool {
    number_end(s, 0) == Some(s.len() as int)
}

/// Scan the number beginning exactly at `i`; return its end.
fn scan_number(s: &str, n: usize, i: usize) -> (r: Option<usize>)
    requires
        n == s@.len(),
        i <= n,
    ensures
        match r {
            Some(e) => number_end(s@, i as int) == Some(e as int) && i <= e <= n,
            None => number_end(s@, i as int) is None,
        },
{
    let j = if i < n && s.get_char(i) == '-' {
        i + 1
    } else {
        i
    };
    if j < n && is_digit(s.get_char(j)) {
        let k = if s.get_char(j) == '0' {
            j + 1
        } else {
            scan_digits(s, n, j)
        };
        // fraction
        let k2 = if k < n && s.get_char(k) == '.' {
            if k + 1 < n && is_digit(s.get_char(k + 1)) {
                Some(scan_digits(s, n, k + 1))
            } else {
                None
            }
        } else {
            Some(k)
        };
        match k2 {
            None => None,
            Some(k2) => {
                // exponent
                if k2 < n && (s.get_char(k2) == 'e' || s.get_char(k2) == 'E') {
                    let m = if k2 + 1 < n && (s.get_char(k2 + 1) == '+' || s.get_char(k2 + 1)
                        == '-') {
                        k2 + 2
                    } else {
                        k2 + 1
                    };
                    if m < n && is_digit(s.get_char(m)) {
                        Some(scan_digits(s, n, m))
                    } else {
                        None
                    }
                } else {
                    Some(k2)
                }
            },
        }
    } else {
        None
    }
}

/// Does the whole of `s` form one well-formed number?
pub fn check_number_text(s: &str) -> (r: bool)
    ensures
        r == is_number_text(s@),
{
    let n = s.unicode_len();
    match scan_number(s, n, 0) {
        Some(e) => e == n,
        None => false,
    }
}

// ---------------------------------------------------------------------------
// Strings
// ---------------------------------------------------------------------------

/// What a backslash escape stands for. The six named escapes and the two
/// self-escapes are honoured; anything else (a unicode escape among them) is
/// treated as malformed.
pub open spec fn unescape(c: char) -> Option<char> {
    if c == '"' {
        Some('"')
    } else if c == '\\' {
        Some('\\')
    } else if c == '/' {
        Some('/')
    } else if c == 'b' {
        Some('\u{0008}')
    } else if c == 'f' {
        Some('\u{000C}')
    } else if c == 'n' {
        Some('\n')
    } else if c == 'r' {
        Some('\r')
    } else if c == 't' {
        Some('\t')
    } else {
        None
    }
}

fn unescape_char(c: char) -> (r: Option<char>)
    ensures
        r == unescape(c),
{
    if c == '"' {
        Some('"')
    } else if c == '\\' {
        Some('\\')
    } else if c == '/' {
        Some('/')
    } else if c == 'b' {
        Some('\u{0008}')
    } else if c == 'f' {
        Some('\u{000C}')
    } else if c == 'n' {
        Some('\n')
    } else if c == 'r' {
        Some('\r')
    } else if c == 't' {
        Some('\t')
    } else {
        None
    }
}

/// The decoded contents and end of a quoted string whose opening quote has
/// already been passed: `i` stands just inside the quotes, `acc` holds what
/// has been decoded so far. Bare control characters are malformed.
pub open spec fn string_body_end(s: Seq<char>, i: int, acc: Seq<char>) -> Option<
    (Seq<char>, int),
>
    decreases s.len() - i,
{
    if i < 0 || i >= s.len() {
        None
    } else if s[i] == '"' {
        Some((acc, i + 1))
    } else if s[i] == '\\' {
        if i + 1 < s.len() {
            match unescape(s[i + 1]) {
                Some(c) => string_body_end(s, i + 2, acc.push(c)),
                None => None,
            }
        } else {
            None
        }
    } else if (s[i] as u32) < 32 {
        None
    } else {
        string_body_end(s, i + 1, acc.push(s[i]))
    }
}

/// The decoded contents and end of the quoted string beginning exactly at
/// `i`.
pub open spec fn string_end(s: Seq<char>, i: int) -> Option<(Seq<char>, int)> {
    if 0 <= i < s.len() && s[i] == '"' {
        string_body_end(s, i + 1, Seq::empty())
    } else {
        None
    }
}

/// Relies on String::push: appends exactly one character.
#[verifier::external_body]
fn push_char(s: &mut String, c: char)
    ensures
        final(s)@ == old(s)@.push(c),
{
    s.push(c);
}

/// Scan the quoted string beginning exactly at `i`; return its decoded
/// contents and end.
#[verifier::loop_isolation(false)]
fn scan_string(s: &str, n: usize, i: usize) -> (r: Option<(String, usize)>)
    requires
        n == s@.len(),
        i <= n,
    ensures
        match r {
            Some(p) => string_end(s@, i as int) == Some((p.0@, p.1 as int)) && i < p.1 <= n,
            None => string_end(s@, i as int) is None,
        },
{
    if !(i < n && s.get_char(i) == '"') {
        return None;
    }
    let mut j = i + 1;
    let mut acc = String::new();
    loop
        invariant
            i + 1 <= j <= n,
            string_end(s@, i as int) == string_body_end(s@, j as int, acc@),
        decreases n - j,
    {
        if j >= n {
            return None;
        }
        let c = s.get_char(j);
        if c == '"' {
            return Some((acc, j + 1));
        }
        if c == '\\' {
            if j + 1 >= n {
                return None;
            }
            match unescape_char(s.get_char(j + 1)) {
                Some(d) => {
                    push_char(&mut acc, d);
                    j = j + 2;
                },
                None => {
                    return None;
                },
            }
        } else if (c as u32) < 32 {
            return None;
        } else {
            push_char(&mut acc, c);
            j = j + 1;
        }
    }
}

// ---------------------------------------------------------------------------
// Scalars and members
// ---------------------------------------------------------------------------

/// Mathematical image of one field value: a decoded string or the text of a
/// number.
pub ghost enum ScalarModel {
    Str(Seq<char>),
    Num(Seq<char>),
}

/// A scanned number field always holds well-formed number text.
pub open spec fn scalar_wf(v: ScalarModel) -> bool {
    v matches ScalarModel::Num(t) ==> is_number_text(t)
}

/// Every number field in a scanned member list is well-formed.
pub open spec fn pairs_wf(ps: Seq<(Seq<char>, ScalarModel)>) -> bool {
    forall|k: int| 0 <= k < ps.len() ==> #[trigger] scalar_wf(ps[k].1)
}

/// A value found under a key in a well-formed member list is well-formed.
pub proof fn lemma_lookup_wf(ps: Seq<(Seq<char>, ScalarModel)>, key: Seq<char>)
    requires
        pairs_wf(ps),
    ensures
        lookup(ps, key) matches Some(v) ==> scalar_wf(v),
    decreases ps.len(),
{
    if ps.len() > 0 {
        assert(scalar_wf(ps[0].1));
        assert(pairs_wf(ps.drop_first())) by {
            assert forall|k: int| 0 <= k < ps.drop_first().len() implies #[trigger] scalar_wf(
                ps.drop_first()[k].1,
            ) by {
                assert(ps.drop_first()[k] == ps[k + 1]);
            }
        }
        lemma_lookup_wf(ps.drop_first(), key);
    }
}

/// One field value as scanned: a decoded string or the text of a number.
enum Scalar {
    Str(String),
    Num(String),
}

impl View for Scalar {
    type V = ScalarModel;

    closed spec fn view(&self) -> ScalarModel {
        match self {
            Scalar::Str(v) => ScalarModel::Str(v@),
            Scalar::Num(v) => ScalarModel::Num(v@),
        }
    }
}

/// The value and end of the scalar beginning exactly at `i`: a quoted string
/// or a number.
pub open spec fn value_end(s: Seq<char>, i: int) -> Option<(ScalarModel, int)> {
    if 0 <= i < s.len() && s[i] == '"' {
        match string_end(s, i) {
            Some(p) => Some((ScalarModel::Str(p.0), p.1)),
            None => None,
        }
    } else {
        match number_end(s, i) {
            Some(e) => Some((ScalarModel::Num(s.subrange(i, e)), e)),
            None => None,
        }
    }
}

/// Scan the scalar beginning exactly at `i`.
fn scan_value(s: &str, n: usize, i: usize) -> (r: Option<(Scalar, usize)>)
    requires
        n == s@.len(),
        i <= n,
    ensures
        match r {
            Some(p) => value_end(s@, i as int) == Some((p.0@, p.1 as int)) && i < p.1 <= n
                && scalar_wf(p.0@),
            None => value_end(s@, i as int) is None,
        },
{
    if i < n && s.get_char(i) == '"' {
        match scan_string(s, n, i) {
            Some(p) => Some((Scalar::Str(p.0), p.1)),
            None => None,
        }
    } else {
        match scan_number(s, n, i) {
            Some(e) => {
                proof {
                    lemma_number_end_bounds(s@, i as int);
                    lemma_number_text_window(s@, i as int, e as int);
                }
                let text = String::from_str(s.substring_char(i, e));
                Some((Scalar::Num(text), e))
            },
            None => None,
        }
    }
}

/// A number starts with a sign or digit, so its end lies beyond its start.
pub proof fn lemma_number_end_bounds(s: Seq<char>, i: int)
    requires
        0 <= i <= s.len(),
    ensures
        number_end(s, i) matches Some(e) ==> i < e <= s.len(),
{
    if i < s.len() {
        let j = if s[i] == '-' {
            i + 1
        } else {
            i
        };
        if j < s.len() && is_digit_char(s[j]) {
            lemma_digit_run_end_bounds(s, j);
            if s[j] != '0' {
                lemma_digit_run_end_bounds(s, j + 1);
                assert(digit_run_end(s, j) == digit_run_end(s, j + 1));
            }
            let k = if s[j] == '0' {
                j + 1
            } else {
                digit_run_end(s, j)
            };
            if k + 1 <= s.len() {
                lemma_digit_run_end_bounds(s, k + 1);
            }
            if k + 2 <= s.len() {
                lemma_digit_run_end_bounds(s, k + 2);
            }
            match frac_end(s, k) {
                Some(k2) => {
                    if k2 + 1 <= s.len() {
                        lemma_digit_run_end_bounds(s, k2 + 1);
                    }
                    if k2 + 2 <= s.len() {
                        lemma_digit_run_end_bounds(s, k2 + 2);
                    }
                },
                None => {},
            }
        }
    }
}

/// A digit run looks the same through a window that contains it: cutting
/// `s` down to `s.subrange(a, b)` moves the run's end left by `a`.
proof fn lemma_digit_run_window(s: Seq<char>, a: int, b: int, i: int)
    requires
        0 <= a <= i <= b <= s.len(),
        digit_run_end(s, i) <= b,
    ensures
        digit_run_end(s.subrange(a, b), i - a) == digit_run_end(s, i) - a,
    decreases s.len() - i,
{
    let sub = s.subrange(a, b);
    lemma_digit_run_end_bounds(s, i);
    if i < b && is_digit_char(s[i]) {
        assert(sub[i - a] == s[i]);
        lemma_digit_run_end_bounds(s, i + 1);
        assert(digit_run_end(s, i) == digit_run_end(s, i + 1));
        lemma_digit_run_window(s, a, b, i + 1);
    } else if i < b {
        assert(sub[i - a] == s[i]);
        assert(digit_run_end(sub, i - a) == i - a);
        assert(digit_run_end(s, i) == i);
    } else {
        assert(i == b);
        assert(i - a == sub.len());
        assert(digit_run_end(sub, i - a) == i - a);
        assert(digit_run_end(s, i) == i);
    }
}

/// A number looks the same through a window that ends where it ends: the
/// text `s.subrange(i, e)` of a number found in `s` is itself one
/// well-formed number.
pub proof fn lemma_number_text_window(s: Seq<char>, i: int, e: int)
    requires
        0 <= i <= s.len(),
        number_end(s, i) == Some(e),
    ensures
        is_number_text(s.subrange(i, e)),
{
    lemma_number_end_bounds(s, i);
    let sub = s.subrange(i, e);
    let j = if s[i] == '-' {
        i + 1
    } else {
        i
    };
    assert(sub[0] == s[i]);
    if j < s.len() && is_digit_char(s[j]) {
        let k = if s[j] == '0' {
            j + 1
        } else {
            digit_run_end(s, j)
        };
        let k2v = frac_end(s, k);
        assert(k2v is Some && exp_end(s, k2v->0) == Some(e));
        let k2 = k2v->0;
        // the pieces stand in order, each inside the window
        lemma_digit_run_end_bounds(s, j);
        if s[j] != '0' {
            lemma_digit_run_end_bounds(s, j + 1);
            assert(digit_run_end(s, j) == digit_run_end(s, j + 1));
        }
        assert(j + 1 <= k);
        assert(k <= k2) by {
            if k < s.len() && s[k] == '.' {
                lemma_digit_run_end_bounds(s, k + 1);
            }
        }
        assert(k2 <= e) by {
            if k2 < s.len() && (s[k2] == 'e' || s[k2] == 'E') {
                let m = if k2 + 1 < s.len() && (s[k2 + 1] == '+' || s[k2 + 1] == '-') {
                    k2 + 2
                } else {
                    k2 + 1
                };
                lemma_digit_run_end_bounds(s, m);
            }
        }
        assert(j < e);
        assert(sub[j - i] == s[j]);
        // the integer part
        if s[j] != '0' {
            lemma_digit_run_window(s, i, e, j);
        }
        assert(digit_run_end(sub, j - i) == k - i || s[j] == '0');
        // the fraction
        assert(frac_end(sub, k - i) == Some(k2 - i)) by {
            if k < e && s[k] == '.' {
                assert(sub[k - i] == s[k]);
                assert(k + 1 < s.len() && is_digit_char(s[k + 1]));
                lemma_digit_run_end_bounds(s, k + 2);
                assert(digit_run_end(s, k + 1) == digit_run_end(s, k + 2));
                assert(k2 == digit_run_end(s, k + 1));
                assert(k + 1 < e);
                assert(sub[k + 1 - i] == s[k + 1]);
                lemma_digit_run_window(s, i, e, k + 1);
            } else if k < e {
                assert(sub[k - i] == s[k]);
            } else {
                assert(k == e);
                if k < s.len() && s[k] == '.' {
                    if k + 1 < s.len() && is_digit_char(s[k + 1]) {
                        lemma_digit_run_end_bounds(s, k + 2);
                        assert(digit_run_end(s, k + 1) == digit_run_end(s, k + 2));
                    }
                }
            }
        }
        // the exponent
        assert(exp_end(sub, k2 - i) == Some(e - i)) by {
            if k2 < e && (s[k2] == 'e' || s[k2] == 'E') {
                assert(sub[k2 - i] == s[k2]);
                let m = if k2 + 1 < s.len() && (s[k2 + 1] == '+' || s[k2 + 1] == '-') {
                    k2 + 2
                } else {
                    k2 + 1
                };
                assert(m < s.len() && is_digit_char(s[m]));
                lemma_digit_run_end_bounds(s, m + 1);
                assert(digit_run_end(s, m) == digit_run_end(s, m + 1));
                assert(e == digit_run_end(s, m));
                assert(e >= m + 1);
                assert(k2 + 1 < e);
                assert(sub[k2 + 1 - i] == s[k2 + 1]);
                assert(m < e ==> sub[m - i] == s[m]);
                lemma_digit_run_window(s, i, e, m);
            } else if k2 < e {
                assert(sub[k2 - i] == s[k2]);
            } else {
                assert(k2 == e);
                if k2 < s.len() && (s[k2] == 'e' || s[k2] == 'E') {
                    let m = if k2 + 1 < s.len() && (s[k2 + 1] == '+' || s[k2 + 1] == '-') {
                        k2 + 2
                    } else {
                        k2 + 1
                    };
                    if m < s.len() && is_digit_char(s[m]) {
                        lemma_digit_run_end_bounds(s, m + 1);
                        assert(digit_run_end(s, m) == digit_run_end(s, m + 1));
                    }
                }
            }
        }
        assert(number_end(sub, 0) == Some(e - i));
    }
}

/// The fields and end of the member list beginning at the first key's quote,
/// `acc` holding what came before. Keys may repeat; the first occurrence is
/// the one that counts.
pub open spec fn members_end(
    s: Seq<char>,
    i: int,
    acc: Seq<(Seq<char>, ScalarModel)>,
) -> Option<(Seq<(Seq<char>, ScalarModel)>, int)>
    decreases s.len() - i,
{
    match string_end(s, i) {
        Some(kp) => {
            let c = ws_end(s, kp.1);
            if c < s.len() && s[c] == ':' {
                let v0 = ws_end(s, c + 1);
                match value_end(s, v0) {
                    Some(vp) => {
                        let acc2 = acc.push((kp.0, vp.0));
                        let t = ws_end(s, vp.1);
                        if t < s.len() && s[t] == ',' {
                            let k0 = ws_end(s, t + 1);
                            if i < k0 <= s.len() {
                                members_end(s, k0, acc2)
                            } else {
                                None
                            }
                        } else if t < s.len() && s[t] == '}' {
                            Some((acc2, t + 1))
                        } else {
                            None
                        }
                    },
                    None => None,
                }
            } else {
                None
            }
        },
        None => None,
    }
}

/// The fields and end of the object beginning exactly at `i`.
pub open spec fn object_end(s: Seq<char>, i: int) -> Option<
    (Seq<(Seq<char>, ScalarModel)>, int),
> {
    if 0 <= i < s.len() && s[i] == '{' {
        let j = ws_end(s, i + 1);
        if j < s.len() && s[j] == '}' {
            Some((Seq::empty(), j + 1))
        } else {
            members_end(s, j, Seq::empty())
        }
    } else {
        None
    }
}

/// The value under the first occurrence of `key`.
pub open spec fn lookup(pairs: Seq<(Seq<char>, ScalarModel)>, key: Seq<char>) -> Option<
    ScalarModel,
>
    decreases pairs.len(),
{
    if pairs.len() == 0 {
        None
    } else if pairs[0].0 == key {
        Some(pairs[0].1)
    } else {
        lookup(pairs.drop_first(), key)
    }
}

/// The command an object's fields stand for: the `action` field picks the
/// variant, whose own fields must be present with the right shape. Unknown
/// extra fields are ignored.
pub open spec fn command_of_pairs(pairs: Seq<(Seq<char>, ScalarModel)>) -> Option<CmdModel> {
    match lookup(pairs, "action"@) {
        Some(ScalarModel::Str(a)) => {
            if a == "navigate"@ {
                match lookup(pairs, "url"@) {
                    Some(ScalarModel::Str(u)) => Some(CmdModel::Navigate { url: u }),
                    _ => None,
                }
            } else if a == "click"@ {
                match (lookup(pairs, "x"@), lookup(pairs, "y"@)) {
                    (Some(ScalarModel::Num(x)), Some(ScalarModel::Num(y))) => Some(
                        CmdModel::Click { x: x, y: y },
                    ),
                    _ => None,
                }
            } else if a == "key"@ {
                match lookup(pairs, "key"@) {
                    Some(ScalarModel::Str(k)) => Some(CmdModel::Key { key: k }),
                    _ => None,
                }
            } else {
                None
            }
        },
        _ => None,
    }
}

/// The command one whole inbound text message stands for: blanks, one
/// object, blanks, nothing else. `None` is a malformed message, which the
/// connection handler ignores.
pub open spec fn spec_parse_command(s: Seq<char>) -> Option<CmdModel> {
    match object_end(s, ws_end(s, 0)) {
        Some(p) => {
            if ws_end(s, p.1) == s.len() {
                command_of_pairs(p.0)
            } else {
                None
            }
        },
        None => None,
    }
}

/// The members scanned so far, as a mathematical value.
spec fn pairs_view(v: Seq<(String, Scalar)>) -> Seq<(Seq<char>, ScalarModel)> {
    Seq::new(v.len(), |i: int| (v[i].0@, v[i].1@))
}

/// Scan a member list beginning at the first key's quote.
#[verifier::loop_isolation(false)]
fn scan_members(s: &str, n: usize, i: usize) -> (r: Option<(Vec<(String, Scalar)>, usize)>)
    requires
        n == s@.len(),
        i <= n,
    ensures
        match r {
            Some(p) => members_end(s@, i as int, Seq::empty()) == Some(
                (pairs_view(p.0@), p.1 as int),
            ) && i < p.1 <= n && pairs_wf(pairs_view(p.0@)),
            None => members_end(s@, i as int, Seq::empty()) is None,
        },
{
    let mut acc: Vec<(String, Scalar)> = Vec::new();
    let mut j = i;
    proof {
        assert(pairs_view(acc@) =~= Seq::<(Seq<char>, ScalarModel)>::empty());
    }
    loop
        invariant
            i <= j <= n,
            members_end(s@, i as int, Seq::empty()) == members_end(
                s@,
                j as int,
                pairs_view(acc@),
            ),
            pairs_wf(pairs_view(acc@)),
        decreases n - j,
    {
        let kp = match scan_string(s, n, j) {
            Some(kp) => kp,
            None => {
                return None;
            },
        };
        let c = scan_ws(s, n, kp.1);
        if !(c < n && s.get_char(c) == ':') {
            return None;
        }
        let v0 = scan_ws(s, n, c + 1);
        let vp = match scan_value(s, n, v0) {
            Some(vp) => vp,
            None => {
                return None;
            },
        };
        let ghost acc_before = pairs_view(acc@);
        acc.push((kp.0, vp.0));
        proof {
            assert(pairs_view(acc@) =~= acc_before.push((kp.0@, vp.0@)));
            assert forall|k: int| 0 <= k < pairs_view(acc@).len() implies #[trigger] scalar_wf(
                pairs_view(acc@)[k].1,
            ) by {
                if k < acc_before.len() {
                    assert(scalar_wf(acc_before[k].1));
                }
            }
        }
        let t = scan_ws(s, n, vp.1);
        if t < n && s.get_char(t) == ',' {
            let k0 = scan_ws(s, n, t + 1);
            if k0 <= j {
                // a key string, a colon and a value all lie between j and k0
                proof {
                    assert(false);
                }
            }
            j = k0;
        } else if t < n && s.get_char(t) == '}' {
            return Some((acc, t + 1));
        } else {
            return None;
        }
    }
}

/// Scan the object beginning exactly at `i`.
fn scan_object(s: &str, n: usize, i: usize) -> (r: Option<(Vec<(String, Scalar)>, usize)>)
    requires
        n == s@.len(),
        i <= n,
    ensures
        match r {
            Some(p) => object_end(s@, i as int) == Some((pairs_view(p.0@), p.1 as int)) && i
                < p.1 <= n && pairs_wf(pairs_view(p.0@)),
            None => object_end(s@, i as int) is None,
        },
{
    if !(i < n && s.get_char(i) == '{') {
        return None;
    }
    let j = scan_ws(s, n, i + 1);
    if j < n && s.get_char(j) == '}' {
        let empty: Vec<(String, Scalar)> = Vec::new();
        proof {
            assert(pairs_view(empty@) =~= Seq::<(Seq<char>, ScalarModel)>::empty());
        }
        Some((empty, j + 1))
    } else {
        scan_members(s, n, j)
    }
}

/// Find the value under the first occurrence of `key`.
#[verifier::loop_isolation(false)]
fn find_pair<'a>(pairs: &'a Vec<(String, Scalar)>, key: &String) -> (r: Option<&'a Scalar>)
    ensures
        match r {
            Some(v) => lookup(pairs_view(pairs@), key@) == Some(v@),
            None => lookup(pairs_view(pairs@), key@) is None,
        },
{
    let n = pairs.len();
    let mut i: usize = 0;
    proof {
        assert(pairs_view(pairs@).skip(0) =~= pairs_view(pairs@));
    }
    while i < n
        invariant
            i <= n,
            lookup(pairs_view(pairs@), key@) == lookup(
                pairs_view(pairs@).skip(i as int),
                key@,
            ),
        decreases n - i,
    {
        proof {
            assert(pairs_view(pairs@).skip(i as int)[0] == (pairs@[i as int].0@, pairs@[
                i as int].1@));
            assert(pairs_view(pairs@).skip(i as int).drop_first() =~= pairs_view(pairs@).skip(
                i as int + 1,
            ));
        }
        if pairs[i].0 == *key {
            return Some(&pairs[i].1);
        }
        i = i + 1;
    }
    None
}

/// Parse one inbound text message into the command it stands for; `None` on
/// anything malformed — the message is then ignored and the connection
/// stays open.
pub fn parse_command(s: &str) -> (r: Option<Command>)
    ensures
        match r {
            Some(c) => spec_parse_command(s@) == Some(c@) && c.wf(),
            None => spec_parse_command(s@) is None,
        },
{
    let n = s.unicode_len();
    let start = scan_ws(s, n, 0);
    let p = match scan_object(s, n, start) {
        Some(p) => p,
        None => {
            return None;
        },
    };
    if !(scan_ws(s, n, p.1) == n) {
        return None;
    }
    let pairs = p.0;
    let action = match find_pair(&pairs, &String::from_str("action")) {
        Some(Scalar::Str(a)) => a,
        _ => {
            return None;
        },
    };
    if *action == String::from_str("navigate") {
        match find_pair(&pairs, &String::from_str("url")) {
            Some(Scalar::Str(u)) => Some(Command::Navigate { url: u.clone() }),
            _ => None,
        }
    } else if *action == String::from_str("click") {
        let x = match find_pair(&pairs, &String::from_str("x")) {
            Some(Scalar::Num(x)) => x.clone(),
            _ => {
                return None;
            },
        };
        match find_pair(&pairs, &String::from_str("y")) {
            Some(Scalar::Num(y)) => {
                proof {
                    lemma_lookup_wf(pairs_view(pairs@), "x"@);
                    lemma_lookup_wf(pairs_view(pairs@), "y"@);
                }
                Some(Command::Click { x: Coord { text: x }, y: Coord { text: y.clone() } })
            },
            _ => None,
        }
    } else if *action == String::from_str("key") {
        match find_pair(&pairs, &String::from_str("key")) {
            Some(Scalar::Str(k)) => Some(Command::Key { key: k.clone() }),
            _ => None,
        }
    } else {
        None
    }
}

} // verus!
