//! Small verified text utilities: canonical decimal rendering of integers,
//! decimal parsing, string equality, and whitespace tokenization.

use vstd::prelude::*;
use vstd::string::*;

verus! {

/// The decimal digit character for a value in 0..=9.
pub open spec fn digit_char(d: int) -> char {
    if d == 0 {
        '0'
    } else if d == 1 {
        '1'
    } else if d == 2 {
        '2'
    } else if d == 3 {
        '3'
    } else if d == 4 {
        '4'
    } else if d == 5 {
        '5'
    } else if d == 6 {
        '6'
    } else if d == 7 {
        '7'
    } else if d == 8 {
        '8'
    } else {
        '9'
    }
}

pub open spec fn is_dec_digit(c: char) -> bool {
    48 <= c as int && c as int <= 57
}

/// The numeric value of a decimal digit character.
pub open spec fn digit_val(c: char) -> int {
    c as int - 48
}

/// The canonical decimal rendering of `n`: no sign, no leading zeros
/// (except for the single digit of zero itself).
pub open spec fn u64_digits(n: nat) -> Seq<char>
    decreases n,
{
    if n < 10 {
        seq![digit_char(n as int)]
    } else {
        u64_digits(n / 10).push(digit_char((n % 10) as int))
    }
}

/// The canonical decimal rendering of a signed value: a leading '-' for
/// negative values, then the digits of the magnitude.
pub open spec fn i64_digits(n: int) -> Seq<char> {
    if n >= 0 {
        u64_digits(n as nat)
    } else {
        seq!['-'] + u64_digits((-n) as nat)
    }
}

pub open spec fn all_dec_digits(s: Seq<char>) -> bool {
    forall|i: int| 0 <= i < s.len() ==> is_dec_digit(#[trigger] s[i])
}

/// The value of a sequence of decimal digit characters, most significant
/// first.
pub open spec fn digits_val(s: Seq<char>) -> int
    decreases s.len(),
{
    if s.len() == 0 {
        0
    } else {
        digits_val(s.drop_last()) * 10 + digit_val(s.last())
    }
}

/// What a decimal unsigned parse accepts: an optional leading '+', then at
/// least one decimal digit, with a value that fits in a `u64`.
pub open spec fn parse_u64_spec(s: Seq<char>) -> Option<u64> {
    let body = if s.len() > 0 && s[0] == '+' {
        s.drop_first()
    } else {
        s
    };
    if body.len() > 0 && all_dec_digits(body) && digits_val(body) <= u64::MAX {
        Some(digits_val(body) as u64)
    } else {
        None
    }
}

/// What a decimal signed parse accepts: an optional leading '+' or '-', then
/// at least one decimal digit, with a value that fits in an `i64`.
pub open spec fn parse_i64_spec(s: Seq<char>) -> Option<i64> {
    let neg = s.len() > 0 && s[0] == '-';
    let body = if s.len() > 0 && (s[0] == '+' || s[0] == '-') {
        s.drop_first()
    } else {
        s
    };
    if body.len() > 0 && all_dec_digits(body) {
        let mag = digits_val(body);
        if neg && mag <= 0x8000_0000_0000_0000 {
            Some((-mag) as i64)
        } else if !neg && mag <= i64::MAX {
            Some(mag as i64)
        } else {
            None
        }
    } else {
        None
    }
}

pub proof fn lemma_digits_val_nonneg(s: Seq<char>)
    requires
        all_dec_digits(s),
    ensures
        digits_val(s) >= 0,
    decreases s.len(),
{
    if s.len() > 0 {
        assert(all_dec_digits(s.drop_last())) by {
            assert(forall|i: int|
                0 <= i < s.len() - 1 ==> #[trigger] s.drop_last()[i] == s[i]);
        }
        lemma_digits_val_nonneg(s.drop_last());
    }
}

/// Extending a digit string to the right can only grow its value.
pub proof fn lemma_digits_val_prefix_le(s: Seq<char>, i: int)
    requires
        all_dec_digits(s),
        0 <= i <= s.len(),
    ensures
        digits_val(s.subrange(0, i)) <= digits_val(s),
    decreases s.len() - i,
{
    if i < s.len() {
        let a = s.subrange(0, i);
        let b = s.subrange(0, i + 1);
        assert(b.drop_last() =~= a);
        assert(all_dec_digits(a)) by {
            assert(forall|j: int| 0 <= j < a.len() ==> #[trigger] a[j] == s[j]);
        }
        lemma_digits_val_nonneg(a);
        assert(digits_val(b) == digits_val(a) * 10 + digit_val(b.last()));
        assert(digits_val(a) * 10 >= digits_val(a)) by (nonlinear_arith)
            requires digits_val(a) >= 0;
        lemma_digits_val_prefix_le(s, i + 1);
    } else {
        assert(s.subrange(0, i) =~= s);
    }
}

/// A one-character string slice holding the given decimal digit.
pub fn digit_str(d: u64) -> (s: &'static str)
    requires
        d < 10,
    ensures
        s@ =~= seq![digit_char(d as int)],
{
    proof {
        reveal_strlit("0");
        reveal_strlit("1");
        reveal_strlit("2");
        reveal_strlit("3");
        reveal_strlit("4");
        reveal_strlit("5");
        reveal_strlit("6");
        reveal_strlit("7");
        reveal_strlit("8");
        reveal_strlit("9");
    }
    if d == 0 {
        "0"
    } else if d == 1 {
        "1"
    } else if d == 2 {
        "2"
    } else if d == 3 {
        "3"
    } else if d == 4 {
        "4"
    } else if d == 5 {
        "5"
    } else if d == 6 {
        "6"
    } else if d == 7 {
        "7"
    } else if d == 8 {
        "8"
    } else {
        "9"
    }
}

/// Renders `n` as its canonical decimal string.
pub fn u64_to_string(n: u64) -> (s: String)
    ensures
        s@ == u64_digits(n as nat),
    decreases n,
{
    if n < 10 {
        String::from_str(digit_str(n))
    } else {
        let mut s = u64_to_string(n / 10);
        s.append(digit_str(n % 10));
        proof {
            assert(s@ =~= u64_digits((n / 10) as nat).push(digit_char((n % 10) as int)));
        }
        s
    }
}

/// Renders `n` as its canonical decimal string, with a leading '-' when
/// negative.
pub fn i64_to_string(n: i64) -> (s: String)
    ensures
        s@ == i64_digits(n as int),
{
    if n >= 0 {
        u64_to_string(n as u64)
    } else {
        // Magnitude computed without overflowing: -(n + 1) fits in i64.
        let mag: u64 = ((-(n + 1)) as u64) + 1;
        let mut s = String::from_str("-");
        proof {
            reveal_strlit("-");
        }
        s.append(u64_to_string(mag).as_str());
        proof {
            assert(s@ =~= seq!['-'] + u64_digits((-(n as int)) as nat));
        }
        s
    }
}

/// Character-wise string equality, phrased over the views.
pub fn str_eq(a: &str, b: &str) -> (r: bool)
    ensures
        r == (a@ == b@),
{
    let alen = a.unicode_len();
    let blen = b.unicode_len();
    if alen != blen {
        return false;
    }
    let mut i: usize = 0;
    while i < alen
        invariant
            alen == a@.len(),
            blen == b@.len(),
            alen == blen,
            i <= alen,
            forall|j: int| 0 <= j < i ==> a@[j] == b@[j],
        decreases alen - i,
    {
        if a.get_char(i) != b.get_char(i) {
            return false;
        }
        i += 1;
    }
    proof {
        assert(a@ =~= b@);
    }
    true
}

/// Parses an unsigned decimal: an optional leading '+', then decimal digits.
/// Returns `None` on an empty body, a non-digit character, or overflow.
#[verifier::loop_isolation(false)]
pub fn parse_u64_str(s: &str) -> (r: Option<u64>)
    ensures
        r == parse_u64_spec(s@),
{
    let len = s.unicode_len();
    let start: usize = if len > 0 && s.get_char(0) == '+' {
        1
    } else {
        0
    };
    let ghost body = if s@.len() > 0 && s@[0] == '+' {
        s@.drop_first()
    } else {
        s@
    };
    proof {
        assert(body =~= s@.subrange(start as int, len as int));
    }
    if start == len {
        return None;
    }
    let mut acc: u64 = 0;
    let mut i: usize = start;
    while i < len
        invariant
            len == s@.len(),
            start <= i <= len,
            start < len,
            body == s@.subrange(start as int, len as int),
            all_dec_digits(body.subrange(0, i - start)),
            acc == digits_val(body.subrange(0, i - start)),
        decreases len - i,
    {
        let c = s.get_char(i);
        let cu = c as u32;
        if cu < 48 || cu > 57 {
            proof {
                assert(body[i - start] == s@[i as int]);
                assert(!is_dec_digit(body[i - start]));
                assert(!all_dec_digits(body));
            }
            return None;
        }
        let d = (cu - 48) as u64;
        let ghost prefix = body.subrange(0, i - start);
        let ghost prefix1 = body.subrange(0, i - start + 1);
        proof {
            assert(prefix1.drop_last() =~= prefix);
            assert(prefix1.last() == s@[i as int]);
        }
        let step = match acc.checked_mul(10) {
            Some(m) => m.checked_add(d),
            None => None,
        };
        match step {
            Some(v) => {
                acc = v;
            }
            None => {
                proof {
                    assert(all_dec_digits(prefix1));
                    assert(digits_val(prefix1) > u64::MAX);
                    if all_dec_digits(body) {
                        lemma_digits_val_prefix_le(body, i - start + 1);
                        assert(digits_val(body) > u64::MAX);
                    }
                }
                return None;
            }
        }
        i += 1;
    }
    proof {
        assert(body.subrange(0, (len - start) as int) =~= body);
    }
    Some(acc)
}

/// Parses a signed decimal with magnitude at most `bound`: an optional
/// leading '+' or '-', then decimal digits. Shared engine for `i64` parsing.
#[verifier::loop_isolation(false)]
fn parse_magnitude(s: &str, bound: u64) -> (r: Option<(bool, u64)>)
    ensures
        ({
            let neg = s@.len() > 0 && s@[0] == '-';
            let body = if s@.len() > 0 && (s@[0] == '+' || s@[0] == '-') {
                s@.drop_first()
            } else {
                s@
            };
            if body.len() > 0 && all_dec_digits(body) && digits_val(body) <= bound {
                0 <= digits_val(body) && r == Some((neg, digits_val(body) as u64))
            } else {
                r is None
            }
        }),
{
    let len = s.unicode_len();
    let neg = len > 0 && s.get_char(0) == '-';
    let start: usize = if len > 0 && (s.get_char(0) == '+' || s.get_char(0) == '-') {
        1
    } else {
        0
    };
    let ghost body = if s@.len() > 0 && (s@[0] == '+' || s@[0] == '-') {
        s@.drop_first()
    } else {
        s@
    };
    proof {
        assert(body =~= s@.subrange(start as int, len as int));
    }
    if start == len {
        return None;
    }
    let mut acc: u64 = 0;
    let mut i: usize = start;
    while i < len
        invariant
            len == s@.len(),
            start <= i <= len,
            start < len,
            bound <= u64::MAX,
            body == s@.subrange(start as int, len as int),
            all_dec_digits(body.subrange(0, i - start)),
            acc == digits_val(body.subrange(0, i - start)),
            acc <= bound,
        decreases len - i,
    {
        let c = s.get_char(i);
        let cu = c as u32;
        if cu < 48 || cu > 57 {
            proof {
                assert(body[i - start] == s@[i as int]);
                assert(!is_dec_digit(body[i - start]));
                assert(!all_dec_digits(body));
            }
            return None;
        }
        let d = (cu - 48) as u64;
        let ghost prefix1 = body.subrange(0, i - start + 1);
        proof {
            assert(prefix1.drop_last() =~= body.subrange(0, i - start));
            assert(prefix1.last() == s@[i as int]);
        }
        let step = match acc.checked_mul(10) {
            Some(m) => m.checked_add(d),
            None => None,
        };
        let over = match step {
            Some(v) => v > bound,
            None => true,
        };
        if over {
            proof {
                assert(all_dec_digits(prefix1));
                assert(digits_val(prefix1) > bound);
                if all_dec_digits(body) {
                    lemma_digits_val_prefix_le(body, i - start + 1);
                    assert(digits_val(body) > bound);
                }
            }
            return None;
        }
        acc = match step {
            Some(v) => v,
            None => 0,
        };
        i += 1;
    }
    proof {
        assert(body.subrange(0, (len - start) as int) =~= body);
    }
    Some((neg, acc))
}

/// Parses a signed decimal: an optional leading '+' or '-', then decimal
/// digits. Returns `None` on an empty body, a non-digit character, or a
/// value outside the `i64` range.
pub fn parse_i64_str(s: &str) -> (r: Option<i64>)
    ensures
        r == parse_i64_spec(s@),
{
    let len = s.unicode_len();
    let neg = len > 0 && s.get_char(0) == '-';
    if neg {
        match parse_magnitude(s, 0x8000_0000_0000_0000u64) {
            Some((_, mag)) => {
                if mag == 0x8000_0000_0000_0000u64 {
                    Some(i64::MIN)
                } else {
                    Some(-(mag as i64))
                }
            }
            None => None,
        }
    } else {
        match parse_magnitude(s, i64::MAX as u64) {
            Some((_, mag)) => Some(mag as i64),
            None => None,
        }
    }
}

/// Whitespace, as the benchmark's column splitting treats it: the Unicode
/// white-space code points.
pub open spec fn is_space_char(c: char) -> bool {
    let u = c as int;
    (9 <= u && u <= 13) || u == 32 || u == 0x85 || u == 0xA0 || u == 0x1680 || (0x2000 <= u && u
        <= 0x200A) || u == 0x2028 || u == 0x2029 || u == 0x202F || u == 0x205F || u == 0x3000
}

pub fn is_space(c: char) -> (r: bool)
    ensures
        r == is_space_char(c),
{
    let u = c as u32;
    (9 <= u && u <= 13) || u == 32 || u == 0x85 || u == 0xA0 || u == 0x1680 || (0x2000 <= u && u
        <= 0x200A) || u == 0x2028 || u == 0x2029 || u == 0x202F || u == 0x205F || u == 0x3000
}

/// The first position at or after `i` that holds whitespace (or the end).
pub open spec fn token_end(s: Seq<char>, i: int) -> int
    decreases s.len() - i,
    when 0 <= i <= s.len()
{
    if i >= s.len() {
        i
    } else if is_space_char(s[i]) {
        i
    } else {
        token_end(s, i + 1)
    }
}

pub proof fn lemma_token_end_bounds(s: Seq<char>, i: int)
    requires
        0 <= i <= s.len(),
    ensures
        i <= token_end(s, i) <= s.len(),
    decreases s.len() - i,
{
    if i < s.len() && !is_space_char(s[i]) {
        lemma_token_end_bounds(s, i + 1);
    }
}

/// The whitespace-separated tokens of `s`, scanning from position `i`.
pub open spec fn split_ws_from(s: Seq<char>, i: int) -> Seq<Seq<char>>
    decreases s.len() - i,
    when 0 <= i <= s.len()
    via split_ws_from_decreases
{
    if i >= s.len() {
        Seq::empty()
    } else if is_space_char(s[i]) {
        split_ws_from(s, i + 1)
    } else {
        seq![s.subrange(i, token_end(s, i))] + split_ws_from(s, token_end(s, i))
    }
}

#[via_fn]
proof fn split_ws_from_decreases(s: Seq<char>, i: int) {
    if 0 <= i <= s.len() && i < s.len() && !is_space_char(s[i]) {
        lemma_token_end_bounds(s, i + 1);
    }
}

/// The whitespace-separated tokens of `s`.
pub open spec fn split_ws(s: Seq<char>) -> Seq<Seq<char>> {
    split_ws_from(s, 0)
}

/// The views of a sequence of strings.
pub open spec fn views_of(ts: Seq<String>) -> Seq<Seq<char>> {
    ts.map_values(|t: String| t@)
}

pub proof fn lemma_views_of_push(ts: Seq<String>, t: String)
    ensures
        views_of(ts.push(t)) =~= views_of(ts).push(t@),
{
}

/// Splits `s` into its whitespace-separated tokens, as owned strings.
#[verifier::loop_isolation(false)]
pub fn split_whitespace_tokens(s: &str) -> (toks: Vec<String>)
    ensures
        views_of(toks@) == split_ws(s@),
{
    let len = s.unicode_len();
    let mut toks: Vec<String> = Vec::new();
    let mut i: usize = 0;
    proof {
        assert(views_of(toks@) =~= Seq::<Seq<char>>::empty());
    }
    while i < len
        invariant
            i <= len,
            views_of(toks@) + split_ws_from(s@, i as int) == split_ws(s@),
        decreases len - i,
    {
        let c = s.get_char(i);
        if is_space(c) {
            i += 1;
        } else {
            let mut j: usize = i;
            proof {
                lemma_token_end_bounds(s@, i as int);
            }
            while j < len && !is_space(s.get_char(j))
                invariant
                    i <= j <= len,
                    token_end(s@, i as int) == token_end(s@, j as int),
                decreases len - j,
            {
                j += 1;
            }
            proof {
                assert(token_end(s@, j as int) == j);
                assert(token_end(s@, i as int) == j);
            }
            let tok = String::from_str(s.substring_char(i, j));
            proof {
                let ghost old_toks = toks@;
                assert(split_ws_from(s@, i as int) == seq![s@.subrange(i as int, j as int)]
                    + split_ws_from(s@, j as int));
            }
            let ghost pre = toks@;
            toks.push(tok);
            proof {
                lemma_views_of_push(pre, tok);
                assert(views_of(toks@) + split_ws_from(s@, j as int) =~= views_of(pre) + (seq![
                    s@.subrange(i as int, j as int),
                ] + split_ws_from(s@, j as int)));
            }
            i = j;
        }
    }
    toks
}

/// The tokens joined with single spaces.
pub open spec fn join_ws(ts: Seq<Seq<char>>) -> Seq<char>
    decreases ts.len(),
{
    if ts.len() == 0 {
        Seq::empty()
    } else if ts.len() == 1 {
        ts[0]
    } else {
        ts[0] + seq![' '] + join_ws(ts.drop_first())
    }
}

/// Joins the strings with single spaces.
#[verifier::loop_isolation(false)]
pub fn join_tokens(toks: &Vec<String>) -> (s: String)
    ensures
        s@ == join_ws(views_of(toks@)),
{
    let ghost ts = views_of(toks@);
    if toks.len() == 0 {
        return String::new();
    }
    let mut s = toks[0].clone();
    let mut i: usize = 1;
    proof {
        if toks.len() > 1 {
            assert(ts.drop_first() =~= ts.skip(1));
        }
    }
    while i < toks.len()
        invariant
            1 <= i <= toks.len(),
            join_ws(ts) == (if i < toks.len() {
                s@ + seq![' '] + join_ws(ts.skip(i as int))
            } else {
                s@
            }),
        decreases toks.len() - i,
    {
        let ghost pre = s@;
        s.append(" ");
        s.append(toks[i].as_str());
        proof {
            reveal_strlit(" ");
            let rem = ts.skip(i as int);
            assert(rem[0] == ts[i as int]);
            assert(s@ =~= pre + seq![' '] + ts[i as int]);
            if i + 1 < toks.len() {
                assert(rem.drop_first() =~= ts.skip(i as int + 1));
                assert(join_ws(rem) == ts[i as int] + seq![' '] + join_ws(ts.skip(i as int + 1)));
                assert(pre + seq![' '] + join_ws(rem) =~= s@ + seq![' '] + join_ws(
                    ts.skip(i as int + 1),
                ));
            } else {
                assert(rem.len() == 1);
                assert(join_ws(rem) == ts[i as int]);
                assert(pre + seq![' '] + join_ws(rem) =~= s@);
            }
        }
        i += 1;
    }
    s
}

/// A maximal run of non-whitespace ends the token exactly at its end.
pub proof fn lemma_token_end_run(s: Seq<char>, i: int, l: int)
    requires
        0 <= i <= l <= s.len(),
        forall|m: int| i <= m < l ==> !is_space_char(#[trigger] s[m]),
        l == s.len() || is_space_char(s[l]),
    ensures
        token_end(s, i) == l,
    decreases l - i,
{
    if i < l {
        lemma_token_end_run(s, i + 1, l);
    }
}

/// The token scan is position-independent: scanning a concatenation past its
/// first part scans the second.
pub proof fn lemma_token_end_shift(a: Seq<char>, b: Seq<char>, k: int)
    requires
        0 <= k <= b.len(),
    ensures
        token_end(a + b, a.len() + k) == a.len() + token_end(b, k),
    decreases b.len() - k,
{
    let s = a + b;
    if k < b.len() {
        assert(s[a.len() + k] == b[k]);
        if !is_space_char(b[k]) {
            lemma_token_end_shift(a, b, k + 1);
        }
    }
}

/// The splitter is position-independent in the same way.
pub proof fn lemma_split_from_shift(a: Seq<char>, b: Seq<char>, k: int)
    requires
        0 <= k <= b.len(),
    ensures
        split_ws_from(a + b, a.len() + k) == split_ws_from(b, k),
    decreases b.len() - k,
{
    let s = a + b;
    if k < b.len() {
        assert(s[a.len() + k] == b[k]);
        if is_space_char(b[k]) {
            lemma_split_from_shift(a, b, k + 1);
        } else {
            lemma_token_end_shift(a, b, k);
            lemma_token_end_bounds(b, k + 1);
            assert(token_end(b, k) == token_end(b, k + 1));
            let te = token_end(b, k);
            assert(s.subrange(a.len() + k, a.len() + te) =~= b.subrange(k, te));
            lemma_split_from_shift(a, b, te);
        }
    }
}

/// Every token is nonempty and free of whitespace.
pub open spec fn ws_free_tokens(ts: Seq<Seq<char>>) -> bool {
    forall|k: int|
        0 <= k < ts.len() ==> {
            let t = #[trigger] ts[k];
            t.len() > 0 && forall|m: int| 0 <= m < t.len() ==> !is_space_char(#[trigger] t[m])
        }
}

/// Splitting the space-joined tokens gives the tokens back, provided each is
/// nonempty and free of whitespace.
pub proof fn lemma_split_join(ts: Seq<Seq<char>>)
    requires
        ws_free_tokens(ts),
    ensures
        split_ws(join_ws(ts)) == ts,
    decreases ts.len(),
{
    let j = join_ws(ts);
    if ts.len() == 0 {
        assert(split_ws(j) =~= ts);
    } else if ts.len() == 1 {
        let t0 = ts[0];
        assert(j == t0);
        assert(!is_space_char(j[0]));
        lemma_token_end_run(j, 0, t0.len() as int);
        assert(j.subrange(0, t0.len() as int) =~= t0);
        assert(split_ws_from(j, t0.len() as int) =~= Seq::<Seq<char>>::empty());
        assert(split_ws(j) =~= ts);
    } else {
        let t0 = ts[0];
        let rest = ts.drop_first();
        let b = seq![' '] + join_ws(rest);
        assert(j == t0 + seq![' '] + join_ws(rest));
        assert(j =~= t0 + b);
        assert(forall|m: int| 0 <= m < t0.len() ==> (t0 + b)[m] == #[trigger] t0[m]);
        assert((t0 + b)[t0.len() as int] == ' ');
        assert(is_space_char(' '));
        lemma_token_end_run(t0 + b, 0, t0.len() as int);
        assert(!is_space_char((t0 + b)[0]));
        assert((t0 + b).subrange(0, t0.len() as int) =~= t0);
        lemma_split_from_shift(t0, b, 0);
        assert(split_ws_from(t0 + b, t0.len() as int) == split_ws_from(b, 0));
        assert(split_ws_from(b, 0) == split_ws_from(b, 1));
        let jr = join_ws(rest);
        assert(b =~= seq![' '] + jr);
        lemma_split_from_shift(seq![' '], jr, 0);
        assert(split_ws_from(b, 1) == split_ws_from(jr, 0));
        assert(ws_free_tokens(rest)) by {
            assert(forall|k: int| 0 <= k < rest.len() ==> #[trigger] rest[k] == ts[k + 1]);
        }
        lemma_split_join(rest);
        assert(split_ws(t0 + b) == seq![t0] + split_ws(jr));
        assert(seq![t0] + rest =~= ts);
        assert(split_ws(j) == ts);
    }
}

/// A character absent from every token (other than the space separator)
/// is absent from the joined line.
pub proof fn lemma_join_char_free(ts: Seq<Seq<char>>, c: char)
    requires
        forall|k: int, m: int|
            0 <= k < ts.len() && 0 <= m < ts[k].len() ==> #[trigger] ts[k][m] != c,
        c != ' ',
    ensures
        forall|i: int| 0 <= i < join_ws(ts).len() ==> #[trigger] join_ws(ts)[i] != c,
    decreases ts.len(),
{
    let j = join_ws(ts);
    if ts.len() == 1 {
        assert(forall|i: int| 0 <= i < j.len() ==> #[trigger] j[i] == ts[0][i]);
    } else if ts.len() > 1 {
        let t0 = ts[0];
        let rest = ts.drop_first();
        assert(forall|k: int, m: int|
            0 <= k < rest.len() && 0 <= m < rest[k].len() ==> #[trigger] rest[k][m] == ts[k
                + 1][m]);
        lemma_join_char_free(rest, c);
        let jr = join_ws(rest);
        assert forall|i: int| 0 <= i < j.len() implies #[trigger] j[i] != c by {
            if i < t0.len() {
                assert(j[i] == t0[i]);
            } else if i == t0.len() {
                assert(j[i] == ' ');
            } else {
                assert(j[i] == jr[i - t0.len() - 1]);
            }
        }
    }
}

/// A decimal digit is not whitespace and is not a colon.
pub proof fn lemma_digit_char_class(c: char)
    requires
        is_dec_digit(c),
    ensures
        !is_space_char(c),
        c != ':',
{
    assert(':' as int == 58);
}

/// The decimal digit characters are digits with their expected values.
pub proof fn lemma_digit_char_is_digit(d: int)
    requires
        0 <= d <= 9,
    ensures
        is_dec_digit(digit_char(d)),
        digit_val(digit_char(d)) == d,
{
    assert('0' as int == 48);
    assert('1' as int == 49);
    assert('2' as int == 50);
    assert('3' as int == 51);
    assert('4' as int == 52);
    assert('5' as int == 53);
    assert('6' as int == 54);
    assert('7' as int == 55);
    assert('8' as int == 56);
    assert('9' as int == 57);
}

/// The canonical decimal rendering consists of decimal digits, is nonempty,
/// and parses back to the value it renders.
pub proof fn lemma_u64_digits_wf(n: nat)
    ensures
        u64_digits(n).len() > 0,
        all_dec_digits(u64_digits(n)),
        digits_val(u64_digits(n)) == n,
    decreases n,
{
    if n < 10 {
        let s = u64_digits(n);
        assert(s == seq![digit_char(n as int)]);
        lemma_digit_char_is_digit(n as int);
        assert(s.drop_last() =~= Seq::<char>::empty());
        assert(digits_val(Seq::<char>::empty()) == 0);
        assert(s.last() == digit_char(n as int));
        assert(digits_val(s) == digit_val(digit_char(n as int)));
    } else {
        lemma_u64_digits_wf(n / 10);
        let p = u64_digits(n / 10);
        let c = digit_char((n % 10) as int);
        let s = p.push(c);
        lemma_digit_char_is_digit((n % 10) as int);
        assert(s.drop_last() =~= p);
        assert(s.last() == c);
        assert(forall|i: int| 0 <= i < p.len() ==> #[trigger] s[i] == p[i]);
        assert(all_dec_digits(s));
        assert(digits_val(s) == digits_val(p) * 10 + digit_val(c));
        assert(digit_val(c) == n % 10);
        assert(n == (n / 10) * 10 + n % 10);
    }
}

/// Parsing inverts rendering for unsigned decimals.
pub proof fn lemma_parse_u64_digits(n: u64)
    ensures
        parse_u64_spec(u64_digits(n as nat)) == Some(n),
{
    lemma_u64_digits_wf(n as nat);
    let s = u64_digits(n as nat);
    assert(is_dec_digit(s[0]));
    assert('+' as int == 43);
    assert(s[0] != '+');
}

/// Parsing inverts rendering for signed decimals.
pub proof fn lemma_parse_i64_digits(n: i64)
    ensures
        parse_i64_spec(i64_digits(n as int)) == Some(n),
{
    if n >= 0 {
        lemma_u64_digits_wf(n as nat);
        let s = i64_digits(n as int);
        assert(s == u64_digits(n as nat));
        assert(is_dec_digit(s[0]));
        assert('+' as int == 43);
        assert('-' as int == 45);
        assert(s[0] != '+' && s[0] != '-');
    } else {
        let mag = (-(n as int)) as nat;
        lemma_u64_digits_wf(mag);
        let s = i64_digits(n as int);
        assert(s == seq!['-'] + u64_digits(mag));
        assert(s[0] == '-');
        assert(s.drop_first() =~= u64_digits(mag));
        assert(mag <= 0x8000_0000_0000_0000);
    }
}

/// The canonical decimal renderings are whitespace-free, colon-free tokens.
pub proof fn lemma_digits_token_clean(n: nat)
    ensures
        u64_digits(n).len() > 0,
        forall|m: int|
            0 <= m < u64_digits(n).len() ==> !is_space_char(#[trigger] u64_digits(n)[m])
                && u64_digits(n)[m] != ':',
{
    lemma_u64_digits_wf(n);
    assert forall|m: int|
        0 <= m < u64_digits(n).len() implies !is_space_char(#[trigger] u64_digits(n)[m])
        && u64_digits(n)[m] != ':' by {
        lemma_digit_char_class(u64_digits(n)[m]);
    }
}

/// The signed decimal renderings are whitespace-free, colon-free tokens.
pub proof fn lemma_i64_digits_token_clean(v: int)
    ensures
        i64_digits(v).len() > 0,
        forall|m: int|
            0 <= m < i64_digits(v).len() ==> !is_space_char(#[trigger] i64_digits(v)[m])
                && i64_digits(v)[m] != ':',
{
    if v >= 0 {
        lemma_digits_token_clean(v as nat);
    } else {
        lemma_digits_token_clean((-v) as nat);
        let s = i64_digits(v);
        assert(s == seq!['-'] + u64_digits((-v) as nat));
        assert('-' as int == 45 && ':' as int == 58);
        assert(!is_space_char('-'));
        assert forall|m: int|
            0 <= m < s.len() implies !is_space_char(#[trigger] s[m]) && s[m] != ':' by {
            if m > 0 {
                assert(s[m] == u64_digits((-v) as nat)[m - 1]);
            }
        }
    }
}

} // verus!
