//! The output parser: a pure, stateless, total classifier that turns one
//! line of the benchmark's semi-structured output into either a typed
//! measurement row or `Ignored`. Malformed input never propagates an error:
//! a failed field decode drops the line and names the failed field.

use vstd::prelude::*;
use vstd::string::*;

use crate::text::all_dec_digits;
use crate::text::is_space_char;
use crate::text::parse_i64_spec;
use crate::text::parse_i64_str;
use crate::text::parse_u64_spec;
use crate::text::parse_u64_str;
use crate::text::split_whitespace_tokens;
use crate::text::split_ws;
use crate::text::str_eq;
use crate::text::views_of;

verus! {

// ---------------------------------------------------------------------------
// Log-preamble detection
// ---------------------------------------------------------------------------
/// A character admitted in the tag of a log preamble: the code points from
/// 'A' through 'z' (which include the brackets and underscore between the
/// alphabetic blocks), or a decimal digit.
pub open spec fn is_preamble_word_char(c: char) -> bool {
    let u = c as int;
    (65 <= u && u <= 122) || (48 <= u && u <= 57)
}

/// Whether the line contains a log-preamble shape: a tag character, a colon,
/// one or more digits, another colon, and a digit — the `tag:pid:tid` prefix
/// the benchmark's log lines carry. `c1` and `c2` are the two colons of one
/// such occurrence.
pub open spec fn preamble_matches(s: Seq<char>) -> bool {
    exists|c1: int, c2: int|
        #![trigger s[c1], s[c2]]
        {
            &&& 1 <= c1
            &&& c1 + 1 < c2
            &&& c2 + 1 < s.len()
            &&& s[c1] == ':'
            &&& s[c2] == ':'
            &&& is_preamble_word_char(s[c1 - 1])
            &&& (forall|m: int| c1 < m < c2 ==> is_dec_digit_at(s, m))
            &&& is_dec_digit_at(s, c2 + 1)
        }
}

/// Helper predicate so the quantifiers above have a stable trigger.
pub open spec fn is_dec_digit_at(s: Seq<char>, i: int) -> bool {
    crate::text::is_dec_digit(s[i])
}

/// A line without any colon cannot carry a log preamble.
pub proof fn lemma_no_colon_no_preamble(s: Seq<char>)
    requires
        forall|i: int| 0 <= i < s.len() ==> s[i] != ':',
    ensures
        !preamble_matches(s),
{
    if preamble_matches(s) {
        let (c1, c2) = choose|c1: int, c2: int|
            #![trigger s[c1], s[c2]]
            {
                &&& 1 <= c1
                &&& c1 + 1 < c2
                &&& c2 + 1 < s.len()
                &&& s[c1] == ':'
                &&& s[c2] == ':'
                &&& is_preamble_word_char(s[c1 - 1])
                &&& (forall|m: int| c1 < m < c2 ==> is_dec_digit_at(s, m))
                &&& is_dec_digit_at(s, c2 + 1)
            };
        assert(s[c1] == ':');
        assert(false);
    }
}

/// Relies on `regex::Regex::is_match` over the fixed pattern
/// `[A-z0-9]+:[0-9]+:[0-9]+`: it reports whether some substring of the line
/// matches the pattern, which holds exactly when two colons stand with a tag
/// character immediately before the first, only digits (at least one)
/// between them, and a digit immediately after the second. `Regex::new`
/// cannot fail on this fixed, well-formed pattern.
#[verifier::external_body]
fn preamble_regex_match(line: &str) -> (r: bool)
    ensures
        r == preamble_matches(line@),
{
    match regex::Regex::new(r"[A-z0-9]+:[0-9]+:[0-9]+") {
        Ok(re) => re.is_match(line),
        Err(_) => false,
    }
}

// ---------------------------------------------------------------------------
// Floating-point token shape
// ---------------------------------------------------------------------------
/// The first position at or after `i` holding `c1` or `c2`.
pub open spec fn find_from(s: Seq<char>, i: int, c1: char, c2: char) -> Option<int>
    decreases s.len() - i,
    when 0 <= i <= s.len()
{
    if i >= s.len() {
        None
    } else if s[i] == c1 || s[i] == c2 {
        Some(i)
    } else {
        find_from(s, i + 1, c1, c2)
    }
}

/// One or more decimal digits.
pub open spec fn is_digits(s: Seq<char>) -> bool {
    s.len() > 0 && all_dec_digits(s)
}

/// `s` with one leading '+' or '-' removed, if present.
pub open spec fn strip_sign(s: Seq<char>) -> Seq<char> {
    if s.len() > 0 && (s[0] == '+' || s[0] == '-') {
        s.drop_first()
    } else {
        s
    }
}

/// A mantissa: digits with at most one decimal point and at least one digit
/// overall — `d+`, `d+.d*` or `d*.d+`.
pub open spec fn is_mantissa(m: Seq<char>) -> bool {
    match find_from(m, 0, '.', '.') {
        None => is_digits(m),
        Some(i) => {
            let before = m.subrange(0, i);
            let after = m.subrange(i + 1, m.len() as int);
            all_dec_digits(before) && all_dec_digits(after) && (before.len() > 0 || after.len()
                > 0)
        },
    }
}

/// An exponent part: an optional sign, then one or more digits.
pub open spec fn is_exp_part(x: Seq<char>) -> bool {
    is_digits(strip_sign(x))
}

/// The token shape accepted for the benchmark's floating-point columns:
/// an optional sign, a mantissa, and an optional `e`/`E` exponent with an
/// optional sign — decimal notation, the only shape those columns carry.
pub open spec fn is_float_token(s: Seq<char>) -> bool {
    let b = strip_sign(s);
    match find_from(b, 0, 'e', 'E') {
        None => is_mantissa(b),
        Some(i) => is_mantissa(b.subrange(0, i)) && is_exp_part(
            b.subrange(i + 1, b.len() as int),
        ),
    }
}

/// Finds the first occurrence of `c1` or `c2` in `s`.
#[verifier::loop_isolation(false)]
fn find_first_of(s: &str, c1: char, c2: char) -> (r: Option<usize>)
    ensures
        ({
            let f = find_from(s@, 0, c1, c2);
            match r {
                Some(i) => f == Some(i as int) && i < s@.len(),
                None => f is None,
            }
        }),
{
    let len = s.unicode_len();
    let mut i: usize = 0;
    while i < len
        invariant
            i <= len,
            find_from(s@, 0, c1, c2) == find_from(s@, i as int, c1, c2),
        decreases len - i,
    {
        let c = s.get_char(i);
        if c == c1 || c == c2 {
            return Some(i);
        }
        i += 1;
    }
    None
}

/// Whether every character of `s` in positions `from..to` is a decimal
/// digit, and the range is nonempty.
#[verifier::loop_isolation(false)]
fn is_digit_range(s: &str, from: usize, to: usize) -> (r: bool)
    requires
        from <= to <= s@.len(),
    ensures
        r == is_digits(s@.subrange(from as int, to as int)),
{
    if from == to {
        return false;
    }
    let mut i: usize = from;
    while i < to
        invariant
            from <= i <= to,
            forall|j: int| from <= j < i ==> crate::text::is_dec_digit(#[trigger] s@[j]),
        decreases to - i,
    {
        let c = s.get_char(i);
        let u = c as u32;
        if u < 48 || u > 57 {
            proof {
                let sub = s@.subrange(from as int, to as int);
                assert(sub[i - from] == s@[i as int]);
                assert(!all_dec_digits(sub));
            }
            return false;
        }
        i += 1;
    }
    proof {
        let sub = s@.subrange(from as int, to as int);
        assert(forall|j: int| 0 <= j < sub.len() ==> #[trigger] sub[j] == s@[from + j]);
        assert(all_dec_digits(sub));
    }
    true
}

/// Whether every character of `s` in positions `from..to` is a decimal
/// digit (an empty range passes).
#[verifier::loop_isolation(false)]
fn all_digit_range(s: &str, from: usize, to: usize) -> (r: bool)
    requires
        from <= to <= s@.len(),
    ensures
        r == all_dec_digits(s@.subrange(from as int, to as int)),
{
    let mut i: usize = from;
    while i < to
        invariant
            from <= i <= to,
            forall|j: int| from <= j < i ==> crate::text::is_dec_digit(#[trigger] s@[j]),
        decreases to - i,
    {
        let c = s.get_char(i);
        let u = c as u32;
        if u < 48 || u > 57 {
            proof {
                let sub = s@.subrange(from as int, to as int);
                assert(sub[i - from] == s@[i as int]);
                assert(!all_dec_digits(sub));
            }
            return false;
        }
        i += 1;
    }
    proof {
        let sub = s@.subrange(from as int, to as int);
        assert(forall|j: int| 0 <= j < sub.len() ==> #[trigger] sub[j] == s@[from + j]);
        assert(all_dec_digits(sub));
    }
    true
}

/// Whether the token has the shape accepted for a floating-point column.
pub fn is_float_str(s: &str) -> (r: bool)
    ensures
        r == is_float_token(s@),
{
    let len = s.unicode_len();
    let b_start: usize = if len > 0 && {
        let c = s.get_char(0);
        c == '+' || c == '-'
    } {
        1
    } else {
        0
    };
    let b = s.substring_char(b_start, len);
    proof {
        assert(b@ =~= strip_sign(s@));
    }
    match find_first_of(b, 'e', 'E') {
        None => is_mantissa_str(b),
        Some(i) => {
            let blen = b.unicode_len();
            let mant = b.substring_char(0, i);
            let exp = b.substring_char(i + 1, blen);
            proof {
                assert(mant@ =~= b@.subrange(0, i as int));
                assert(exp@ =~= b@.subrange(i as int + 1, b@.len() as int));
            }
            if !is_mantissa_str(mant) {
                return false;
            }
            is_exp_str(exp)
        },
    }
}

/// Whether the token is a mantissa.
fn is_mantissa_str(m: &str) -> (r: bool)
    ensures
        r == is_mantissa(m@),
{
    let len = m.unicode_len();
    proof {
        assert(m@.subrange(0, len as int) =~= m@);
    }
    match find_first_of(m, '.', '.') {
        None => is_digit_range(m, 0, len),
        Some(i) => {
            let before_ok = all_digit_range(m, 0, i);
            let after_ok = all_digit_range(m, i + 1, len);
            before_ok && after_ok && (i > 0 || i + 1 < len)
        },
    }
}

/// Whether the token is an exponent part.
fn is_exp_str(x: &str) -> (r: bool)
    ensures
        r == is_exp_part(x@),
{
    let len = x.unicode_len();
    let b_start: usize = if len > 0 && {
        let c = x.get_char(0);
        c == '+' || c == '-'
    } {
        1
    } else {
        0
    };
    let r = is_digit_range(x, b_start, len);
    proof {
        assert(x@.subrange(b_start as int, len as int) =~= strip_sign(x@));
    }
    r
}

// ---------------------------------------------------------------------------
// Typed rows and field decoding
// ---------------------------------------------------------------------------
/// A count of wrong results, as the benchmark reports it: a number, or the
/// sentinel "N/A" the benchmark prints when verification does not apply.
#[derive(Clone, Copy, Debug, PartialEq, Eq, Structural)]
pub enum ErrorCount {
    Numeric(u64),
    NotApplicable,
}

/// One measured data point decoded from a table row of the benchmark output.
/// The three floating-point columns of each group are kept as their raw
/// tokens, validated against the float-token shape; the verified core never
/// computes on the measurements themselves.
#[derive(Clone, Debug)]
pub struct Row {
    pub size: u64,
    pub count: u64,
    pub dtype: String,
    pub redop: String,
    pub root: i64,
    pub oop_time: String,
    pub oop_alg_bw: String,
    pub oop_bus_bw: String,
    pub oop_num_wrong: ErrorCount,
    pub ip_time: String,
    pub ip_alg_bw: String,
    pub ip_bus_bw: String,
    pub ip_num_wrong: ErrorCount,
}

/// The mathematical image of a row.
#[verifier::ext_equal]
pub ghost struct RowModel {
    pub size: u64,
    pub count: u64,
    pub dtype: Seq<char>,
    pub redop: Seq<char>,
    pub root: i64,
    pub oop_time: Seq<char>,
    pub oop_alg_bw: Seq<char>,
    pub oop_bus_bw: Seq<char>,
    pub oop_num_wrong: ErrorCount,
    pub ip_time: Seq<char>,
    pub ip_alg_bw: Seq<char>,
    pub ip_bus_bw: Seq<char>,
    pub ip_num_wrong: ErrorCount,
}

impl View for Row {
    type V = RowModel;

    open spec fn view(&self) -> RowModel {
        RowModel {
            size: self.size,
            count: self.count,
            dtype: self.dtype@,
            redop: self.redop@,
            root: self.root,
            oop_time: self.oop_time@,
            oop_alg_bw: self.oop_alg_bw@,
            oop_bus_bw: self.oop_bus_bw@,
            oop_num_wrong: self.oop_num_wrong,
            ip_time: self.ip_time@,
            ip_alg_bw: self.ip_alg_bw@,
            ip_bus_bw: self.ip_bus_bw@,
            ip_num_wrong: self.ip_num_wrong,
        }
    }
}

/// The column whose decode failed, for the dropped-line diagnostic.
#[derive(Clone, Copy, Debug, PartialEq, Eq, Structural)]
pub enum FieldId {
    Size,
    Count,
    Root,
    OopTime,
    OopAlgBw,
    OopBusBw,
    OopNumWrong,
    IpTime,
    IpAlgBw,
    IpBusBw,
    IpNumWrong,
}

/// The diagnostic name of a column.
pub open spec fn field_name_spec(f: FieldId) -> Seq<char> {
    match f {
        FieldId::Size => "size"@,
        FieldId::Count => "count"@,
        FieldId::Root => "root"@,
        FieldId::OopTime => "oop_time"@,
        FieldId::OopAlgBw => "oop_alg_bw"@,
        FieldId::OopBusBw => "oop_bus_bw"@,
        FieldId::OopNumWrong => "oop_num_wrong"@,
        FieldId::IpTime => "ip_time"@,
        FieldId::IpAlgBw => "ip_alg_bw"@,
        FieldId::IpBusBw => "ip_bus_bw"@,
        FieldId::IpNumWrong => "ip_num_wrong"@,
    }
}

impl FieldId {
    /// The diagnostic name of the column.
    pub fn name(&self) -> (s: String)
        ensures
            s@ == field_name_spec(*self),
    {
        match self {
            FieldId::Size => String::from_str("size"),
            FieldId::Count => String::from_str("count"),
            FieldId::Root => String::from_str("root"),
            FieldId::OopTime => String::from_str("oop_time"),
            FieldId::OopAlgBw => String::from_str("oop_alg_bw"),
            FieldId::OopBusBw => String::from_str("oop_bus_bw"),
            FieldId::OopNumWrong => String::from_str("oop_num_wrong"),
            FieldId::IpTime => String::from_str("ip_time"),
            FieldId::IpAlgBw => String::from_str("ip_alg_bw"),
            FieldId::IpBusBw => String::from_str("ip_bus_bw"),
            FieldId::IpNumWrong => String::from_str("ip_num_wrong"),
        }
    }
}

/// What an error-count column accepts: the sentinel "N/A", or an unsigned
/// decimal.
pub open spec fn errcount_spec(t: Seq<char>) -> Option<ErrorCount> {
    if t == "N/A"@ {
        Some(ErrorCount::NotApplicable)
    } else {
        match parse_u64_spec(t) {
            Some(v) => Some(ErrorCount::Numeric(v)),
            None => None,
        }
    }
}

/// Decodes an error-count token.
pub fn parse_error_count(t: &str) -> (r: Option<ErrorCount>)
    ensures
        r == errcount_spec(t@),
{
    if str_eq(t, "N/A") {
        Some(ErrorCount::NotApplicable)
    } else {
        match parse_u64_str(t) {
            Some(v) => Some(ErrorCount::Numeric(v)),
            None => None,
        }
    }
}

/// The reduction-op column with the empty token coerced to the sentinel
/// "N/A" (an empty op column is not an error: some collectives print none).
pub open spec fn redop_spec(t: Seq<char>) -> Seq<char> {
    if t.len() == 0 {
        "N/A"@
    } else {
        t
    }
}

/// The first column of a 13-token line whose typed decode fails, in column
/// order, or `None` when every field decodes.
pub open spec fn first_bad_field(ts: Seq<Seq<char>>) -> Option<FieldId>
    recommends
        ts.len() == 13,
{
    if parse_u64_spec(ts[0]) is None {
        Some(FieldId::Size)
    } else if parse_u64_spec(ts[1]) is None {
        Some(FieldId::Count)
    } else if parse_i64_spec(ts[4]) is None {
        Some(FieldId::Root)
    } else if !is_float_token(ts[5]) {
        Some(FieldId::OopTime)
    } else if !is_float_token(ts[6]) {
        Some(FieldId::OopAlgBw)
    } else if !is_float_token(ts[7]) {
        Some(FieldId::OopBusBw)
    } else if errcount_spec(ts[8]) is None {
        Some(FieldId::OopNumWrong)
    } else if !is_float_token(ts[9]) {
        Some(FieldId::IpTime)
    } else if !is_float_token(ts[10]) {
        Some(FieldId::IpAlgBw)
    } else if !is_float_token(ts[11]) {
        Some(FieldId::IpBusBw)
    } else if errcount_spec(ts[12]) is None {
        Some(FieldId::IpNumWrong)
    } else {
        None
    }
}

/// The row decoded from the 13 tokens of a data line, when every field
/// decodes.
pub open spec fn decode_row_spec(ts: Seq<Seq<char>>) -> Option<RowModel>
    recommends
        ts.len() == 13,
{
    if first_bad_field(ts) is Some {
        None
    } else {
        Some(
            RowModel {
                size: parse_u64_spec(ts[0]).unwrap(),
                count: parse_u64_spec(ts[1]).unwrap(),
                dtype: ts[2],
                redop: redop_spec(ts[3]),
                root: parse_i64_spec(ts[4]).unwrap(),
                oop_time: ts[5],
                oop_alg_bw: ts[6],
                oop_bus_bw: ts[7],
                oop_num_wrong: errcount_spec(ts[8]).unwrap(),
                ip_time: ts[9],
                ip_alg_bw: ts[10],
                ip_bus_bw: ts[11],
                ip_num_wrong: errcount_spec(ts[12]).unwrap(),
            },
        )
    }
}

/// The classification of one line of benchmark output.
#[derive(Clone, Debug)]
pub enum Classification {
    Ignored,
    DataRow(Row),
}

/// The mathematical image of a classification.
pub ghost enum ClassificationModel {
    Ignored,
    DataRow(RowModel),
}

impl View for Classification {
    type V = ClassificationModel;

    open spec fn view(&self) -> ClassificationModel {
        match self {
            Classification::Ignored => ClassificationModel::Ignored,
            Classification::DataRow(row) => ClassificationModel::DataRow(row@),
        }
    }
}

/// The total classification function: a line matching the log-preamble shape
/// is ignored; otherwise a line of exactly 13 whitespace-separated tokens
/// whose fields all decode is a data row; every other line is ignored.
pub open spec fn classify_spec(s: Seq<char>) -> ClassificationModel {
    if preamble_matches(s) {
        ClassificationModel::Ignored
    } else if split_ws(s).len() == 13 {
        match decode_row_spec(split_ws(s)) {
            Some(r) => ClassificationModel::DataRow(r),
            None => ClassificationModel::Ignored,
        }
    } else {
        ClassificationModel::Ignored
    }
}

/// The diagnostic that accompanies a dropped 13-token line: the first column
/// whose decode failed. Lines ignored for any other reason carry none.
pub open spec fn classify_diag_spec(s: Seq<char>) -> Option<FieldId> {
    if preamble_matches(s) {
        None
    } else if split_ws(s).len() == 13 {
        first_bad_field(split_ws(s))
    } else {
        None
    }
}

/// Parse a line from the benchmark output. Returns the decoded row for a
/// table data line and `None` for every other line, together with the column
/// that broke the decode when a 13-token line was dropped. Total: no input
/// string raises an error.
pub fn parse_line(line: &str) -> (r: (Option<Row>, Option<FieldId>))
    ensures
        ({
            let c = classify_spec(line@);
            match r.0 {
                Some(row) => c == ClassificationModel::DataRow(row@),
                None => c is Ignored,
            }
        }),
        r.1 == classify_diag_spec(line@),
{
    if preamble_regex_match(line) {
        return (None, None);
    }
    let toks = split_whitespace_tokens(line);
    if toks.len() != 13 {
        return (None, None);
    }
    let ghost ts = split_ws(line@);
    proof {
        assert(ts.len() == 13);
        assert(forall|k: int| 0 <= k < 13 ==> (#[trigger] toks@[k])@ == ts[k]);
    }
    let size = match parse_u64_str(toks[0].as_str()) {
        Some(v) => v,
        None => {
            return (None, Some(FieldId::Size));
        }
    };
    let count = match parse_u64_str(toks[1].as_str()) {
        Some(v) => v,
        None => {
            return (None, Some(FieldId::Count));
        }
    };
    let root = match parse_i64_str(toks[4].as_str()) {
        Some(v) => v,
        None => {
            return (None, Some(FieldId::Root));
        }
    };
    if !is_float_str(toks[5].as_str()) {
        return (None, Some(FieldId::OopTime));
    }
    if !is_float_str(toks[6].as_str()) {
        return (None, Some(FieldId::OopAlgBw));
    }
    if !is_float_str(toks[7].as_str()) {
        return (None, Some(FieldId::OopBusBw));
    }
    let oop_num_wrong = match parse_error_count(toks[8].as_str()) {
        Some(v) => v,
        None => {
            return (None, Some(FieldId::OopNumWrong));
        }
    };
    if !is_float_str(toks[9].as_str()) {
        return (None, Some(FieldId::IpTime));
    }
    if !is_float_str(toks[10].as_str()) {
        return (None, Some(FieldId::IpAlgBw));
    }
    if !is_float_str(toks[11].as_str()) {
        return (None, Some(FieldId::IpBusBw));
    }
    let ip_num_wrong = match parse_error_count(toks[12].as_str()) {
        Some(v) => v,
        None => {
            return (None, Some(FieldId::IpNumWrong));
        }
    };
    let redop = if toks[3].as_str().is_empty() {
        String::from_str("N/A")
    } else {
        toks[3].clone()
    };
    let row = Row {
        size,
        count,
        dtype: toks[2].clone(),
        redop,
        root,
        oop_time: toks[5].clone(),
        oop_alg_bw: toks[6].clone(),
        oop_bus_bw: toks[7].clone(),
        oop_num_wrong,
        ip_time: toks[9].clone(),
        ip_alg_bw: toks[10].clone(),
        ip_bus_bw: toks[11].clone(),
        ip_num_wrong,
    };
    proof {
        assert(first_bad_field(ts) is None);
        assert(row@ == decode_row_spec(ts).unwrap());
    }
    (Some(row), None)
}

/// Classifies one line of benchmark output: `Ignored`, or a `DataRow`
/// carrying the decoded measurement. Total and stateless.
pub fn classify(line: &str) -> (c: Classification)
    ensures
        c@ == classify_spec(line@),
{
    match parse_line(line).0 {
        Some(row) => Classification::DataRow(row),
        None => Classification::Ignored,
    }
}

/// Every line classifies as exactly one of `Ignored` or `DataRow`: the
/// classifier is total, and a data row is produced exactly when the line is
/// a 13-token line whose every field decodes and which does not look like a
/// log preamble.
pub proof fn lemma_classify_total(s: Seq<char>)
    ensures
        classify_spec(s) is Ignored || classify_spec(s) is DataRow,
        classify_spec(s) is DataRow <==> (!preamble_matches(s) && split_ws(s).len() == 13
            && decode_row_spec(split_ws(s)) is Some),
{
}

// ---------------------------------------------------------------------------
// Rendering a row back into a line, and the round-trip law
// ---------------------------------------------------------------------------
/// The token an error count renders to.
pub open spec fn errcount_str(e: ErrorCount) -> Seq<char> {
    match e {
        ErrorCount::Numeric(v) => crate::text::u64_digits(v as nat),
        ErrorCount::NotApplicable => "N/A"@,
    }
}

/// Renders an error count as its column token.
pub fn error_count_to_string(e: &ErrorCount) -> (s: String)
    ensures
        s@ == errcount_str(*e),
{
    match e {
        ErrorCount::Numeric(v) => crate::text::u64_to_string(*v),
        ErrorCount::NotApplicable => String::from_str("N/A"),
    }
}

/// The reduction-op token a row renders to: the sentinel stands in for an
/// empty op, since a whitespace-separated line cannot carry an empty token.
pub open spec fn redop_token(t: Seq<char>) -> Seq<char> {
    if t.len() == 0 {
        "N/A"@
    } else {
        t
    }
}

/// The 13 column tokens of a row, in column order.
pub open spec fn row_tokens(r: RowModel) -> Seq<Seq<char>> {
    seq![
        crate::text::u64_digits(r.size as nat),
        crate::text::u64_digits(r.count as nat),
        r.dtype,
        redop_token(r.redop),
        crate::text::i64_digits(r.root as int),
        r.oop_time,
        r.oop_alg_bw,
        r.oop_bus_bw,
        errcount_str(r.oop_num_wrong),
        r.ip_time,
        r.ip_alg_bw,
        r.ip_bus_bw,
        errcount_str(r.ip_num_wrong),
    ]
}

/// The synthetic line a row renders to: its tokens joined with single
/// spaces.
pub open spec fn render_row_spec(r: RowModel) -> Seq<char> {
    crate::text::join_ws(row_tokens(r))
}

/// A free-text token that can stand in a rendered line: free of whitespace
/// and of colons (a colon could make the line look like a log preamble).
pub open spec fn token_clean(t: Seq<char>) -> bool {
    forall|m: int| 0 <= m < t.len() ==> !is_space_char(#[trigger] t[m]) && t[m] != ':'
}

/// A row whose rendered line survives the round trip: its free-text fields
/// are clean tokens (the data type nonempty; the op may be empty) and its
/// measurement fields have the float-token shape.
pub open spec fn renderable(r: RowModel) -> bool {
    &&& r.dtype.len() > 0
    &&& token_clean(r.dtype)
    &&& token_clean(r.redop)
    &&& is_float_token(r.oop_time)
    &&& is_float_token(r.oop_alg_bw)
    &&& is_float_token(r.oop_bus_bw)
    &&& is_float_token(r.ip_time)
    &&& is_float_token(r.ip_alg_bw)
    &&& is_float_token(r.ip_bus_bw)
}

/// The row as the classifier returns it: an empty reduction op normalized to
/// the sentinel, everything else unchanged.
pub open spec fn normalize_row(r: RowModel) -> RowModel {
    RowModel { redop: redop_spec(r.redop), ..r }
}

/// Builds the synthetic 13-token line for a row.
pub fn render_row(row: &Row) -> (line: String)
    ensures
        line@ == render_row_spec(row@),
{
    let mut toks: Vec<String> = Vec::new();
    toks.push(crate::text::u64_to_string(row.size));
    toks.push(crate::text::u64_to_string(row.count));
    toks.push(row.dtype.clone());
    toks.push(
        if row.redop.as_str().is_empty() {
            String::from_str("N/A")
        } else {
            row.redop.clone()
        },
    );
    toks.push(crate::text::i64_to_string(row.root));
    toks.push(row.oop_time.clone());
    toks.push(row.oop_alg_bw.clone());
    toks.push(row.oop_bus_bw.clone());
    toks.push(error_count_to_string(&row.oop_num_wrong));
    toks.push(row.ip_time.clone());
    toks.push(row.ip_alg_bw.clone());
    toks.push(row.ip_bus_bw.clone());
    toks.push(error_count_to_string(&row.ip_num_wrong));
    let line = crate::text::join_tokens(&toks);
    proof {
        assert(views_of(toks@) =~= row_tokens(row@));
    }
    line
}

/// Where the first `e`/`E` is found, the characters before it differ from
/// both, and the found character is one of them.
proof fn lemma_find_from_found(s: Seq<char>, i: int, c1: char, c2: char)
    requires
        0 <= i <= s.len(),
    ensures
        match find_from(s, i, c1, c2) {
            Some(j) => i <= j < s.len() && (s[j] == c1 || s[j] == c2) && forall|m: int|
                i <= m < j ==> #[trigger] s[m] != c1 && s[m] != c2,
            None => forall|m: int| i <= m < s.len() ==> #[trigger] s[m] != c1 && s[m] != c2,
        },
    decreases s.len() - i,
{
    if i < s.len() && !(s[i] == c1 || s[i] == c2) {
        lemma_find_from_found(s, i + 1, c1, c2);
    }
}

/// Every character of a mantissa is a digit or the decimal point.
proof fn lemma_mantissa_chars(m: Seq<char>)
    requires
        is_mantissa(m),
    ensures
        m.len() > 0,
        forall|j: int|
            0 <= j < m.len() ==> crate::text::is_dec_digit(#[trigger] m[j]) || m[j] == '.',
{
    lemma_find_from_found(m, 0, '.', '.');
    match find_from(m, 0, '.', '.') {
        None => {
        }
        Some(i) => {
            let before = m.subrange(0, i);
            let after = m.subrange(i + 1, m.len() as int);
            assert forall|j: int|
                0 <= j < m.len() implies crate::text::is_dec_digit(#[trigger] m[j]) || m[j]
                == '.' by {
                if j < i {
                    assert(m[j] == before[j]);
                } else if j > i {
                    assert(m[j] == after[j - i - 1]);
                }
            }
        }
    }
}

/// A float-shaped token is nonempty and free of whitespace and colons.
pub proof fn lemma_float_token_clean(s: Seq<char>)
    requires
        is_float_token(s),
    ensures
        s.len() > 0,
        token_clean(s),
{
    let b = strip_sign(s);
    assert('+' as int == 43 && '-' as int == 45 && '.' as int == 46 && ':' as int == 58);
    assert('e' as int == 101 && 'E' as int == 69);
    lemma_find_from_found(b, 0, 'e', 'E');
    assert forall|j: int|
        0 <= j < b.len() implies !is_space_char(#[trigger] b[j]) && b[j] != ':' by {
        match find_from(b, 0, 'e', 'E') {
            None => {
                lemma_mantissa_chars(b);
                if crate::text::is_dec_digit(b[j]) {
                    crate::text::lemma_digit_char_class(b[j]);
                }
            }
            Some(ei) => {
                let mant = b.subrange(0, ei);
                let x = b.subrange(ei + 1, b.len() as int);
                if j < ei {
                    lemma_mantissa_chars(mant);
                    assert(b[j] == mant[j]);
                    if crate::text::is_dec_digit(b[j]) {
                        crate::text::lemma_digit_char_class(b[j]);
                    }
                } else if j == ei {
                } else {
                    let bx = strip_sign(x);
                    assert(b[j] == x[j - ei - 1]);
                    if x.len() > 0 && (x[0] == '+' || x[0] == '-') && j == ei + 1 {
                    } else {
                        let off = if x.len() > 0 && (x[0] == '+' || x[0] == '-') {
                            1int
                        } else {
                            0int
                        };
                        assert(x[j - ei - 1] == bx[j - ei - 1 - off]);
                        assert(crate::text::is_dec_digit(bx[j - ei - 1 - off]));
                        crate::text::lemma_digit_char_class(b[j]);
                    }
                }
            }
        }
    }
    match find_from(b, 0, 'e', 'E') {
        None => {
            lemma_mantissa_chars(b);
        }
        Some(ei) => {
            assert(b.len() > 0);
        }
    }
    if s.len() > 0 && (s[0] == '+' || s[0] == '-') {
        assert forall|j: int|
            0 <= j < s.len() implies !is_space_char(#[trigger] s[j]) && s[j] != ':' by {
            if j > 0 {
                assert(s[j] == b[j - 1]);
            }
        }
    } else {
        assert(s =~= b);
    }
}

/// An error-count token is nonempty and clean, and decodes back to the
/// count it renders.
proof fn lemma_errcount_round(e: ErrorCount)
    ensures
        errcount_str(e).len() > 0,
        token_clean(errcount_str(e)),
        errcount_spec(errcount_str(e)) == Some(e),
{
    reveal_strlit("N/A");
    assert('N' as int == 78 && '/' as int == 47 && 'A' as int == 65);
    match e {
        ErrorCount::Numeric(v) => {
            crate::text::lemma_digits_token_clean(v as nat);
            crate::text::lemma_u64_digits_wf(v as nat);
            let tok = crate::text::u64_digits(v as nat);
            if tok == "N/A"@ {
                assert(tok[0] == 'N');
                assert(crate::text::is_dec_digit(tok[0]));
                assert(false);
            }
            crate::text::lemma_parse_u64_digits(v);
        }
        ErrorCount::NotApplicable => {
            assert forall|m: int|
                0 <= m < "N/A"@.len() implies !is_space_char(#[trigger] "N/A"@[m]) && "N/A"@[m]
                != ':' by {
            }
        }
    }
}

/// Round trip: the synthetic 13-token line built from a renderable row,
/// when reclassified, yields an equal row, except that an originally empty
/// reduction-op token normalizes to the sentinel.
pub proof fn lemma_round_trip(r: RowModel)
    requires
        renderable(r),
    ensures
        classify_spec(render_row_spec(r)) == ClassificationModel::DataRow(normalize_row(r)),
{
    let ts = row_tokens(r);
    let line = render_row_spec(r);
    reveal_strlit("N/A");
    assert('N' as int == 78 && '/' as int == 47 && 'A' as int == 65 && ':' as int == 58);
    crate::text::lemma_digits_token_clean(r.size as nat);
    crate::text::lemma_digits_token_clean(r.count as nat);
    crate::text::lemma_i64_digits_token_clean(r.root as int);
    lemma_errcount_round(r.oop_num_wrong);
    lemma_errcount_round(r.ip_num_wrong);
    lemma_float_token_clean(r.oop_time);
    lemma_float_token_clean(r.oop_alg_bw);
    lemma_float_token_clean(r.oop_bus_bw);
    lemma_float_token_clean(r.ip_time);
    lemma_float_token_clean(r.ip_alg_bw);
    lemma_float_token_clean(r.ip_bus_bw);
    assert(redop_token(r.redop).len() > 0 && token_clean(redop_token(r.redop))) by {
        if r.redop.len() == 0 {
            assert forall|m: int|
                0 <= m < "N/A"@.len() implies !is_space_char(#[trigger] "N/A"@[m]) && "N/A"@[m]
                != ':' by {
            }
        }
    }
    assert(crate::text::ws_free_tokens(ts)) by {
        assert forall|k: int| 0 <= k < ts.len() implies {
            let tk = #[trigger] ts[k];
            tk.len() > 0 && forall|m: int| 0 <= m < tk.len() ==> !is_space_char(#[trigger] tk[m])
        } by {
            assert(token_clean(ts[k]) && ts[k].len() > 0) by {
                if k == 0 {
                } else if k == 1 {
                } else if k == 2 {
                } else if k == 3 {
                } else if k == 4 {
                } else if k == 5 {
                } else if k == 6 {
                } else if k == 7 {
                } else if k == 8 {
                } else if k == 9 {
                } else if k == 10 {
                } else if k == 11 {
                } else {
                }
            }
        }
    }
    crate::text::lemma_split_join(ts);
    assert(crate::text::split_ws(line) == ts);
    assert(forall|k: int, m: int|
        0 <= k < ts.len() && 0 <= m < ts[k].len() ==> #[trigger] ts[k][m] != ':') by {
        assert forall|k: int, m: int|
            0 <= k < ts.len() && 0 <= m < ts[k].len() implies #[trigger] ts[k][m] != ':' by {
            assert(token_clean(ts[k]));
        }
    }
    assert(' ' as int == 32);
    crate::text::lemma_join_char_free(ts, ':');
    lemma_no_colon_no_preamble(line);
    crate::text::lemma_parse_u64_digits(r.size);
    crate::text::lemma_parse_u64_digits(r.count);
    crate::text::lemma_parse_i64_digits(r.root);
    assert(first_bad_field(ts) is None);
    assert(decode_row_spec(ts).unwrap() =~= normalize_row(r));
    assert(classify_spec(line) == ClassificationModel::DataRow(normalize_row(r)));
}

} // verus!
