//! Character and string helpers shared by the views.

use vstd::prelude::*;
use vstd::utf8::encode_utf8;

verus! {

/// The decimal digit character for `d < 10`.
pub open spec fn digit_char(d: nat) -> char {
    if d == 0 { '0' } else if d == 1 { '1' } else if d == 2 { '2' } else if d == 3 { '3' }
    else if d == 4 { '4' } else if d == 5 { '5' } else if d == 6 { '6' } else if d == 7 { '7' }
    else if d == 8 { '8' } else { '9' }
}

/// The decimal text of `n`, without sign or leading zeros.
pub open spec fn decimal(n: nat) -> Seq<char>
    decreases n,
{
    if n < 10 {
        seq![digit_char(n)]
    } else {
        decimal(n / 10).push(digit_char(n % 10))
    }
}

fn digit_to_char(d: u128) -> (c: char)
    requires
        d < 10,
    ensures
        c == digit_char(d as nat),
{
    if d == 0 { '0' } else if d == 1 { '1' } else if d == 2 { '2' } else if d == 3 { '3' }
    else if d == 4 { '4' } else if d == 5 { '5' } else if d == 6 { '6' } else if d == 7 { '7' }
    else if d == 8 { '8' } else { '9' }
}

/// Appends the decimal text of `n` to `out`.
pub fn push_decimal(out: &mut Vec<char>, n: u128)
    ensures
        final(out)@ == old(out)@ + decimal(n as nat),
    decreases n,
{
    if n < 10 {
        out.push(digit_to_char(n));
        assert(decimal(n as nat) == seq![digit_char(n as nat)]);
    } else {
        push_decimal(out, n / 10);
        out.push(digit_to_char(n % 10));
        assert(old(out)@ + decimal((n / 10) as nat) + seq![digit_char((n % 10) as nat)]
            =~= old(out)@ + decimal(n as nat));
    }
}


/// Whether `c` has the Unicode `White_Space` property, which holds for
/// exactly these code points: U+0009 to U+000D, U+0020, U+0085, U+00A0,
/// U+1680, U+2000 to U+200A, U+2028, U+2029, U+202F, U+205F and U+3000.
pub open spec fn is_unicode_whitespace(c: char) -> bool {
    ||| '\u{9}' <= c <= '\u{d}'
    ||| c == ' '
    ||| c == '\u{85}'
    ||| c == '\u{a0}'
    ||| c == '\u{1680}'
    ||| '\u{2000}' <= c <= '\u{200a}'
    ||| c == '\u{2028}'
    ||| c == '\u{2029}'
    ||| c == '\u{202f}'
    ||| c == '\u{205f}'
    ||| c == '\u{3000}'
}

/// Whether `c` is an ASCII letter or digit.
pub open spec fn is_ascii_alphanumeric(c: char) -> bool {
    ('a' <= c <= 'z') || ('A' <= c <= 'Z') || ('0' <= c <= '9')
}

/// Whether `c`, a character above ASCII and not white space, has Unicode's
/// `Alphabetic` property or a numeric general category.
pub uninterp spec fn non_ascii_alphanumeric(c: char) -> bool;

/// `char::is_alphanumeric`: `Alphabetic` or numeric in Unicode's sense.
/// Within ASCII these are exactly the letters and digits; no white-space
/// character is one; above ASCII the set is named, not spelled out.
pub open spec fn is_unicode_alphanumeric(c: char) -> bool {
    if c <= '\u{7f}' {
        is_ascii_alphanumeric(c)
    } else if is_unicode_whitespace(c) {
        false
    } else {
        non_ascii_alphanumeric(c)
    }
}

/// `char::is_whitespace`: the `White_Space` property, spelled out above.
pub(crate) fn char_is_whitespace(c: char) -> (r: bool)
    ensures
        r == is_unicode_whitespace(c),
{
    ('\u{9}' <= c && c <= '\u{d}') || c == ' ' || c == '\u{85}' || c == '\u{a0}' || c == '\u{1680}'
        || ('\u{2000}' <= c && c <= '\u{200a}') || c == '\u{2028}' || c == '\u{2029}' || c == '\u{202f}'
        || c == '\u{205f}' || c == '\u{3000}'
}

/// `char::is_alphanumeric`, which is `is_alphabetic() || is_numeric()`.
/// Its source decides ASCII itself (`'a'..='z' | 'A'..='Z'` and
/// `'0'..='9'`, nothing else below U+0080) and looks above ASCII up in the
/// Unicode tables, where no `White_Space` character (categories Zs, Zl,
/// Zp and Cc) is alphabetic or numeric. The contract states that and
/// names the rest.
#[verifier::external_body]
pub(crate) fn char_is_alphanumeric(c: char) -> (r: bool)
    ensures
        r == (if c <= '\u{7f}' {
            is_ascii_alphanumeric(c)
        } else if is_unicode_whitespace(c) {
            false
        } else {
            non_ascii_alphanumeric(c)
        }),
{
    c.is_alphanumeric()
}

/// The characters of `s`, in order.
pub(crate) fn chars_of(s: &str) -> (r: Vec<char>)
    ensures
        r@ == s@,
{
    broadcast use vstd::string::axiom_spec_iter;
    let mut r: Vec<char> = Vec::new();
    for c in it: s.chars()
        invariant
            it.seq() == s@,
            r@ == s@.take(it.index() as int),
    {
        r.push(c);
        assert(s@.take(it.index() + 1) =~= r@);
    }
    assert(s@.take(s@.len() as int) =~= s@);
    r
}

/// `String: FromIterator<char>`: the string made of the given characters.
#[verifier::external_body]
pub(crate) fn string_of(v: &[char]) -> (r: String)
    ensures
        r@ == v@,
{
    v.iter().collect()
}

/// Whether `a` and `b` hold the same characters.
pub(crate) fn str_eq(a: &str, b: &str) -> (r: bool)
    ensures
        r == (a@ == b@),
{
    let x = chars_of(a);
    let y = chars_of(b);
    if x.len() != y.len() {
        return false;
    }
    let mut k: usize = 0;
    while k < x.len()
        invariant
            k <= x.len(),
            x.len() == y.len(),
            x@ == a@,
            y@ == b@,
            forall|j: int| 0 <= j < k ==> x@[j] == y@[j],
        decreases x.len() - k,
    {
        if x[k] != y[k] {
            return false;
        }
        k = k + 1;
    }
    assert(a@ =~= b@);
    true
}

/// Drops the leading characters that satisfy `p`.
pub open spec fn trim_start_by(s: Seq<char>, p: spec_fn(char) -> bool) -> Seq<char>
    decreases s.len(),
{
    if s.len() > 0 && p(s[0]) {
        trim_start_by(s.drop_first(), p)
    } else {
        s
    }
}

/// Drops the trailing characters that satisfy `p`.
pub open spec fn trim_end_by(s: Seq<char>, p: spec_fn(char) -> bool) -> Seq<char>
    decreases s.len(),
{
    if s.len() > 0 && p(s.last()) {
        trim_end_by(s.drop_last(), p)
    } else {
        s
    }
}

/// Drops the leading and the trailing characters that satisfy `p`.
pub open spec fn trim_by(s: Seq<char>, p: spec_fn(char) -> bool) -> Seq<char> {
    trim_start_by(trim_end_by(s, p), p)
}

pub open spec fn whitespace_pred() -> spec_fn(char) -> bool {
    |c: char| is_unicode_whitespace(c)
}

pub open spec fn dash_pred() -> spec_fn(char) -> bool {
    |c: char| c == '-'
}

proof fn lemma_trim_start_skip(s: Seq<char>, p: spec_fn(char) -> bool, i: int, j: int)
    requires
        0 <= i < j <= s.len(),
        p(s[i]),
    ensures
        trim_start_by(s.subrange(i, j), p) == trim_start_by(s.subrange(i + 1, j), p),
{
    assert(s.subrange(i, j).drop_first() =~= s.subrange(i + 1, j));
}

proof fn lemma_trim_end_skip(s: Seq<char>, p: spec_fn(char) -> bool, j: int)
    requires
        0 < j <= s.len(),
        p(s[j - 1]),
    ensures
        trim_end_by(s.take(j), p) == trim_end_by(s.take(j - 1), p),
{
    assert(s.take(j).drop_last() =~= s.take(j - 1));
}

/// The bounds `(i, j)` such that `s[i..j]` is `s` with the leading and
/// trailing whitespace dropped.
fn trim_bounds_whitespace(s: &Vec<char>) -> (r: (usize, usize))
    ensures
        r.0 <= r.1 <= s.len(),
        s@.subrange(r.0 as int, r.1 as int) == trim_by(s@, whitespace_pred()),
{
    let mut j = s.len();
    assert(s@.take(j as int) =~= s@);
    while j > 0 && char_is_whitespace(s[j - 1])
        invariant
            j <= s.len(),
            trim_end_by(s@, whitespace_pred()) == trim_end_by(s@.take(j as int), whitespace_pred()),
        decreases j,
    {
        proof { lemma_trim_end_skip(s@, whitespace_pred(), j as int); }
        j = j - 1;
    }
    assert(trim_end_by(s@.take(j as int), whitespace_pred()) == s@.take(j as int));
    let mut i: usize = 0;
    assert(s@.subrange(0, j as int) =~= s@.take(j as int));
    while i < j && char_is_whitespace(s[i])
        invariant
            i <= j <= s.len(),
            trim_by(s@, whitespace_pred()) == trim_start_by(s@.subrange(i as int, j as int), whitespace_pred()),
        decreases j - i,
    {
        proof { lemma_trim_start_skip(s@, whitespace_pred(), i as int, j as int); }
        i = i + 1;
    }
    (i, j)
}

/// The bounds `(i, j)` such that `s[i..j]` is `s` with the leading and
/// trailing `-` dropped.
fn trim_bounds_dash(s: &Vec<char>) -> (r: (usize, usize))
    ensures
        r.0 <= r.1 <= s.len(),
        s@.subrange(r.0 as int, r.1 as int) == trim_by(s@, dash_pred()),
{
    let mut j = s.len();
    assert(s@.take(j as int) =~= s@);
    while j > 0 && s[j - 1] == '-'
        invariant
            j <= s.len(),
            trim_end_by(s@, dash_pred()) == trim_end_by(s@.take(j as int), dash_pred()),
        decreases j,
    {
        proof { lemma_trim_end_skip(s@, dash_pred(), j as int); }
        j = j - 1;
    }
    assert(trim_end_by(s@.take(j as int), dash_pred()) == s@.take(j as int));
    let mut i: usize = 0;
    assert(s@.subrange(0, j as int) =~= s@.take(j as int));
    while i < j && s[i] == '-'
        invariant
            i <= j <= s.len(),
            trim_by(s@, dash_pred()) == trim_start_by(s@.subrange(i as int, j as int), dash_pred()),
        decreases j - i,
    {
        proof { lemma_trim_start_skip(s@, dash_pred(), i as int, j as int); }
        i = i + 1;
    }
    (i, j)
}

/// The characters `s[i..j]` as a new vector.
pub(crate) fn slice_chars(s: &Vec<char>, i: usize, j: usize) -> (r: Vec<char>)
    requires
        i <= j <= s.len(),
    ensures
        r@ == s@.subrange(i as int, j as int),
{
    let mut r: Vec<char> = Vec::new();
    let mut k = i;
    while k < j
        invariant
            i <= k <= j <= s.len(),
            r@ == s@.subrange(i as int, k as int),
        decreases j - k,
    {
        r.push(s[k]);
        assert(s@.subrange(i as int, k + 1) =~= s@.subrange(i as int, k as int).push(s@[k as int]));
        k = k + 1;
    }
    r
}

/// `str::trim`: `s` without its leading and trailing whitespace.
pub fn trim_whitespace(s: &str) -> (r: String)
    ensures
        r@ == trim_by(s@, whitespace_pred()),
{
    let v = chars_of(s);
    let (i, j) = trim_bounds_whitespace(&v);
    let t = slice_chars(&v, i, j);
    string_of(t.as_slice())
}


/// Runs of whitespace in `s` replaced by one space each, paired with whether
/// `s` ends inside such a run.
pub open spec fn collapse_runs(s: Seq<char>) -> (Seq<char>, bool)
    decreases s.len(),
{
    if s.len() == 0 {
        (Seq::empty(), false)
    } else {
        let (r, in_space) = collapse_runs(s.drop_last());
        let c = s.last();
        if is_unicode_whitespace(c) {
            if in_space { (r, true) } else { (r.push(' '), true) }
        } else {
            (r.push(c), false)
        }
    }
}

/// A one-line rendering of `s`: every run of whitespace (newlines included)
/// becomes one space, and the ends are trimmed.
pub open spec fn single_line(s: Seq<char>) -> Seq<char> {
    trim_by(collapse_runs(s).0, whitespace_pred())
}

/// `s` on one line: whitespace runs collapsed to a space, ends trimmed.
pub fn to_single_line(s: &str) -> (r: String)
    ensures
        r@ == single_line(s@),
{
    let v = chars_of(s);
    let mut out: Vec<char> = Vec::new();
    let mut in_space = false;
    let mut k: usize = 0;
    while k < v.len()
        invariant
            k <= v.len(),
            (out@, in_space) == collapse_runs(v@.take(k as int)),
        decreases v.len() - k,
    {
        let ch = v[k];
        assert(v@.take(k + 1).drop_last() =~= v@.take(k as int));
        if char_is_whitespace(ch) && !in_space {
            out.push(' ');
            in_space = true;
        } else if !char_is_whitespace(ch) {
            out.push(ch);
            in_space = false;
        }
        k = k + 1;
    }
    assert(v@.take(v.len() as int) =~= v@);
    let (i, j) = trim_bounds_whitespace(&out);
    let t = slice_chars(&out, i, j);
    string_of(t.as_slice())
}

/// The character a prompt title contributes before filtering: whitespace and
/// `_` become `-`.
pub open spec fn filename_char(c: char) -> char {
    if is_unicode_whitespace(c) || c == '_' { '-' } else { c }
}

/// Whether a mapped character is kept in a file name.
pub open spec fn filename_keeps(c: char) -> bool {
    is_unicode_alphanumeric(c) || c == '-'
}

/// The title mapped through `filename_char` and filtered by `filename_keeps`.
pub open spec fn filename_chars(s: Seq<char>) -> Seq<char>
    decreases s.len(),
{
    if s.len() == 0 {
        Seq::empty()
    } else {
        let r = filename_chars(s.drop_last());
        let c = filename_char(s.last());
        if filename_keeps(c) { r.push(c) } else { r }
    }
}

/// `s` with each run of consecutive `-` reduced to one.
pub open spec fn collapse_dashes(s: Seq<char>) -> Seq<char>
    decreases s.len(),
{
    if s.len() == 0 {
        Seq::empty()
    } else {
        let r = collapse_dashes(s.drop_last());
        if s.last() == '-' && r.len() > 0 && r.last() == '-' { r } else { r.push(s.last()) }
    }
}

/// The file stem for a prompt titled `title`; `prompt` when nothing is left.
pub open spec fn prompt_file_stem(title: Seq<char>) -> Seq<char> {
    let t = trim_by(collapse_dashes(filename_chars(title)), dash_pred());
    if t.len() == 0 { "prompt"@ } else { t }
}

/// A file-system friendly stem for a prompt title: whitespace and `_` turn
/// into `-`, other characters than letters, digits and `-` are dropped,
/// repeated `-` collapse, and `-` is trimmed from both ends.
///
/// The stem is never empty, holds only letters, digits and `-`, has no
/// `-` at either end nor two in a row, and sanitizing it again gives it
/// back unchanged.
pub fn sanitize_prompt_filename(title: &str) -> (r: String)
    ensures
        r@ == prompt_file_stem(title@),
        clean_file_stem(r@),
        file_stem_chars(r@),
        prompt_file_stem(r@) == r@,
{
    proof {
        lemma_prompt_file_stem_idempotent(title@);
    }
    let v = chars_of(title);
    let mut mapped: Vec<char> = Vec::new();
    let mut k: usize = 0;
    while k < v.len()
        invariant
            k <= v.len(),
            mapped@ == filename_chars(v@.take(k as int)),
        decreases v.len() - k,
    {
        let ch = v[k];
        assert(v@.take(k + 1).drop_last() =~= v@.take(k as int));
        let c = if char_is_whitespace(ch) || ch == '_' { '-' } else { ch };
        if char_is_alphanumeric(c) || c == '-' {
            mapped.push(c);
        }
        k = k + 1;
    }
    assert(v@.take(v.len() as int) =~= v@);
    let mut collapsed: Vec<char> = Vec::new();
    let mut m: usize = 0;
    while m < mapped.len()
        invariant
            m <= mapped.len(),
            collapsed@ == collapse_dashes(mapped@.take(m as int)),
        decreases mapped.len() - m,
    {
        let c = mapped[m];
        assert(mapped@.take(m + 1).drop_last() =~= mapped@.take(m as int));
        let n = collapsed.len();
        if !(c == '-' && n > 0 && collapsed[n - 1] == '-') {
            collapsed.push(c);
        }
        m = m + 1;
    }
    assert(mapped@.take(mapped.len() as int) =~= mapped@);
    let (i, j) = trim_bounds_dash(&collapsed);
    if i == j {
        "prompt".to_owned()
    } else {
        let t = slice_chars(&collapsed, i, j);
        string_of(t.as_slice())
    }
}


pub open spec fn is_digit(c: char) -> bool {
    '0' <= c <= '9'
}

/// The value of a digit character.
pub open spec fn digit_value(c: char) -> nat {
    (c as u32 - '0' as u32) as nat
}

/// Whether every character of `s` is a decimal digit.
pub open spec fn all_digits(s: Seq<char>) -> bool {
    forall|i: int| 0 <= i < s.len() ==> is_digit(#[trigger] s[i])
}

/// The number written by the digits `s`.
pub open spec fn digits_value(s: Seq<char>) -> nat
    decreases s.len(),
{
    if s.len() == 0 {
        0
    } else {
        digits_value(s.drop_last()) * 10 + digit_value(s.last())
    }
}

/// The number that `u64::from_str` reads from `s`: an optional `+`, then
/// one or more decimal digits, of a value that fits.
pub open spec fn unsigned_value(s: Seq<char>, max: nat) -> Option<nat> {
    let body = if s.len() > 0 && s[0] == '+' { s.drop_first() } else { s };
    if body.len() > 0 && all_digits(body) && digits_value(body) <= max {
        Some(digits_value(body))
    } else {
        None
    }
}

proof fn lemma_digits_value_prefix(s: Seq<char>, i: int, j: int)
    requires
        0 <= i <= j <= s.len(),
        all_digits(s),
    ensures
        digits_value(s.take(i)) <= digits_value(s.take(j)),
    decreases j - i,
{
    if i < j {
        lemma_digits_value_prefix(s, i, j - 1);
        assert(s.take(j).drop_last() =~= s.take(j - 1));
    }
}

/// Reads an unsigned number the way `str::parse::<u64>` does: an optional
/// `+`, then decimal digits; none when a character is not a digit, the text
/// is empty, or the value exceeds `u64::MAX`.
pub fn parse_u64(s: &str) -> (r: Option<u64>)
    ensures
        match r {
            Some(v) => unsigned_value(s@, u64::MAX as nat) == Some(v as nat),
            None => unsigned_value(s@, u64::MAX as nat) is None,
        },
{
    let v = chars_of(s);
    let start: usize = if v.len() > 0 && v[0] == '+' { 1 } else { 0 };
    let ghost body = if v@.len() > 0 && v@[0] == '+' { v@.drop_first() } else { v@ };
    assert(body =~= v@.subrange(start as int, v@.len() as int));
    if start == v.len() {
        return None;
    }
    let mut acc: u64 = 0;
    let mut k = start;
    while k < v.len()
        invariant
            start <= k <= v.len(),
            v@ == s@,
            body == (if s@.len() > 0 && s@[0] == '+' { s@.drop_first() } else { s@ }),
            body =~= v@.subrange(start as int, v@.len() as int),
            all_digits(body.take(k - start)),
            acc as nat == digits_value(body.take(k - start)),
        decreases v.len() - k,
    {
        let c = v[k];
        if !('0' <= c && c <= '9') {
            proof {
                assert(body[k - start] == c);
                assert(!is_digit(body[k - start]));
                assert(!all_digits(body));
            }
            return None;
        }
        let d = (c as u32 - '0' as u32) as u64;
        proof {
            assert(body.take(k - start + 1).drop_last() =~= body.take(k - start));
            assert(body.take(k - start + 1).last() == c);
            assert(all_digits(body.take(k - start + 1)));
        }
        if acc > (u64::MAX - d) / 10 {
            proof {
                assert(digits_value(body.take(k - start + 1)) == acc * 10 + d);
                assert(acc * 10 + d > u64::MAX) by (nonlinear_arith)
                    requires acc > (u64::MAX - d) / 10, d <= 9;
                if all_digits(body) {
                    lemma_digits_value_prefix(body, k - start + 1, body.len() as int);
                    assert(body.take(body.len() as int) =~= body);
                    assert(digits_value(body) > u64::MAX);
                }
            }
            return None;
        }
        proof {
            assert(acc * 10 + d <= u64::MAX) by (nonlinear_arith)
                requires acc <= (u64::MAX - d) / 10, d <= 9;
        }
        acc = acc * 10 + d;
        k = k + 1;
    }
    assert(body.take(body.len() as int) =~= body);
    Some(acc)
}


/// Lexicographic order of byte strings: the first differing byte decides,
/// and a proper prefix comes first.
pub open spec fn bytes_lt(a: Seq<u8>, b: Seq<u8>) -> bool
    decreases a.len(),
{
    if a.len() == 0 {
        b.len() > 0
    } else if b.len() == 0 {
        false
    } else if a[0] != b[0] {
        a[0] < b[0]
    } else {
        bytes_lt(a.drop_first(), b.drop_first())
    }
}

proof fn lemma_bytes_lt_skip(a: Seq<u8>, b: Seq<u8>, i: int)
    requires
        0 <= i <= a.len(),
        i <= b.len(),
        forall|j: int| 0 <= j < i ==> a[j] == b[j],
    ensures
        bytes_lt(a, b) == bytes_lt(a.subrange(i, a.len() as int), b.subrange(i, b.len() as int)),
    decreases i,
{
    if i > 0 {
        assert(a[0] == b[0]);
        lemma_bytes_lt_skip(a.drop_first(), b.drop_first(), i - 1);
        assert(a.drop_first().subrange(i - 1, a.len() - 1) =~= a.subrange(i, a.len() as int));
        assert(b.drop_first().subrange(i - 1, b.len() - 1) =~= b.subrange(i, b.len() as int));
    } else {
        assert(a.subrange(0, a.len() as int) =~= a);
        assert(b.subrange(0, b.len() as int) =~= b);
    }
}

/// Whether `a` sorts before `b`, as `str < str` orders them: by their
/// UTF-8 bytes, the first difference deciding and a prefix first.
pub(crate) fn str_less(a: &str, b: &str) -> (r: bool)
    ensures
        r == bytes_lt(encode_utf8(a@), encode_utf8(b@)),
{
    let x = a.as_bytes();
    let y = b.as_bytes();
    let mut i: usize = 0;
    while i < x.len() && i < y.len() && x[i] == y[i]
        invariant
            i <= x@.len(),
            i <= y@.len(),
            forall|j: int| 0 <= j < i ==> x@[j] == y@[j],
        decreases x.len() - i,
    {
        i = i + 1;
    }
    proof {
        lemma_bytes_lt_skip(x@, y@, i as int);
    }
    if i == x.len() {
        i < y.len()
    } else if i == y.len() {
        false
    } else {
        proof {
            assert(x@.subrange(i as int, x@.len() as int)[0] == x@[i as int]);
            assert(y@.subrange(i as int, y@.len() as int)[0] == y@[i as int]);
        }
        x[i] < y[i]
    }
}

/// No byte string comes before itself, and two never come before each other.
pub proof fn lemma_bytes_lt_asymmetric(a: Seq<u8>, b: Seq<u8>)
    ensures
        !(bytes_lt(a, b) && bytes_lt(b, a)),
    decreases a.len(),
{
    if a.len() > 0 && b.len() > 0 && a[0] == b[0] {
        lemma_bytes_lt_asymmetric(a.drop_first(), b.drop_first());
    }
}

/// The order of byte strings is transitive.
pub proof fn lemma_bytes_lt_transitive(a: Seq<u8>, b: Seq<u8>, c: Seq<u8>)
    requires
        bytes_lt(a, b),
        bytes_lt(b, c),
    ensures
        bytes_lt(a, c),
    decreases a.len(),
{
    if a.len() > 0 && b.len() > 0 && c.len() > 0 && a[0] == b[0] && b[0] == c[0] {
        lemma_bytes_lt_transitive(a.drop_first(), b.drop_first(), c.drop_first());
    }
}


/// Appends the characters of `s` to `out`.
pub fn push_str(out: &mut Vec<char>, s: &str)
    ensures
        final(out)@ == old(out)@ + s@,
{
    let cs = chars_of(s);
    let mut k: usize = 0;
    while k < cs.len()
        invariant
            k <= cs.len(),
            cs@ == s@,
            out@ == old(out)@ + s@.take(k as int),
        decreases cs.len() - k,
    {
        out.push(cs[k]);
        assert(s@.take(k + 1) =~= s@.take(k as int).push(s@[k as int]));
        k = k + 1;
    }
    assert(s@.take(cs.len() as int) =~= s@);
}

/// Whether `s` begins with `p`.
pub open spec fn has_prefix(s: Seq<char>, p: Seq<char>) -> bool {
    p.len() <= s.len() && s.subrange(0, p.len() as int) == p
}

/// Whether `s` ends with `p`.
pub open spec fn has_suffix(s: Seq<char>, p: Seq<char>) -> bool {
    p.len() <= s.len() && s.subrange(s.len() - p.len(), s.len() as int) == p
}

/// Whether `p` occurs in `s` at position `i`.
pub open spec fn occurs_at(s: Seq<char>, p: Seq<char>, i: int) -> bool {
    0 <= i && i + p.len() <= s.len() && s.subrange(i, i + p.len()) == p
}

/// Whether `p` occurs somewhere in `s`.
pub open spec fn has_infix(s: Seq<char>, p: Seq<char>) -> bool {
    exists|i: int| occurs_at(s, p, i)
}

fn matches_at(s: &Vec<char>, p: &Vec<char>, i: usize) -> (r: bool)
    requires
        i + p@.len() <= s@.len(),
    ensures
        r == (s@.subrange(i as int, i + p@.len()) == p@),
{
    let mut k: usize = 0;
    while k < p.len()
        invariant
            k <= p.len(),
            i + p.len() <= s.len(),
            forall|j: int| 0 <= j < k ==> s@[i + j] == p@[j],
        decreases p.len() - k,
    {
        if s[i + k] != p[k] {
            assert(s@.subrange(i as int, i + p@.len())[k as int] != p@[k as int]);
            return false;
        }
        k = k + 1;
    }
    assert(s@.subrange(i as int, i + p@.len()) =~= p@);
    true
}

/// `str::starts_with`.
pub fn text_starts_with(s: &str, p: &str) -> (r: bool)
    ensures
        r == has_prefix(s@, p@),
{
    let sv = chars_of(s);
    let pv = chars_of(p);
    if pv.len() > sv.len() {
        return false;
    }
    matches_at(&sv, &pv, 0)
}

/// `str::ends_with`.
pub fn text_ends_with(s: &str, p: &str) -> (r: bool)
    ensures
        r == has_suffix(s@, p@),
{
    let sv = chars_of(s);
    let pv = chars_of(p);
    if pv.len() > sv.len() {
        return false;
    }
    matches_at(&sv, &pv, sv.len() - pv.len())
}

/// `str::contains` with a text pattern.
pub fn text_contains(s: &str, p: &str) -> (r: bool)
    ensures
        r == has_infix(s@, p@),
{
    let sv = chars_of(s);
    let pv = chars_of(p);
    if pv.len() > sv.len() {
        proof {
            assert forall|i: int| !occurs_at(s@, p@, i) by {}
        }
        return false;
    }
    if pv.len() == 0 {
        assert(s@.subrange(0, 0) =~= p@);
        assert(occurs_at(s@, p@, 0));
        return true;
    }
    let last: usize = sv.len() - pv.len();
    let mut i: usize = 0;
    while i <= last
        invariant
            sv@ == s@,
            pv@ == p@,
            last + pv.len() == sv.len(),
            pv.len() >= 1,
            i <= last + 1,
            forall|j: int| 0 <= j < i ==> !occurs_at(s@, p@, j),
        decreases last + 1 - i,
    {
        if matches_at(&sv, &pv, i) {
            assert(occurs_at(s@, p@, i as int));
            return true;
        }
        i = i + 1;
    }
    proof {
        assert forall|j: int| !occurs_at(s@, p@, j) by {
            if 0 <= j < i {
            }
        }
    }
    false
}

/// The texts of a result with text on both sides.
pub open spec fn text_result(r: Result<String, String>) -> Result<Seq<char>, Seq<char>> {
    match r {
        Ok(s) => Ok(s@),
        Err(e) => Err(e@),
    }
}

/// The text of an optional string.
pub open spec fn opt_text_view(o: Option<String>) -> Option<Seq<char>> {
    match o {
        Some(s) => Some(s@),
        None => None,
    }
}

/// The text of an optional string slice.
pub open spec fn opt_str_view(o: Option<&str>) -> Option<Seq<char>> {
    match o {
        Some(s) => Some(s@),
        None => None,
    }
}
proof fn lemma_trim_end_shape(s: Seq<char>, p: spec_fn(char) -> bool)
    ensures
        trim_end_by(s, p).len() <= s.len(),
        trim_end_by(s, p) == s.take(trim_end_by(s, p).len() as int),
        trim_end_by(s, p).len() > 0 ==> !p(trim_end_by(s, p).last()),
    decreases s.len(),
{
    if s.len() > 0 && p(s.last()) {
        lemma_trim_end_shape(s.drop_last(), p);
        let r = trim_end_by(s.drop_last(), p);
        assert(s.drop_last().take(r.len() as int) =~= s.take(r.len() as int));
    } else {
        assert(s.take(s.len() as int) =~= s);
    }
}

proof fn lemma_trim_start_shape(s: Seq<char>, p: spec_fn(char) -> bool)
    ensures
        trim_start_by(s, p).len() <= s.len(),
        trim_start_by(s, p) == s.subrange(s.len() - trim_start_by(s, p).len(), s.len() as int),
        trim_start_by(s, p).len() > 0 ==> !p(trim_start_by(s, p)[0]),
    decreases s.len(),
{
    if s.len() > 0 && p(s[0]) {
        lemma_trim_start_shape(s.drop_first(), p);
        let r = trim_start_by(s.drop_first(), p);
        assert(s.drop_first().subrange(s.drop_first().len() - r.len(), s.drop_first().len() as int)
            =~= s.subrange(s.len() - r.len(), s.len() as int));
    } else {
        assert(s.subrange(0, s.len() as int) =~= s);
    }
}

/// Whether no two `-` follow each other in `s`.
pub open spec fn no_double_dash(s: Seq<char>) -> bool {
    forall|i: int| 0 <= i < s.len() - 1 ==> !(#[trigger] s[i] == '-' && s[i + 1] == '-')
}

proof fn lemma_collapse_no_double(s: Seq<char>)
    ensures
        no_double_dash(collapse_dashes(s)),
    decreases s.len(),
{
    if s.len() > 0 {
        lemma_collapse_no_double(s.drop_last());
        let r = collapse_dashes(s.drop_last());
        if !(s.last() == '-' && r.len() > 0 && r.last() == '-') {
            let t = r.push(s.last());
            assert forall|i: int| 0 <= i < t.len() - 1 implies !(#[trigger] t[i] == '-' && t[i + 1] == '-') by {
                if i < r.len() - 1 {
                    assert(t[i] == r[i] && t[i + 1] == r[i + 1]);
                } else {
                    assert(i == r.len() - 1);
                    assert(t[i] == r.last());
                }
            }
        }
    }
}

/// Whether `s` makes a tidy file stem: not empty, no `-` at either end and
/// never two `-` in a row.
pub open spec fn clean_file_stem(s: Seq<char>) -> bool {
    &&& s.len() > 0
    &&& s[0] != '-'
    &&& s.last() != '-'
    &&& no_double_dash(s)
}

/// Whatever the title, the file stem of a prompt is tidy: never empty,
/// never starting or ending with `-`, never holding `--`.
pub proof fn lemma_prompt_file_stem_clean(title: Seq<char>)
    ensures
        clean_file_stem(prompt_file_stem(title)),
{
    let c = collapse_dashes(filename_chars(title));
    lemma_collapse_no_double(filename_chars(title));
    let e = trim_end_by(c, dash_pred());
    lemma_trim_end_shape(c, dash_pred());
    let t = trim_start_by(e, dash_pred());
    lemma_trim_start_shape(e, dash_pred());
    let k = (e.len() - t.len()) as int;
    if t.len() > 0 {
        assert forall|i: int| 0 <= i < t.len() - 1 implies !(#[trigger] t[i] == '-' && t[i + 1] == '-') by {
            assert(t[i] == e[k + i] && t[i + 1] == e[k + i + 1]);
            assert(e[k + i] == c[k + i] && e[k + i + 1] == c[k + i + 1]);
        }
        assert(t.last() == e.last());
    } else {
        reveal_strlit("prompt");
        assert(prompt_file_stem(title) == "prompt"@);
    }
}

/// Whether every character of `s` is kept in a file name: a letter, a
/// digit or `-`.
pub open spec fn file_stem_chars(s: Seq<char>) -> bool {
    forall|i: int| 0 <= i < s.len() ==> filename_keeps(#[trigger] s[i])
}

proof fn lemma_filename_chars_keep(s: Seq<char>)
    ensures
        file_stem_chars(filename_chars(s)),
    decreases s.len(),
{
    if s.len() > 0 {
        lemma_filename_chars_keep(s.drop_last());
        let r = filename_chars(s.drop_last());
        let c = filename_char(s.last());
        if filename_keeps(c) {
            assert forall|i: int| 0 <= i < r.push(c).len() implies filename_keeps(#[trigger] r.push(c)[i]) by {
                if i < r.len() { assert(r.push(c)[i] == r[i]); }
            }
        }
    }
}

proof fn lemma_collapse_keeps(s: Seq<char>)
    requires
        file_stem_chars(s),
    ensures
        file_stem_chars(collapse_dashes(s)),
    decreases s.len(),
{
    if s.len() > 0 {
        assert(file_stem_chars(s.drop_last())) by {
            assert forall|i: int| 0 <= i < s.drop_last().len() implies filename_keeps(#[trigger] s.drop_last()[i]) by {
                assert(s.drop_last()[i] == s[i]);
            }
        }
        lemma_collapse_keeps(s.drop_last());
        let r = collapse_dashes(s.drop_last());
        let t = r.push(s.last());
        assert(filename_keeps(s[s.len() - 1]));
        assert forall|i: int| 0 <= i < t.len() implies filename_keeps(#[trigger] t[i]) by {
            if i < r.len() { assert(t[i] == r[i]); }
        }
    }
}

proof fn lemma_collapse_identity(s: Seq<char>)
    requires
        no_double_dash(s),
    ensures
        collapse_dashes(s) == s,
    decreases s.len(),
{
    if s.len() > 0 {
        let d = s.drop_last();
        assert(no_double_dash(d)) by {
            assert forall|i: int| 0 <= i < d.len() - 1 implies !(#[trigger] d[i] == '-' && d[i + 1] == '-') by {
                assert(d[i] == s[i] && d[i + 1] == s[i + 1]);
            }
        }
        lemma_collapse_identity(d);
        if s.last() == '-' && d.len() > 0 && d.last() == '-' {
            assert(s[s.len() - 2] == '-' && s[s.len() - 1] == '-');
        }
        assert(d.push(s.last()) =~= s);
    }
}

proof fn lemma_filename_chars_identity(s: Seq<char>)
    requires
        file_stem_chars(s),
    ensures
        filename_chars(s) == s,
    decreases s.len(),
{
    if s.len() > 0 {
        let d = s.drop_last();
        assert(file_stem_chars(d)) by {
            assert forall|i: int| 0 <= i < d.len() implies filename_keeps(#[trigger] d[i]) by {
                assert(d[i] == s[i]);
            }
        }
        lemma_filename_chars_identity(d);
        assert(filename_keeps(s[s.len() - 1]));
        assert(filename_char(s.last()) == s.last());
        assert(d.push(s.last()) =~= s);
    }
}

/// The file stem of a prompt is made of letters, digits and single inner
/// `-` only, and cleaning it again changes nothing.
pub proof fn lemma_prompt_file_stem_idempotent(title: Seq<char>)
    ensures
        file_stem_chars(prompt_file_stem(title)),
        clean_file_stem(prompt_file_stem(title)),
        prompt_file_stem(prompt_file_stem(title)) == prompt_file_stem(title),
{
    lemma_prompt_file_stem_clean(title);
    let f = filename_chars(title);
    lemma_filename_chars_keep(title);
    lemma_collapse_keeps(f);
    let c = collapse_dashes(f);
    let e = trim_end_by(c, dash_pred());
    lemma_trim_end_shape(c, dash_pred());
    let t = trim_start_by(e, dash_pred());
    lemma_trim_start_shape(e, dash_pred());
    let stem = prompt_file_stem(title);
    if t.len() > 0 {
        let k = (e.len() - t.len()) as int;
        assert forall|i: int| 0 <= i < t.len() implies filename_keeps(#[trigger] t[i]) by {
            assert(t[i] == e[k + i]);
            assert(e[k + i] == c[k + i]);
        }
    } else {
        reveal_strlit("prompt");
        assert(stem == "prompt"@);
        assert forall|i: int| 0 <= i < stem.len() implies filename_keeps(#[trigger] stem[i]) by {
            assert(is_ascii_alphanumeric(stem[i]));
        }
    }
    // Cleaning the stem again: nothing maps, nothing collapses, nothing trims.
    lemma_filename_chars_identity(stem);
    lemma_collapse_identity(stem);
    assert(trim_end_by(stem, dash_pred()) == stem);
    assert(trim_start_by(stem, dash_pred()) == stem);
}

/// Whether `s` reads as one line: its only whitespace is single plain
/// spaces between other characters.
pub open spec fn is_one_line(s: Seq<char>) -> bool {
    &&& forall|i: int| 0 <= i < s.len() && is_unicode_whitespace(#[trigger] s[i]) ==> s[i] == ' '
    &&& forall|i: int| 0 <= i < s.len() - 1 ==> !(is_unicode_whitespace(#[trigger] s[i]) && is_unicode_whitespace(s[i + 1]))
    &&& s.len() > 0 ==> !is_unicode_whitespace(s[0]) && !is_unicode_whitespace(s.last())
}

proof fn lemma_collapse_runs_shape(s: Seq<char>)
    ensures
        ({
            let (r, in_space) = collapse_runs(s);
            &&& in_space ==> r.len() > 0 && r.last() == ' '
            &&& !in_space && r.len() > 0 ==> !is_unicode_whitespace(r.last())
            &&& forall|i: int| 0 <= i < r.len() && is_unicode_whitespace(#[trigger] r[i]) ==> r[i] == ' '
            &&& forall|i: int| 0 <= i < r.len() - 1 ==> !(is_unicode_whitespace(#[trigger] r[i]) && is_unicode_whitespace(r[i + 1]))
        }),
    decreases s.len(),
{
    if s.len() > 0 {
        lemma_collapse_runs_shape(s.drop_last());
        let (r, in_space) = collapse_runs(s.drop_last());
        let c = s.last();
        if is_unicode_whitespace(c) {
            if !in_space {
                let t = r.push(' ');
                assert forall|i: int| 0 <= i < t.len() && is_unicode_whitespace(#[trigger] t[i]) implies t[i] == ' ' by {
                    if i < r.len() { assert(t[i] == r[i]); }
                }
                assert forall|i: int| 0 <= i < t.len() - 1 implies !(is_unicode_whitespace(#[trigger] t[i]) && is_unicode_whitespace(t[i + 1])) by {
                    if i < r.len() - 1 {
                        assert(t[i] == r[i] && t[i + 1] == r[i + 1]);
                    } else {
                        assert(t[i] == r.last());
                    }
                }
            }
        } else {
            let t = r.push(c);
            assert forall|i: int| 0 <= i < t.len() && is_unicode_whitespace(#[trigger] t[i]) implies t[i] == ' ' by {
                if i < r.len() { assert(t[i] == r[i]); }
            }
            assert forall|i: int| 0 <= i < t.len() - 1 implies !(is_unicode_whitespace(#[trigger] t[i]) && is_unicode_whitespace(t[i + 1])) by {
                if i < r.len() - 1 {
                    assert(t[i] == r[i] && t[i + 1] == r[i + 1]);
                } else {
                    assert(t[i + 1] == c);
                }
            }
        }
    }
}

/// A thread title or preview shown on one line really is one line: runs of
/// whitespace (newlines among them) are single spaces, and none is left at
/// either end.
pub proof fn lemma_single_line_is_one_line(s: Seq<char>)
    ensures
        is_one_line(single_line(s)),
{
    lemma_collapse_runs_shape(s);
    let c = collapse_runs(s).0;
    let e = trim_end_by(c, whitespace_pred());
    lemma_trim_end_shape(c, whitespace_pred());
    let t = trim_start_by(e, whitespace_pred());
    lemma_trim_start_shape(e, whitespace_pred());
    let k = (e.len() - t.len()) as int;
    assert forall|i: int| 0 <= i < t.len() && is_unicode_whitespace(#[trigger] t[i]) implies t[i] == ' ' by {
        assert(t[i] == e[k + i]);
        assert(e[k + i] == c[k + i]);
    }
    assert forall|i: int| 0 <= i < t.len() - 1 implies !(is_unicode_whitespace(#[trigger] t[i]) && is_unicode_whitespace(t[i + 1])) by {
        assert(t[i] == e[k + i] && t[i + 1] == e[k + i + 1]);
        assert(e[k + i] == c[k + i] && e[k + i + 1] == c[k + i + 1]);
    }
    if t.len() > 0 {
        assert(t.last() == e.last());
        assert(!(whitespace_pred())(t[0]));
        assert(!(whitespace_pred())(e.last()));
    }
}

} // verus!
