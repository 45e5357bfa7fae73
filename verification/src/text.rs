//! Character and string helpers shared by the format matrix, the argument
//! builders and the layout heuristics.

use vstd::prelude::*;

verus! {

/// ASCII upper-case letter.
pub open spec fn is_upper(c: char) -> bool {
    'A' <= c && c <= 'Z'
}

/// `char::to_ascii_lowercase`: only ASCII upper-case letters change.
pub open spec fn lower_char(c: char) -> char {
    if is_upper(c) {
        ((c as u32) + 32) as char
    } else {
        c
    }
}

/// `str::to_ascii_lowercase` on the characters of a string.
pub open spec fn lower_seq(s: Seq<char>) -> Seq<char> {
    Seq::new(s.len(), |i: int| lower_char(s[i]))
}

/// Lower-cases one character as `char::to_ascii_lowercase` does.
pub fn char_to_lower(c: char) -> (r: char)
    ensures
        r == lower_char(c),
{
    if 'A' <= c && c <= 'Z' {
        let b: u8 = c as u8;
        let l: u8 = b + 32;
        l as char
    } else {
        c
    }
}

/// Appends one character to a string (`String::push`).
#[verifier::external_body]
pub(crate) fn push_char(s: &mut String, c: char)
    ensures
        final(s)@ == old(s)@.push(c),
{
    s.push(c);
}

/// `str::to_ascii_lowercase`.
pub fn ascii_lowercase(s: &str) -> (r: String)
    ensures
        r@ == lower_seq(s@),
{
    let n = s.unicode_len();
    let mut out = String::new();
    let mut i: usize = 0;
    while i < n
        invariant
            n == s@.len(),
            i <= n,
            out@ == Seq::new(i as nat, |j: int| lower_char(s@[j])),
        decreases n - i,
    {
        let c = s.get_char(i);
        let l = char_to_lower(c);
        push_char(&mut out, l);
        i = i + 1;
        assert(out@ =~= Seq::new(i as nat, |j: int| lower_char(s@[j])));
    }
    assert(out@ =~= lower_seq(s@));
    out
}

} // verus!

verus! {

/// Character-wise equality of two strings.
pub fn str_eq(a: &str, b: &str) -> (r: bool)
    ensures
        r == (a@ == b@),
{
    let x = a.to_owned();
    let y = b.to_owned();
    x == y
}

} // verus!

verus! {

/// `char::is_whitespace`: the Unicode White_Space property.
pub open spec fn is_ws(c: char) -> bool {
    ('\u{9}' <= c && c <= '\u{d}') || c == ' ' || c == '\u{85}' || c == '\u{a0}'
        || c == '\u{1680}' || ('\u{2000}' <= c && c <= '\u{200a}') || c == '\u{2028}'
        || c == '\u{2029}' || c == '\u{202f}' || c == '\u{205f}' || c == '\u{3000}'
}

pub fn is_whitespace(c: char) -> (r: bool)
    ensures
        r == is_ws(c),
{
    ('\u{9}' <= c && c <= '\u{d}') || c == ' ' || c == '\u{85}' || c == '\u{a0}'
        || c == '\u{1680}' || ('\u{2000}' <= c && c <= '\u{200a}') || c == '\u{2028}'
        || c == '\u{2029}' || c == '\u{202f}' || c == '\u{205f}' || c == '\u{3000}'
}

/// Number of leading characters that satisfy `p`.
pub open spec fn lead(s: Seq<char>, p: spec_fn(char) -> bool) -> nat
    decreases s.len(),
{
    if s.len() > 0 && p(s[0]) {
        1 + lead(s.drop_first(), p)
    } else {
        0
    }
}

/// Number of trailing characters that satisfy `p`.
pub open spec fn trail(s: Seq<char>, p: spec_fn(char) -> bool) -> nat
    decreases s.len(),
{
    if s.len() > 0 && p(s.last()) {
        1 + trail(s.drop_last(), p)
    } else {
        0
    }
}

pub open spec fn ws_pred() -> spec_fn(char) -> bool {
    |c: char| is_ws(c)
}

/// `str::trim`.
pub open spec fn trim_seq(s: Seq<char>) -> Seq<char> {
    let t = s.skip(lead(s, ws_pred()) as int);
    t.take(t.len() - trail(t, ws_pred()))
}

/// `str::trim_start`.
pub open spec fn trim_start_seq(s: Seq<char>) -> Seq<char> {
    s.skip(lead(s, ws_pred()) as int)
}

/// `str::trim_start_matches(ch)` for a single character.
pub open spec fn strip_leading(s: Seq<char>, ch: char) -> Seq<char> {
    s.skip(lead(s, is_char(ch)) as int)
}

pub open spec fn is_char(ch: char) -> spec_fn(char) -> bool {
    |c: char| c == ch
}

pub proof fn lemma_lead(s: Seq<char>, p: spec_fn(char) -> bool, i: int)
    requires
        0 <= i <= s.len(),
        forall|j: int| 0 <= j < i ==> #[trigger] p(s[j]),
        i == s.len() || !p(s[i]),
    ensures
        lead(s, p) == i,
    decreases i,
{
    if i > 0 {
        assert(p(s[0]));
        let t = s.drop_first();
        assert forall|j: int| 0 <= j < i - 1 implies #[trigger] p(t[j]) by {
            assert(t[j] == s[j + 1]);
            assert(p(s[j + 1]));
        }
        if i < s.len() {
            assert(t[i - 1] == s[i]);
        }
        lemma_lead(t, p, i - 1);
    }
}

pub proof fn lemma_trail(s: Seq<char>, p: spec_fn(char) -> bool, k: int)
    requires
        0 <= k <= s.len(),
        forall|j: int| s.len() - k <= j < s.len() ==> #[trigger] p(s[j]),
        k == s.len() || !p(s[s.len() - k - 1]),
    ensures
        trail(s, p) == k,
    decreases k,
{
    if k > 0 {
        assert(p(s[s.len() - 1]));
        let t = s.drop_last();
        assert forall|j: int| t.len() - (k - 1) <= j < t.len() implies #[trigger] p(t[j]) by {
            assert(t[j] == s[j]);
            assert(p(s[j]));
        }
        if k < s.len() {
            assert(t[t.len() - (k - 1) - 1] == s[s.len() - k - 1]);
        }
        lemma_trail(t, p, k - 1);
    }
}

/// Index of the first character that is not whitespace (or the length).
fn first_non_ws(s: &str, n: usize) -> (i: usize)
    requires
        n == s@.len(),
    ensures
        i == lead(s@, ws_pred()),
        i <= n,
{
    let mut i: usize = 0;
    while i < n && is_whitespace(s.get_char(i))
        invariant
            n == s@.len(),
            i <= n,
            forall|j: int| 0 <= j < i ==> #[trigger] ws_pred()(s@[j]),
        decreases n - i,
    {
        i = i + 1;
    }
    proof {
        lemma_lead(s@, ws_pred(), i as int);
    }
    i
}

/// `str::trim_start`.
pub fn trim_start(s: &str) -> (r: &str)
    ensures
        r@ == trim_start_seq(s@),
{
    let n = s.unicode_len();
    let i = first_non_ws(s, n);
    s.substring_char(i, n)
}

/// `str::trim`.
pub fn trim(s: &str) -> (r: &str)
    ensures
        r@ == trim_seq(s@),
{
    let t = trim_start(s);
    let n = t.unicode_len();
    let mut k: usize = 0;
    while k < n && is_whitespace(t.get_char(n - k - 1))
        invariant
            n == t@.len(),
            k <= n,
            forall|j: int| n - k <= j < n ==> #[trigger] ws_pred()(t@[j]),
        decreases n - k,
    {
        k = k + 1;
    }
    proof {
        lemma_trail(t@, ws_pred(), k as int);
    }
    t.substring_char(0, n - k)
}

/// `str::trim_start_matches(ch)` for a single character.
pub fn trim_start_char(s: &str, ch: char) -> (r: &str)
    ensures
        r@ == strip_leading(s@, ch),
{
    let n = s.unicode_len();
    let mut i: usize = 0;
    while i < n && s.get_char(i) == ch
        invariant
            n == s@.len(),
            i <= n,
            forall|j: int| 0 <= j < i ==> #[trigger] is_char(ch)(s@[j]),
        decreases n - i,
    {
        i = i + 1;
    }
    proof {
        lemma_lead(s@, is_char(ch), i as int);
    }
    s.substring_char(i, n)
}

/// A string made of the characters of `s`.
pub fn string_of(s: &str) -> (r: String)
    ensures
        r@ == s@,
{
    s.to_owned()
}

/// Concatenation of two strings.
pub fn concat(a: &str, b: &str) -> (r: String)
    ensures
        r@ == a@ + b@,
{
    let mut r = a.to_owned();
    r.append(b);
    r
}

} // verus!

verus! {

/// The character of a decimal digit.
pub open spec fn digit_char(d: nat) -> char {
    ((48 + d) as u32) as char
}

/// Decimal spelling of a natural number, as `Display` for integers writes it.
pub open spec fn dec(n: nat) -> Seq<char>
    decreases n,
{
    if n < 10 {
        seq![digit_char(n)]
    } else {
        dec(n / 10).push(digit_char(n % 10))
    }
}

/// Decimal spelling of an integer, with a leading `-` when negative.
pub open spec fn dec_int(n: int) -> Seq<char> {
    if n < 0 {
        seq!['-'] + dec((-n) as nat)
    } else {
        dec(n as nat)
    }
}

/// `n` zero-padded on the left to at least `width` characters (`{n:0width$}`).
pub open spec fn pad_dec(n: nat, width: nat) -> Seq<char> {
    let d = dec(n);
    if d.len() < width {
        Seq::new((width - d.len()) as nat, |i: int| '0') + d
    } else {
        d
    }
}

fn digit_of(d: u64) -> (c: char)
    requires
        d < 10,
    ensures
        c == digit_char(d as nat),
{
    let b: u8 = 48u8 + (d as u8);
    b as char
}

/// Appends the decimal spelling of `n` to `out`.
pub fn push_dec(out: &mut String, n: u64)
    ensures
        final(out)@ == old(out)@ + dec(n as nat),
    decreases n,
{
    if n < 10 {
        push_char(out, digit_of(n));
        assert(dec(n as nat) =~= seq![digit_char(n as nat)]);
    } else {
        push_dec(out, n / 10);
        push_char(out, digit_of(n % 10));
        assert(old(out)@ + dec(n as nat) =~= old(out)@ + dec((n / 10) as nat) + seq![digit_char((n % 10) as nat)]);
    }
}

/// The decimal spelling of `n`.
pub fn dec_string(n: u64) -> (r: String)
    ensures
        r@ == dec(n as nat),
{
    let mut s = String::new();
    push_dec(&mut s, n);
    assert(s@ =~= dec(n as nat));
    s
}

/// Appends the decimal spelling of a signed number.
pub fn push_dec_i64(out: &mut String, n: i64)
    ensures
        final(out)@ == old(out)@ + dec_int(n as int),
{
    if n < 0 {
        push_char(out, '-');
        let m: u64 = if n == i64::MIN { 9223372036854775808u64 } else { (-n) as u64 };
        push_dec(out, m);
        assert(final(out)@ =~= old(out)@ + dec_int(n as int));
    } else {
        push_dec(out, n as u64);
    }
}

/// Appends `n` zero-padded to `width` characters.
pub fn push_padded(out: &mut String, n: u64, width: usize)
    ensures
        final(out)@ == old(out)@ + pad_dec(n as nat, width as nat),
{
    let d = dec_string(n);
    let len = d.as_str().unicode_len();
    let mut k: usize = len;
    while k < width
        invariant
            len == dec(n as nat).len(),
            len <= k <= width || (k == len && len >= width),
            out@ == old(out)@ + Seq::new((k - len) as nat, |i: int| '0'),
        decreases width - k,
    {
        push_char(out, '0');
        k = k + 1;
        assert(out@ =~= old(out)@ + Seq::new((k - len) as nat, |i: int| '0'));
    }
    out.append(d.as_str());
    assert(out@ =~= old(out)@ + pad_dec(n as nat, width as nat));
}

} // verus!

verus! {

pub open spec fn is_digit(c: char) -> bool {
    '0' <= c && c <= '9'
}

pub open spec fn is_alnum(c: char) -> bool {
    is_digit(c) || ('a' <= c && c <= 'z') || ('A' <= c && c <= 'Z')
}

/// `str::starts_with` for a string pattern.
pub open spec fn has_prefix(s: Seq<char>, p: Seq<char>) -> bool {
    p.len() <= s.len() && s.take(p.len() as int) == p
}

/// `str::contains` for a string pattern.
pub open spec fn has_infix(s: Seq<char>, p: Seq<char>) -> bool {
    exists|i: int| 0 <= i <= s.len() - p.len() && #[trigger] s.subrange(i, i + p.len()) == p
}

/// `str::eq_ignore_ascii_case`.
pub open spec fn eq_ignore_case(a: Seq<char>, b: Seq<char>) -> bool {
    lower_seq(a) == lower_seq(b)
}

/// `str::starts_with`.
pub fn starts_with(s: &str, p: &str) -> (r: bool)
    ensures
        r == has_prefix(s@, p@),
{
    let n = s.unicode_len();
    let m = p.unicode_len();
    if m > n {
        return false;
    }
    let head = s.substring_char(0, m);
    str_eq(head, p)
}

/// `str::contains`.
pub fn contains(s: &str, p: &str) -> (r: bool)
    ensures
        r == has_infix(s@, p@),
{
    let n = s.unicode_len();
    let m = p.unicode_len();
    if m > n {
        return false;
    }
    if m == 0 {
        assert(s@.subrange(0int, 0int + p@.len()) =~= p@);
        return true;
    }
    let mut i: usize = 0;
    while i <= n - m
        invariant
            n == s@.len(),
            m == p@.len(),
            1 <= m <= n,
            i <= n - m + 1,
            forall|j: int| 0 <= j < i ==> #[trigger] s@.subrange(j, j + m) != p@,
        decreases n - m + 1 - i,
    {
        let part = s.substring_char(i, i + m);
        if str_eq(part, p) {
            return true;
        }
        i = i + 1;
    }
    false
}

/// `str::eq_ignore_ascii_case`.
pub fn eq_ignore_ascii_case(a: &str, b: &str) -> (r: bool)
    ensures
        r == eq_ignore_case(a@, b@),
{
    let x = ascii_lowercase(a);
    let y = ascii_lowercase(b);
    x == y
}

/// Value of a run of decimal digits, most significant first.
pub open spec fn digits_value(s: Seq<char>) -> nat
    decreases s.len(),
{
    if s.len() == 0 {
        0
    } else {
        digits_value(s.drop_last()) * 10 + ((s.last() as u32) - 48) as nat
    }
}

pub open spec fn all_digits(s: Seq<char>) -> bool {
    forall|i: int| 0 <= i < s.len() ==> is_digit(#[trigger] s[i])
}

/// `str::parse::<u32>`: an optional `+`, then one or more decimal digits,
/// within range.
pub open spec fn parse_u32_spec(s: Seq<char>) -> Option<u32> {
    let t = if s.len() > 0 && s[0] == '+' { s.drop_first() } else { s };
    if t.len() > 0 && all_digits(t) && digits_value(t) <= u32::MAX {
        Some(digits_value(t) as u32)
    } else {
        None
    }
}

pub proof fn lemma_digits_value_grows(s: Seq<char>, k: int)
    requires
        0 <= k <= s.len(),
        all_digits(s),
    ensures
        digits_value(s.take(k)) <= digits_value(s),
    decreases s.len() - k,
{
    if k < s.len() {
        lemma_digits_value_grows(s, k + 1);
        assert(s.take(k + 1).drop_last() =~= s.take(k));
        assert(is_digit(s[k]));
    } else {
        assert(s.take(k) =~= s);
    }
}

/// `str::parse::<u32>`.
pub fn parse_u32(s: &str) -> (r: Option<u32>)
    ensures
        r == parse_u32_spec(s@),
{
    let n = s.unicode_len();
    let mut start: usize = 0;
    if n > 0 && s.get_char(0) == '+' {
        start = 1;
    }
    let t = s.substring_char(start, n);
    assert(t@ =~= (if s@.len() > 0 && s@[0] == '+' { s@.drop_first() } else { s@ }));
    let m = n - start;
    if m == 0 {
        return None;
    }
    let mut acc: u64 = 0;
    let mut i: usize = 0;
    while i < m
        invariant
            m == t@.len(),
            t@ == (if s@.len() > 0 && s@[0] == '+' { s@.drop_first() } else { s@ }),
            i <= m,
            forall|j: int| 0 <= j < i ==> is_digit(#[trigger] t@[j]),
            acc == digits_value(t@.take(i as int)),
            acc <= u32::MAX,
        decreases m - i,
    {
        let c = t.get_char(i);
        if !('0' <= c && c <= '9') {
            assert(!all_digits(t@));
            return None;
        }
        let d: u64 = (c as u32 - 48) as u64;
        assert(t@.take(i + 1).drop_last() =~= t@.take(i as int));
        acc = acc * 10 + d;
        i = i + 1;
        if acc > 4294967295 {
            proof {
                if all_digits(t@) {
                    lemma_digits_value_grows(t@, i as int);
                }
            }
            return None;
        }
    }
    assert(t@.take(m as int) =~= t@);
    Some(acc as u32)
}

/// The text after the last `sep` (all of `s` when there is none), as
/// `s.rsplit(sep).next()` yields it.
pub open spec fn after_last(s: Seq<char>, sep: char) -> Seq<char> {
    s.skip(s.len() - trail(s, not_char(sep)))
}

pub open spec fn not_char(ch: char) -> spec_fn(char) -> bool {
    |c: char| c != ch
}

/// `s.rsplit(sep).next()`.
pub fn last_segment(s: &str, sep: char) -> (r: &str)
    ensures
        r@ == after_last(s@, sep),
{
    let n = s.unicode_len();
    let ghost p = not_char(sep);
    let mut k: usize = 0;
    while k < n && s.get_char(n - k - 1) != sep
        invariant
            n == s@.len(),
            k <= n,
            forall|j: int| n - k <= j < n ==> #[trigger] s@[j] != sep,
        decreases n - k,
    {
        k = k + 1;
    }
    proof {
        assert forall|j: int| n - k <= j < n implies #[trigger] p(s@[j]) by {}
        lemma_trail(s@, p, k as int);
    }
    s.substring_char(n - k, n)
}

/// Every `from` replaced by `to` (`str::replace` with single characters).
pub open spec fn replace_char_seq(s: Seq<char>, from: char, to: char) -> Seq<char> {
    Seq::new(s.len(), |i: int| if s[i] == from { to } else { s[i] })
}

/// `str::replace` with single characters.
pub fn replace_char(s: &str, from: char, to: char) -> (r: String)
    ensures
        r@ == replace_char_seq(s@, from, to),
{
    let n = s.unicode_len();
    let mut out = String::new();
    let mut i: usize = 0;
    while i < n
        invariant
            n == s@.len(),
            i <= n,
            out@ == replace_char_seq(s@, from, to).take(i as int),
        decreases n - i,
    {
        let c = s.get_char(i);
        if c == from {
            push_char(&mut out, to);
        } else {
            push_char(&mut out, c);
        }
        i = i + 1;
        assert(out@ =~= replace_char_seq(s@, from, to).take(i as int));
    }
    assert(out@ =~= replace_char_seq(s@, from, to));
    out
}

} // verus!

verus! {

/// Appends one argument to an argument list.
pub fn push_arg(v: &mut Vec<String>, s: &str)
    ensures
        final(v).deep_view() == old(v).deep_view().push(s@),
{
    v.push(string_of(s));
    assert(v.deep_view() =~= old(v).deep_view().push(s@));
}

/// Appends one owned argument to an argument list.
pub fn push_owned(v: &mut Vec<String>, s: String)
    ensures
        final(v).deep_view() == old(v).deep_view().push(s@),
{
    let ghost sv = s@;
    v.push(s);
    assert(v.deep_view() =~= old(v).deep_view().push(sv));
}

/// Appends a whole argument list.
pub fn extend_args(v: &mut Vec<String>, more: Vec<String>)
    ensures
        final(v).deep_view() == old(v).deep_view() + more.deep_view(),
{
    let ghost m = more.deep_view();
    let mut more = more;
    v.append(&mut more);
    assert(v.deep_view() =~= old(v).deep_view() + m);
}

} // verus!

verus! {

/// Lines joined with a separator between them.
pub open spec fn join_with(lines: Seq<Seq<char>>, sep: Seq<char>) -> Seq<char>
    decreases lines.len(),
{
    if lines.len() == 0 {
        Seq::empty()
    } else if lines.len() == 1 {
        lines[0]
    } else {
        join_with(lines.drop_last(), sep) + sep + lines.last()
    }
}

/// Texts joined with `sep` between them (`[String]::join`).
pub fn join_strings(v: &Vec<String>, sep: &str) -> (r: String)
    ensures
        r@ == join_with(v.deep_view(), sep@),
{
    let n = v.len();
    let mut out = String::new();
    let mut j: usize = 0;
    while j < n
        invariant
            n == v@.len(),
            j <= n,
            out@ == join_with(v.deep_view().take(j as int), sep@),
        decreases n - j,
    {
        assert(v.deep_view().take(j + 1).drop_last() =~= v.deep_view().take(j as int));
        if j > 0 {
            out.append(sep);
        }
        out.append(v[j].as_str());
        assert(v.deep_view()[j as int] == v@[j as int]@);
        j = j + 1;
    }
    assert(v.deep_view().take(n as int) =~= v.deep_view());
    out
}

} // verus!
