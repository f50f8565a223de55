//! Character-level helpers shared by the request validation, the SSE decoder
//! and the error messages: whitespace trimming, counting, building strings,
//! decimal rendering and ordering of strings.
use vstd::prelude::*;
use vstd::string::StringExecFns;

verus! {

/// Unicode `White_Space` characters: exactly the characters for which
/// `char::is_whitespace` holds, and so what `str::trim` removes.
pub open spec fn is_unicode_whitespace(c: char) -> bool {
    let v = c as u32;
    ||| 0x09 <= v <= 0x0d
    ||| v == 0x20
    ||| v == 0x85
    ||| v == 0xa0
    ||| v == 0x1680
    ||| 0x2000 <= v <= 0x200a
    ||| v == 0x2028
    ||| v == 0x2029
    ||| v == 0x202f
    ||| v == 0x205f
    ||| v == 0x3000
}

/// `s` without its leading whitespace.
pub open spec fn trim_start(s: Seq<char>) -> Seq<char>
    decreases s.len(),
{
    if s.len() > 0 && is_unicode_whitespace(s[0]) {
        trim_start(s.drop_first())
    } else {
        s
    }
}

/// `s` without its trailing whitespace.
pub open spec fn trim_end(s: Seq<char>) -> Seq<char>
    decreases s.len(),
{
    if s.len() > 0 && is_unicode_whitespace(s.last()) {
        trim_end(s.drop_last())
    } else {
        s
    }
}

/// `s` without leading and trailing whitespace, as `str::trim` gives it.
pub open spec fn trim(s: Seq<char>) -> Seq<char> {
    trim_end(trim_start(s))
}

/// A string is blank when nothing is left of it after trimming.
pub open spec fn is_blank(s: Seq<char>) -> bool {
    trim(s).len() == 0
}

/// The decimal digit character for `d < 10`.
pub open spec fn digit_char(d: nat) -> char {
    if d == 0 {
        '0'
    } else if d == 1 {
        '1'
    } else if d == 2 {
        '2'
    } else if d == 3 {
        '3'
    } else if d == 4 {
        '4'
    } else if d == 5 {
        '5'
    } else if d == 6 {
        '6'
    } else if d == 7 {
        '7'
    } else if d == 8 {
        '8'
    } else {
        '9'
    }
}

/// The decimal representation of `n`, without sign or leading zeros,
/// as `Display` writes an unsigned integer.
pub open spec fn decimal(n: nat) -> Seq<char>
    decreases n,
{
    if n < 10 {
        seq![digit_char(n)]
    } else {
        decimal(n / 10).push(digit_char(n % 10))
    }
}

/// The numeric value of an ASCII digit character.
pub open spec fn digit_value(c: char) -> nat {
    ((c as u32) - 48) as nat
}

/// `char::is_ascii_digit`: `'0'` to `'9'`.
pub open spec fn is_ascii_digit(c: char) -> bool {
    48 <= (c as u32) <= 57
}

/// The value of a sequence of decimal digits.
pub open spec fn digits_value(s: Seq<char>) -> nat
    decreases s.len(),
{
    if s.len() == 0 {
        0
    } else {
        digits_value(s.drop_last()) * 10 + digit_value(s.last())
    }
}

/// The digits part of an unsigned number: without its optional leading `+`.
pub open spec fn unsigned_digits(s: Seq<char>) -> Seq<char> {
    if s.len() > 0 && s[0] == '+' {
        s.drop_first()
    } else {
        s
    }
}

pub open spec fn all_ascii_digits(s: Seq<char>) -> bool {
    forall|i: int| 0 <= i < s.len() ==> is_ascii_digit(#[trigger] s[i])
}

/// What `str::parse::<u64>` accepts: an optional `+`, then at least one
/// ASCII digit and nothing else, with a value that fits in a `u64`.
pub open spec fn parse_u64_spec(s: Seq<char>) -> Option<u64> {
    let digits = unsigned_digits(s);
    if digits.len() > 0 && all_ascii_digits(digits) && digits_value(digits) <= u64::MAX {
        Some(digits_value(digits) as u64)
    } else {
        None
    }
}

/// Lexicographic order of character sequences by code point (a char's
/// value as an integer), which for UTF-8 strings is the byte order that
/// `Ord for str` uses.
pub open spec fn seq_lt(a: Seq<char>, b: Seq<char>) -> bool
    decreases a.len(),
{
    if a.len() == 0 {
        b.len() > 0
    } else if b.len() == 0 {
        false
    } else if a[0] != b[0] {
        (a[0] as int) < (b[0] as int)
    } else {
        seq_lt(a.drop_first(), b.drop_first())
    }
}

/// The characters of a string slice, in order.
pub fn chars_of(s: &str) -> (out: Vec<char>)
    ensures
        out@ == s@,
{
    let mut out: Vec<char> = Vec::new();
    for c in it: s.chars()
        invariant
            out@ == it.seq().take(it.index() as int),
    {
        out.push(c);
    }
    out
}

/// Appends one character: std's `String::push`, which its documentation
/// describes as appending the given char to the end of the string.
#[verifier::external_body]
fn push_char(s: &mut String, c: char)
    ensures
        final(s)@ == old(s)@.push(c),
{
    s.push(c);
}

/// Appends the characters of `chars[start..end]` to `s`.
pub fn push_chars(s: &mut String, chars: &Vec<char>, start: usize, end: usize)
    requires
        start <= end <= chars.len(),
    ensures
        final(s)@ == old(s)@ + chars@.subrange(start as int, end as int),
{
    let ghost initial = s@;
    let mut i = start;
    while i < end
        invariant
            start <= i <= end <= chars.len(),
            s@ == initial + chars@.subrange(start as int, i as int),
        decreases end - i,
    {
        push_char(s, chars[i]);
        i += 1;
        assert(chars@.subrange(start as int, i as int) =~= chars@.subrange(
            start as int,
            (i - 1) as int,
        ).push(chars@[i - 1]));
    }
}

/// Appends all of `t` to `s`.
pub fn push_str(s: &mut String, t: &str)
    ensures
        final(s)@ == old(s)@ + t@,
{
    s.append(t);
}

/// A new string holding `chars[start..end]`.
pub fn string_from_range(chars: &Vec<char>, start: usize, end: usize) -> (out: String)
    requires
        start <= end <= chars.len(),
    ensures
        out@ == chars@.subrange(start as int, end as int),
{
    let mut out = String::new();
    push_chars(&mut out, chars, start, end);
    assert(Seq::<char>::empty() + chars@.subrange(start as int, end as int) =~= chars@.subrange(
        start as int,
        end as int,
    ));
    out
}

/// A new string with the characters of `a` followed by those of `b`.
pub fn joined(a: &str, b: &str) -> (out: String)
    ensures
        out@ == a@ + b@,
{
    a.to_owned().concat(b)
}

/// `char::is_whitespace`, decided by the Unicode `White_Space` list.
pub fn is_whitespace(c: char) -> (b: bool)
    ensures
        b == is_unicode_whitespace(c),
{
    let v = c as u32;
    (0x09 <= v && v <= 0x0d) || v == 0x20 || v == 0x85 || v == 0xa0 || v == 0x1680 || (0x2000 <= v
        && v <= 0x200a) || v == 0x2028 || v == 0x2029 || v == 0x202f || v == 0x205f || v == 0x3000
}

proof fn lemma_trim_start_skip(s: Seq<char>, k: int)
    requires
        0 <= k <= s.len(),
        forall|j: int| 0 <= j < k ==> is_unicode_whitespace(#[trigger] s[j]),
    ensures
        trim_start(s) == trim_start(s.subrange(k, s.len() as int)),
    decreases k,
{
    if k > 0 {
        assert(s.drop_first() =~= s.subrange(1, s.len() as int));
        lemma_trim_start_skip(s.drop_first(), k - 1);
        assert(s.drop_first().subrange(k - 1, s.drop_first().len() as int) =~= s.subrange(
            k,
            s.len() as int,
        ));
    } else {
        assert(s.subrange(0, s.len() as int) =~= s);
    }
}

proof fn lemma_trim_end_skip(s: Seq<char>, k: int)
    requires
        0 <= k <= s.len(),
        forall|j: int| k <= j < s.len() ==> is_unicode_whitespace(#[trigger] s[j]),
    ensures
        trim_end(s) == trim_end(s.subrange(0, k)),
    decreases s.len() - k,
{
    if k < s.len() {
        assert(s.drop_last() =~= s.subrange(0, s.len() - 1));
        lemma_trim_end_skip(s.drop_last(), k);
        assert(s.drop_last().subrange(0, k) =~= s.subrange(0, k));
    } else {
        assert(s.subrange(0, k) =~= s);
    }
}

proof fn lemma_trim_start_first(s: Seq<char>)
    ensures
        trim_start(s).len() > 0 ==> !is_unicode_whitespace(trim_start(s)[0]),
    decreases s.len(),
{
    if s.len() > 0 && is_unicode_whitespace(s[0]) {
        lemma_trim_start_first(s.drop_first());
    }
}

proof fn lemma_trim_end_prefix(s: Seq<char>)
    ensures
        trim_end(s).len() <= s.len(),
        trim_end(s) == s.take(trim_end(s).len() as int),
        trim_end(s).len() > 0 ==> !is_unicode_whitespace(trim_end(s).last()),
    decreases s.len(),
{
    if s.len() > 0 && is_unicode_whitespace(s.last()) {
        lemma_trim_end_prefix(s.drop_last());
        assert(s.drop_last().take(trim_end(s).len() as int) =~= s.take(trim_end(s).len() as int));
    } else {
        assert(s.take(s.len() as int) =~= s);
    }
}

/// Trimming twice is trimming once: trimmed text has no whitespace left
/// at either end.
pub proof fn lemma_trim_idempotent(s: Seq<char>)
    ensures
        trim(trim(s)) == trim(s),
{
    let a = trim_start(s);
    let b = trim_end(a);
    lemma_trim_start_first(s);
    lemma_trim_end_prefix(a);
    if b.len() > 0 {
        assert(b[0] == a[0]);
        assert(trim_start(b) == b);
        assert(trim_end(b) == b);
    } else {
        assert(trim_start(b) == b);
        assert(trim_end(b) == b);
    }
}

/// Whether every character of `s` is Unicode whitespace.
pub open spec fn all_whitespace(s: Seq<char>) -> bool {
    forall|i: int| 0 <= i < s.len() ==> is_unicode_whitespace(#[trigger] s[i])
}

proof fn lemma_trim_start_empty(s: Seq<char>)
    ensures
        trim_start(s).len() == 0 <==> all_whitespace(s),
    decreases s.len(),
{
    if s.len() > 0 && is_unicode_whitespace(s[0]) {
        lemma_trim_start_empty(s.drop_first());
        if all_whitespace(s.drop_first()) {
            assert forall|i: int| 0 <= i < s.len() implies is_unicode_whitespace(#[trigger] s[i]) by {
                if i > 0 {
                    assert(s[i] == s.drop_first()[i - 1]);
                }
            }
        }
        if all_whitespace(s) {
            assert forall|i: int| 0 <= i < s.drop_first().len() implies is_unicode_whitespace(
                #[trigger] s.drop_first()[i],
            ) by {
                assert(s.drop_first()[i] == s[i + 1]);
            }
        }
    } else if s.len() > 0 {
        assert(!is_unicode_whitespace(s[0]));
    }
}

proof fn lemma_trim_end_empty(s: Seq<char>)
    requires
        trim_end(s).len() == 0,
    ensures
        all_whitespace(s),
    decreases s.len(),
{
    if s.len() > 0 {
        lemma_trim_end_empty(s.drop_last());
        assert forall|i: int| 0 <= i < s.len() implies is_unicode_whitespace(#[trigger] s[i]) by {
            if i < s.len() - 1 {
                assert(s[i] == s.drop_last()[i]);
            }
        }
    }
}

/// A text is blank exactly when every character of it is whitespace: one
/// character that is not whitespace keeps it from being blank.
pub proof fn lemma_blank_iff_all_whitespace(s: Seq<char>)
    ensures
        is_blank(s) <==> all_whitespace(s),
{
    let a = trim_start(s);
    lemma_trim_start_empty(s);
    lemma_trim_start_first(s);
    if is_blank(s) {
        lemma_trim_end_empty(a);
        if a.len() > 0 {
            assert(is_unicode_whitespace(a[0]));
        }
    } else if all_whitespace(s) {
        assert(a.len() == 0);
    }
}

proof fn lemma_trim_start_split(s: Seq<char>) -> (k: int)
    ensures
        0 <= k <= s.len(),
        all_whitespace(s.take(k)),
        trim_start(s) == s.skip(k),
    decreases s.len(),
{
    if s.len() > 0 && is_unicode_whitespace(s[0]) {
        let k = lemma_trim_start_split(s.drop_first());
        assert(s.drop_first().skip(k) =~= s.skip(k + 1));
        assert forall|i: int| 0 <= i < s.take(k + 1).len() implies is_unicode_whitespace(
            #[trigger] s.take(k + 1)[i],
        ) by {
            if i > 0 {
                assert(s.take(k + 1)[i] == s.drop_first().take(k)[i - 1]);
            }
        }
        k + 1
    } else {
        assert(s.take(0) =~= Seq::<char>::empty());
        assert(s.skip(0) =~= s);
        0
    }
}

proof fn lemma_trim_end_split(s: Seq<char>) -> (k: int)
    ensures
        0 <= k <= s.len(),
        all_whitespace(s.skip(k)),
        trim_end(s) == s.take(k),
    decreases s.len(),
{
    if s.len() > 0 && is_unicode_whitespace(s.last()) {
        let k = lemma_trim_end_split(s.drop_last());
        assert(s.drop_last().take(k) =~= s.take(k));
        assert forall|i: int| 0 <= i < s.skip(k).len() implies is_unicode_whitespace(#[trigger] s.skip(k)[i]) by {
            if i < s.skip(k).len() - 1 {
                assert(s.skip(k)[i] == s.drop_last().skip(k)[i]);
            } else {
                assert(s.skip(k)[i] == s.last());
            }
        }
        k
    } else {
        assert(s.take(s.len() as int) =~= s);
        assert(s.skip(s.len() as int) =~= Seq::<char>::empty());
        s.len() as int
    }
}

/// Trimming removes whitespace only, and all of it at both ends: the text
/// is some whitespace, then the trimmed text, then some whitespace, and the
/// trimmed text, unless empty, starts and ends with a character that is not
/// whitespace.
pub proof fn lemma_trim_removes_only_edge_whitespace(s: Seq<char>)
    ensures
        exists|l: Seq<char>, r: Seq<char>| all_whitespace(l) && all_whitespace(r) && s == l + trim(s) + r,
        trim(s).len() > 0 ==> !is_unicode_whitespace(trim(s)[0]) && !is_unicode_whitespace(trim(s).last()),
{
    let k = lemma_trim_start_split(s);
    let a = s.skip(k);
    let m = lemma_trim_end_split(a);
    assert(s =~= s.take(k) + a.take(m) + a.skip(m));
    lemma_trim_start_first(s);
    lemma_trim_end_prefix(a);
    if trim(s).len() > 0 {
        assert(trim(s)[0] == a[0]);
    }
}

/// A text with no whitespace at either end is its own trimmed text.
pub proof fn lemma_trim_keeps_inner_text(s: Seq<char>)
    requires
        s.len() > 0,
        !is_unicode_whitespace(s[0]),
        !is_unicode_whitespace(s.last()),
    ensures
        trim(s) == s,
{
}

/// The bounds `[start, end)` of `trim(chars)` within `chars`.
pub fn trim_bounds(chars: &Vec<char>) -> (r: (usize, usize))
    ensures
        r.0 <= r.1 <= chars.len(),
        chars@.subrange(r.0 as int, r.1 as int) == trim(chars@),
{
    let n = chars.len();
    let mut start: usize = 0;
    while start < n && is_whitespace(chars[start])
        invariant
            start <= n == chars.len(),
            forall|j: int| 0 <= j < start ==> is_unicode_whitespace(#[trigger] chars@[j]),
        decreases n - start,
    {
        start += 1;
    }
    proof {
        lemma_trim_start_skip(chars@, start as int);
    }
    let ghost rest = chars@.subrange(start as int, n as int);
    assert(trim_start(rest) == rest);
    let mut end: usize = n;
    while end > start && is_whitespace(chars[end - 1])
        invariant
            start <= end <= n == chars.len(),
            rest == chars@.subrange(start as int, n as int),
            forall|j: int| end <= j < n ==> is_unicode_whitespace(#[trigger] chars@[j]),
        decreases end,
    {
        end -= 1;
    }
    proof {
        assert forall|j: int| (end - start) <= j < rest.len() implies is_unicode_whitespace(
            #[trigger] rest[j],
        ) by {
            assert(rest[j] == chars@[start + j]);
        }
        lemma_trim_end_skip(rest, end - start);
        assert(rest.subrange(0, end - start) =~= chars@.subrange(start as int, end as int));
        let t = chars@.subrange(start as int, end as int);
        if t.len() > 0 {
            assert(t.last() == chars@[end - 1]);
        }
        assert(trim_end(t) == t);
    }
    (start, end)
}

/// `str::trim`: the string without leading and trailing whitespace.
pub fn trimmed(s: &str) -> (out: String)
    ensures
        out@ == trim(s@),
{
    let chars = chars_of(s);
    let (start, end) = trim_bounds(&chars);
    string_from_range(&chars, start, end)
}

/// Whether nothing but whitespace is in `s`.
pub fn blank(s: &str) -> (b: bool)
    ensures
        b == is_blank(s@),
{
    let chars = chars_of(s);
    let (start, end) = trim_bounds(&chars);
    start == end
}

/// The number of characters in `s`, as `s.chars().count()` gives it.
pub fn char_count(s: &str) -> (n: usize)
    ensures
        n == s@.len(),
{
    let chars = chars_of(s);
    chars.len()
}

fn digit(d: u64) -> (c: char)
    requires
        d < 10,
    ensures
        c == digit_char(d as nat),
{
    if d == 0 {
        '0'
    } else if d == 1 {
        '1'
    } else if d == 2 {
        '2'
    } else if d == 3 {
        '3'
    } else if d == 4 {
        '4'
    } else if d == 5 {
        '5'
    } else if d == 6 {
        '6'
    } else if d == 7 {
        '7'
    } else if d == 8 {
        '8'
    } else {
        '9'
    }
}

/// Appends the decimal representation of `n` to `s`.
pub fn push_decimal(s: &mut String, n: u64)
    ensures
        final(s)@ == old(s)@ + decimal(n as nat),
    decreases n,
{
    if n >= 10 {
        push_decimal(s, n / 10);
    }
    push_char(s, digit(n % 10));
    proof {
        if n >= 10 {
            assert(old(s)@ + decimal((n / 10) as nat) + seq![digit_char((n % 10) as nat)] =~= old(
                s,
            )@ + decimal(n as nat));
        } else {
            assert(old(s)@.push(digit_char(n as nat)) =~= old(s)@ + decimal(n as nat));
        }
    }
}

/// Whether `s` starts with `prefix`.
pub fn has_prefix(s: &Vec<char>, prefix: &str) -> (b: bool)
    ensures
        b == (prefix@.len() <= s@.len() && s@.subrange(0, prefix@.len() as int) == prefix@),
{
    let p = chars_of(prefix);
    if p.len() > s.len() {
        return false;
    }
    let mut i: usize = 0;
    while i < p.len()
        invariant
            i <= p.len() <= s.len(),
            p@ == prefix@,
            forall|j: int| 0 <= j < i ==> s@[j] == p@[j],
        decreases p.len() - i,
    {
        if s[i] != p[i] {
            assert(s@.subrange(0, p@.len() as int)[i as int] != prefix@[i as int]);
            return false;
        }
        i += 1;
    }
    assert(s@.subrange(0, p@.len() as int) =~= prefix@);
    true
}

/// Whether two strings hold the same characters.
pub fn str_eq(a: &str, b: &str) -> (r: bool)
    ensures
        r == (a@ == b@),
{
    let x = chars_of(a);
    let y = chars_of(b);
    if x.len() != y.len() {
        return false;
    }
    let mut i: usize = 0;
    while i < x.len()
        invariant
            i <= x.len() == y.len(),
            x@ == a@,
            y@ == b@,
            forall|j: int| 0 <= j < i ==> x@[j] == y@[j],
        decreases x.len() - i,
    {
        if x[i] != y[i] {
            return false;
        }
        i += 1;
    }
    assert(x@ =~= y@);
    true
}

} // verus!
