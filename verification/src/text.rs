//! Text, character by character: trimming, case, numbers, searching.
//!
//! Everything here works on the characters of a string, so a contract can say
//! what a result is in terms of `Seq<char>` and nothing else.

use vstd::prelude::*;

verus! {

/// The characters of a string, in order.
pub fn chars_of(s: &str) -> (v: Vec<char>)
    ensures
        v@ == s@,
{
    let mut v: Vec<char> = Vec::new();
    for c in it: s.chars()
        invariant
            v@ == it.seq().take(it.index() as int),
            it.seq() == s@,
    {
        v.push(c);
    }
    v
}

/// Appends one character.
///
/// Trusted: `String::push`, which appends the character to the end of the
/// string.
#[verifier::external_body]
fn push_char(s: &mut String, c: char)
    ensures
        final(s)@ == old(s)@.push(c),
{
    s.push(c)
}

/// A string holding exactly these characters.
pub(crate) fn string_from(chars: &[char]) -> (s: String)
    ensures
        s@ == chars@,
{
    let mut s = String::new();
    for i in 0..chars.len()
        invariant
            s@ == chars@.take(i as int),
    {
        push_char(&mut s, chars[i]);
        assert(s@ =~= chars@.take(i + 1));
    }
    assert(chars@.take(chars@.len() as int) =~= chars@);
    s
}

/// A string that is the first followed by the second.
pub fn joined(first: &str, second: &str) -> (s: String)
    ensures
        s@ == first@ + second@,
{
    let mut s = first.to_owned();
    s.append(second);
    s
}

/// Whether two texts are the same characters.
pub fn same(a: &str, b: &str) -> (eq: bool)
    ensures
        eq == (a@ == b@),
{
    let x = chars_of(a);
    let y = chars_of(b);
    if x.len() != y.len() {
        return false;
    }
    for i in 0..x.len()
        invariant
            x@ == a@,
            y@ == b@,
            x@.len() == y@.len(),
            forall|j: int| 0 <= j < i ==> #[trigger] a@[j] == b@[j],
    {
        if x[i] != y[i] {
            return false;
        }
    }
    assert(a@ =~= b@);
    true
}

// ------------------------------------------------------------------ whitespace

/// Unicode's `White_Space` property, which is what `char::is_whitespace` reads.
pub open spec fn is_whitespace(c: char) -> bool {
    let n = c as u32;
    ||| 0x09 <= n <= 0x0d
    ||| n == 0x20
    ||| n == 0x85
    ||| n == 0xa0
    ||| n == 0x1680
    ||| 0x2000 <= n <= 0x200a
    ||| n == 0x2028
    ||| n == 0x2029
    ||| n == 0x202f
    ||| n == 0x205f
    ||| n == 0x3000
}

pub fn whitespace(c: char) -> (b: bool)
    ensures
        b == is_whitespace(c),
{
    let n = c as u32;
    (0x09 <= n && n <= 0x0d) || n == 0x20 || n == 0x85 || n == 0xa0 || n == 0x1680 || (0x2000 <= n
        && n <= 0x200a) || n == 0x2028 || n == 0x2029 || n == 0x202f || n == 0x205f || n == 0x3000
}

/// The text without leading whitespace.
pub open spec fn trim_start(s: Seq<char>) -> Seq<char>
    decreases s.len(),
{
    if s.len() > 0 && is_whitespace(s[0]) {
        trim_start(s.drop_first())
    } else {
        s
    }
}

/// The text without trailing whitespace.
pub open spec fn trim_end(s: Seq<char>) -> Seq<char>
    decreases s.len(),
{
    if s.len() > 0 && is_whitespace(s.last()) {
        trim_end(s.drop_last())
    } else {
        s
    }
}

/// The text without whitespace at either end, as `str::trim` has it.
pub open spec fn trimmed(s: Seq<char>) -> Seq<char> {
    trim_end(trim_start(s))
}

/// Whether the text is nothing but whitespace, or nothing at all.
pub open spec fn blank(s: Seq<char>) -> bool {
    forall|i: int| 0 <= i < s.len() ==> is_whitespace(#[trigger] s[i])
}

proof fn lemma_trim_start_of_blank(s: Seq<char>)
    requires
        blank(s),
    ensures
        trim_start(s).len() == 0,
    decreases s.len(),
{
    if s.len() > 0 {
        assert(is_whitespace(s[0]));
        assert(blank(s.drop_first())) by {
            assert forall|i: int| 0 <= i < s.drop_first().len() implies is_whitespace(
                #[trigger] s.drop_first()[i],
            ) by {
                assert(s.drop_first()[i] == s[i + 1]);
            }
        }
        lemma_trim_start_of_blank(s.drop_first());
    }
}

proof fn lemma_trim_start_not_blank(s: Seq<char>)
    requires
        !blank(s),
    ensures
        trim_start(s).len() > 0,
        !is_whitespace(trim_start(s)[0]),
    decreases s.len(),
{
    if s.len() > 0 && is_whitespace(s[0]) {
        assert(!blank(s.drop_first())) by {
            let i = choose|i: int| 0 <= i < s.len() && !is_whitespace(#[trigger] s[i]);
            assert(i != 0);
            assert(s.drop_first()[i - 1] == s[i]);
        }
        lemma_trim_start_not_blank(s.drop_first());
    }
}

proof fn lemma_trim_end_keeps_first(s: Seq<char>)
    requires
        s.len() > 0,
        !is_whitespace(s[0]),
    ensures
        trim_end(s).len() > 0,
        trim_end(s)[0] == s[0],
    decreases s.len(),
{
    if is_whitespace(s.last()) {
        assert(s.len() > 1);
        assert(s.drop_last()[0] == s[0]);
        lemma_trim_end_keeps_first(s.drop_last());
    }
}

/// Trimming whole text is blank exactly when the text was.
pub proof fn lemma_trimmed_empty_iff_blank(s: Seq<char>)
    ensures
        (trimmed(s).len() == 0) == blank(s),
{
    if blank(s) {
        lemma_trim_start_of_blank(s);
    } else {
        lemma_trim_start_not_blank(s);
        lemma_trim_end_keeps_first(trim_start(s));
    }
}

proof fn lemma_trim_end_ends_clean(s: Seq<char>)
    ensures
        trim_end(s).len() > 0 ==> !is_whitespace(trim_end(s).last()),
    decreases s.len(),
{
    if s.len() > 0 && is_whitespace(s.last()) {
        lemma_trim_end_ends_clean(s.drop_last());
    }
}

/// Text with something in it and no whitespace at either end.
pub open spec fn tidy(s: Seq<char>) -> bool {
    s.len() > 0 && !is_whitespace(s[0]) && !is_whitespace(s.last())
}

/// **What trimming leaves is tidy**, unless it leaves nothing.
pub proof fn lemma_trimmed_is_tidy(s: Seq<char>)
    ensures
        trimmed(s).len() > 0 ==> tidy(trimmed(s)),
{
    lemma_trimmed_empty_iff_blank(s);
    lemma_trim_end_ends_clean(trim_start(s));
    if !blank(s) {
        lemma_trim_start_not_blank(s);
        lemma_trim_end_keeps_first(trim_start(s));
    }
}

/// The text without whitespace at either end.
pub fn trim(s: &str) -> (t: &str)
    ensures
        t@ == trimmed(s@),
{
    let chars = chars_of(s);
    let n = chars.len();
    let mut start: usize = 0;
    assert(s@.subrange(0, n as int) =~= s@);
    while start < n && whitespace(chars[start])
        invariant
            n == chars@.len(),
            chars@ == s@,
            start <= n,
            trim_start(s@) == trim_start(s@.subrange(start as int, n as int)),
        decreases n - start,
    {
        let ghost rest = s@.subrange(start as int, n as int);
        assert(rest.drop_first() =~= s@.subrange(start + 1, n as int));
        start = start + 1;
    }
    assert(trim_start(s@) == s@.subrange(start as int, n as int));
    let mut end: usize = n;
    while end > start && whitespace(chars[end - 1])
        invariant
            n == chars@.len(),
            chars@ == s@,
            start <= end <= n,
            trimmed(s@) == trim_end(s@.subrange(start as int, end as int)),
        decreases end,
    {
        let ghost rest = s@.subrange(start as int, end as int);
        assert(rest.drop_last() =~= s@.subrange(start as int, end - 1));
        end = end - 1;
    }
    s.substring_char(start, end)
}

// ------------------------------------------------------------------------ case

/// ASCII's upper-case letters made lower case; every other character kept.
pub open spec fn ascii_lower(c: char) -> char {
    if 'A' <= c <= 'Z' {
        ((c as u32) + 32) as char
    } else {
        c
    }
}

/// The text with ASCII letters lower-cased, as `str::to_ascii_lowercase` has it.
pub open spec fn ascii_lowered(s: Seq<char>) -> Seq<char> {
    s.map_values(|c: char| ascii_lower(c))
}

pub fn lower_char(c: char) -> (d: char)
    ensures
        d == ascii_lower(c),
{
    if 'A' <= c && c <= 'Z' {
        let b: u8 = (c as u32 - 65) as u8 + 97;
        b as char
    } else {
        c
    }
}

/// The text with ASCII letters lower-cased.
pub fn to_ascii_lowercase(s: &str) -> (t: String)
    ensures
        t@ == ascii_lowered(s@),
{
    let chars = chars_of(s);
    let mut out: Vec<char> = Vec::new();
    for i in 0..chars.len()
        invariant
            chars@ == s@,
            out@ == ascii_lowered(s@).take(i as int),
    {
        out.push(lower_char(chars[i]));
        assert(out@ =~= ascii_lowered(s@).take(i + 1));
    }
    assert(out@ =~= ascii_lowered(s@));
    string_from(out.as_slice())
}

/// Whether two texts are equal once ASCII case is set aside.
pub fn eq_ignore_ascii_case(a: &str, b: &str) -> (same: bool)
    ensures
        same == (ascii_lowered(a@) == ascii_lowered(b@)),
{
    let x = chars_of(a);
    let y = chars_of(b);
    if x.len() != y.len() {
        proof {
            assert(ascii_lowered(a@).len() != ascii_lowered(b@).len());
        }
        return false;
    }
    for i in 0..x.len()
        invariant
            x@ == a@,
            y@ == b@,
            x@.len() == y@.len(),
            forall|j: int| 0 <= j < i ==> ascii_lower(#[trigger] a@[j]) == ascii_lower(b@[j]),
    {
        if lower_char(x[i]) != lower_char(y[i]) {
            proof {
                assert(ascii_lowered(a@)[i as int] != ascii_lowered(b@)[i as int]);
            }
            return false;
        }
    }
    proof {
        assert(ascii_lowered(a@) =~= ascii_lowered(b@));
    }
    true
}

// ------------------------------------------------------------------- searching

/// Whether `needle` occurs in `hay` starting at `at`.
pub open spec fn occurs_at(hay: Seq<char>, needle: Seq<char>, at: int) -> bool {
    0 <= at && at + needle.len() <= hay.len() && hay.subrange(at, at + needle.len()) == needle
}

/// Whether `needle` occurs anywhere in `hay`.
pub open spec fn occurs(hay: Seq<char>, needle: Seq<char>) -> bool {
    exists|at: int| occurs_at(hay, needle, at)
}

/// Where `needle` first occurs in `chars`, counted in characters.
pub fn find(chars: &[char], needle: &[char]) -> (found: Option<usize>)
    ensures
        match found {
            Some(at) => occurs_at(chars@, needle@, at as int) && forall|j: int|
                0 <= j < at ==> !occurs_at(chars@, needle@, j),
            None => forall|j: int| !occurs_at(chars@, needle@, j),
        },
{
    let n = chars.len();
    let m = needle.len();
    if m > n {
        return None;
    }
    let mut at: usize = 0;
    while at <= n - m
        invariant
            n == chars@.len(),
            m == needle@.len(),
            m <= n,
            at <= n - m + 1,
            forall|j: int| 0 <= j < at ==> !occurs_at(chars@, needle@, j),
        decreases n - m + 1 - at,
    {
        let mut k: usize = 0;
        while k < m && chars[at + k] == needle[k]
            invariant
                n == chars@.len(),
                m == needle@.len(),
                at + m <= n,
                k <= m,
                forall|q: int| 0 <= q < k ==> chars@[at + q] == needle@[q],
            decreases m - k,
        {
            k = k + 1;
        }
        if k == m {
            assert(chars@.subrange(at as int, at + m) =~= needle@);
            return Some(at);
        }
        assert(!occurs_at(chars@, needle@, at as int)) by {
            if occurs_at(chars@, needle@, at as int) {
                assert(chars@.subrange(at as int, at + m)[k as int] == chars@[at + k]);
            }
        }
        at = at + 1;
    }
    None
}

/// Whether `needle` occurs anywhere in `hay`.
pub fn contains(hay: &str, needle: &str) -> (found: bool)
    ensures
        found == occurs(hay@, needle@),
{
    let h = chars_of(hay);
    let n = chars_of(needle);
    match find(h.as_slice(), n.as_slice()) {
        Some(at) => true,
        None => false,
    }
}

// --------------------------------------------------------------------- numbers

/// The digit character for a value below ten.
pub open spec fn digit(d: int) -> char {
    (d + 48) as char
}

/// Whether a character is an ASCII digit.
pub open spec fn is_digit(c: char) -> bool {
    '0' <= c <= '9'
}

/// A natural number in decimal, without leading zeros.
pub open spec fn decimal(n: nat) -> Seq<char>
    decreases n,
{
    if n < 10 {
        seq![digit(n as int)]
    } else {
        decimal(n / 10).push(digit((n % 10) as int))
    }
}

/// An integer in decimal, with a minus sign when negative.
pub open spec fn signed_decimal(n: int) -> Seq<char> {
    if n < 0 {
        seq!['-'] + decimal((-n) as nat)
    } else {
        decimal(n as nat)
    }
}

/// The value of a run of ASCII digits.
pub open spec fn digits_value(s: Seq<char>) -> int
    decreases s.len(),
{
    if s.len() == 0 {
        0
    } else {
        digits_value(s.drop_last()) * 10 + (s.last() as int - 48)
    }
}

pub open spec fn all_digits(s: Seq<char>) -> bool {
    forall|i: int| 0 <= i < s.len() ==> is_digit(#[trigger] s[i])
}

/// What `u64::from_str` makes of a text: an optional `+`, then at least one
/// digit, and a value that fits.
pub open spec fn parsed_u64(s: Seq<char>) -> Option<u64> {
    let digits = if s.len() > 0 && s[0] == '+' {
        s.drop_first()
    } else {
        s
    };
    if digits.len() > 0 && all_digits(digits) && digits_value(digits) <= u64::MAX {
        Some(digits_value(digits) as u64)
    } else {
        None
    }
}

fn digit_text(d: u64) -> (s: &'static str)
    requires
        d < 10,
    ensures
        s@ == seq![digit(d as int)],
{
    proof {
        reveal_strlit("0");
        reveal_strlit("1");
        reveal_strlit("2");
        reveal_strlit("3");
        reveal_strlit("4");
        reveal_strlit("5");
        reveal_strlit("6");
        reveal_strlit("7");
        reveal_strlit("8");
        reveal_strlit("9");
    }
    let s = match d {
        0 => "0",
        1 => "1",
        2 => "2",
        3 => "3",
        4 => "4",
        5 => "5",
        6 => "6",
        7 => "7",
        8 => "8",
        _ => "9",
    };
    assert(s@ =~= seq![digit(d as int)]);
    s
}

/// Appends a natural number in decimal.
pub fn push_decimal(out: &mut String, n: u64)
    ensures
        final(out)@ == old(out)@ + decimal(n as nat),
    decreases n,
{
    if n >= 10 {
        push_decimal(out, n / 10);
    }
    out.append(digit_text(n % 10));
    proof {
        if n >= 10 {
            assert(decimal(n as nat) == decimal((n / 10) as nat).push(digit((n % 10) as int)));
        }
    }
    assert(final(out)@ =~= old(out)@ + decimal(n as nat));
}

/// Appends an integer in decimal, with a minus sign when negative.
pub fn push_signed(out: &mut String, n: i64)
    ensures
        final(out)@ == old(out)@ + signed_decimal(n as int),
{
    if n < 0 {
        out.append("-");
        proof {
            reveal_strlit("-");
        }
        let magnitude: u64 = (-(n as i128)) as u64;
        push_decimal(out, magnitude);
        assert(final(out)@ =~= old(out)@ + signed_decimal(n as int));
    } else {
        push_decimal(out, n as u64);
    }
}

/// A natural number in decimal.
pub fn decimal_text(n: u64) -> (s: String)
    ensures
        s@ == decimal(n as nat),
{
    let mut s = String::new();
    push_decimal(&mut s, n);
    assert(s@ =~= decimal(n as nat));
    s
}

/// An integer in decimal.
pub fn signed_text(n: i64) -> (s: String)
    ensures
        s@ == signed_decimal(n as int),
{
    let mut s = String::new();
    push_signed(&mut s, n);
    assert(s@ =~= signed_decimal(n as int));
    s
}

proof fn lemma_digits_value_nonneg(s: Seq<char>)
    requires
        all_digits(s),
    ensures
        digits_value(s) >= 0,
    decreases s.len(),
{
    if s.len() > 0 {
        assert(all_digits(s.drop_last())) by {
            assert forall|i: int| 0 <= i < s.drop_last().len() implies is_digit(
                #[trigger] s.drop_last()[i],
            ) by {
                assert(s.drop_last()[i] == s[i]);
            }
        }
        lemma_digits_value_nonneg(s.drop_last());
        assert(is_digit(s[s.len() - 1]));
    }
}

/// A longer run of digits is worth at least as much as its beginning.
proof fn lemma_digits_value_grows(s: Seq<char>, k: int)
    requires
        all_digits(s),
        0 <= k <= s.len(),
    ensures
        digits_value(s.take(k)) <= digits_value(s),
    decreases s.len() - k,
{
    if k < s.len() {
        let t = s.take(k + 1);
        assert(t.drop_last() =~= s.take(k));
        assert(all_digits(t)) by {
            assert forall|i: int| 0 <= i < t.len() implies is_digit(#[trigger] t[i]) by {
                assert(t[i] == s[i]);
            }
        }
        assert(all_digits(s.take(k))) by {
            assert forall|i: int| 0 <= i < k implies is_digit(#[trigger] s.take(k)[i]) by {
                assert(s.take(k)[i] == s[i]);
            }
        }
        lemma_digits_value_nonneg(s.take(k));
        assert(is_digit(t.last()));
        assert(digits_value(t) >= digits_value(s.take(k)));
        lemma_digits_value_grows(s, k + 1);
    } else {
        assert(s.take(k) =~= s);
    }
}

/// The value of a run of digits, or nothing when it does not fit.
fn digits_u64(chars: &[char], from: usize) -> (v: Option<u64>)
    requires
        from <= chars@.len(),
    ensures
        ({
            let d = chars@.subrange(from as int, chars@.len() as int);
            match v {
                Some(x) => d.len() > 0 && all_digits(d) && digits_value(d) == x,
                None => !(d.len() > 0 && all_digits(d) && digits_value(d) <= u64::MAX),
            }
        }),
{
    let n = chars.len();
    let ghost d = chars@.subrange(from as int, n as int);
    if from == n {
        return None;
    }
    let mut value: u64 = 0;
    let mut i: usize = from;
    while i < n
        invariant
            n == chars@.len(),
            from < n,
            from <= i <= n,
            d == chars@.subrange(from as int, n as int),
            all_digits(d.take(i - from)),
            value == digits_value(d.take(i - from)),
        decreases n - i,
    {
        let c = chars[i];
        if !('0' <= c && c <= '9') {
            proof {
                assert(d[i - from] == c);
            }
            return None;
        }
        let ghost t = d.take(i - from + 1);
        let ghost next = digits_value(d.take(i - from)) * 10 + (c as int - 48);
        assert(t.drop_last() =~= d.take(i - from));
        assert(t.last() == c);
        assert(digits_value(t) == next);
        assert(all_digits(t)) by {
            assert forall|q: int| 0 <= q < t.len() implies is_digit(#[trigger] t[q]) by {
                if q < t.len() - 1 {
                    assert(t[q] == d.take(i - from)[q]);
                }
            }
        }
        let digit_value: u64 = (c as u32 - 48) as u64;
        if value > (u64::MAX - digit_value) / 10 {
            proof {
                assert(next > u64::MAX) by (nonlinear_arith)
                    requires
                        value > (u64::MAX - digit_value) / 10,
                        next == value * 10 + digit_value,
                        0 <= digit_value < 10,
                ;
                if all_digits(d) {
                    lemma_digits_value_grows(d, i - from + 1);
                    assert(d.take(i - from + 1) == t);
                }
            }
            return None;
        }
        assert(value * 10 + digit_value <= u64::MAX) by (nonlinear_arith)
            requires
                value <= (u64::MAX - digit_value) / 10,
                0 <= digit_value < 10,
        ;
        value = value * 10 + digit_value;
        i = i + 1;
    }
    assert(d.take(n - from) =~= d);
    Some(value)
}

/// What `u64::from_str` makes of a text.
pub fn parse_u64(s: &str) -> (v: Option<u64>)
    ensures
        v == parsed_u64(s@),
{
    let chars = chars_of(s);
    if chars.len() > 0 && chars[0] == '+' {
        assert(chars@.subrange(1, chars@.len() as int) =~= s@.drop_first());
        digits_u64(chars.as_slice(), 1)
    } else {
        assert(chars@.subrange(0, chars@.len() as int) =~= s@);
        digits_u64(chars.as_slice(), 0)
    }
}

/// The value of a run of digits that fits an `i64`, or nothing.
pub fn parse_digits_i64(chars: &[char]) -> (v: Option<i64>)
    ensures
        match v {
            Some(x) => chars@.len() > 0 && all_digits(chars@) && digits_value(chars@) == x,
            None => !(chars@.len() > 0 && all_digits(chars@) && digits_value(chars@)
                <= i64::MAX),
        },
{
    assert(chars@.subrange(0, chars@.len() as int) =~= chars@);
    match digits_u64(chars, 0) {
        Some(x) => {
            if x <= i64::MAX as u64 {
                Some(x as i64)
            } else {
                None
            }
        },
        None => None,
    }
}

} // verus!

verus! {

// ------------------------------------------------------------- quoting a name

/// A text as `{:?}` prints a `str`: in double quotes, with a double quote,
/// a backslash and the characters Rust does not print as they are written as
/// escapes (a single quote stays as it is).
pub uninterp spec fn debug_quoted(s: Seq<char>) -> Seq<char>;

/// The text in quotes, as `{:?}` prints a `str`.
///
/// Trusted: the standard library's `Debug` for `str`, whose result depends on
/// the text alone.
#[verifier::external_body]
pub(crate) fn quoted(s: &str) -> (q: String)
    ensures
        q@ == debug_quoted(s@),
{
    format!("{s:?}")
}

/// A list of texts as `{:?}` prints a list of them: in square brackets, each
/// one quoted, separated by a comma and a space.
pub open spec fn debug_list(items: Seq<Seq<char>>) -> Seq<char>
    decreases items.len(),
{
    if items.len() == 0 {
        seq!['[', ']']
    } else {
        seq!['['] + debug_items(items) + seq![']']
    }
}

/// The quoted items of a non-empty list, separated by a comma and a space.
pub open spec fn debug_items(items: Seq<Seq<char>>) -> Seq<char>
    decreases items.len(),
{
    if items.len() <= 1 {
        if items.len() == 0 {
            Seq::empty()
        } else {
            debug_quoted(items[0])
        }
    } else {
        debug_items(items.drop_last()) + seq![',', ' '] + debug_quoted(items.last())
    }
}

/// A list of texts as `{:?}` prints it.
pub fn quoted_list(items: &[String]) -> (q: String)
    ensures
        q@ == debug_list(items@.map_values(|s: String| s@)),
{
    let ghost all = items@.map_values(|s: String| s@);
    let mut q = String::new();
    q.append("[");
    proof {
        reveal_strlit("[");
        reveal_strlit(", ");
        reveal_strlit("]");
    }
    assert("["@ =~= seq!['[']);
    for i in 0..items.len()
        invariant
            all == items@.map_values(|s: String| s@),
            q@ == seq!['['] + debug_items(all.take(i as int)),
    {
        let ghost before = q@;
        if i > 0 {
            q.append(", ");
        }
        let ghost middle = q@;
        let one = quoted(items[i].as_str());
        q.append(one.as_str());
        proof {
            let t = all.take(i + 1);
            assert(t.drop_last() =~= all.take(i as int));
            assert(t.last() == items@[i as int]@);
            if i == 0 {
                assert(middle == before);
                assert(debug_items(t) == debug_quoted(t[0]));
                assert(all.take(0) =~= Seq::<Seq<char>>::empty());
                assert(q@ =~= seq!['['] + debug_items(t));
            } else {
                reveal_strlit(", ");
                assert(", "@ =~= seq![',', ' ']);
                assert(middle == before + seq![',', ' ']);
                assert(debug_items(t) == debug_items(all.take(i as int)) + seq![',', ' ']
                    + debug_quoted(t.last()));
                assert(q@ =~= seq!['['] + debug_items(t));
            }
        }
        assert(q@ =~= seq!['['] + debug_items(all.take(i + 1)));
    }
    q.append("]");
    assert("]"@ =~= seq![']']);
    assert(all.take(items@.len() as int) =~= all);
    assert(q@ =~= debug_list(all));
    q
}

} // verus!

verus! {

// --------------------------------------------------------------------- pieces

/// Splitting so far: the finished pieces, and the one still being read.
pub open spec fn split_state(s: Seq<char>, sep: char) -> (Seq<Seq<char>>, Seq<char>)
    decreases s.len(),
{
    if s.len() == 0 {
        (Seq::empty(), Seq::empty())
    } else {
        let (done, current) = split_state(s.drop_last(), sep);
        if s.last() == sep {
            (done.push(current), Seq::empty())
        } else {
            (done, current.push(s.last()))
        }
    }
}

/// The pieces between separators, as `str::split` yields them: empty pieces
/// included, and one piece for a text with no separator.
pub open spec fn pieces(s: Seq<char>, sep: char) -> Seq<Seq<char>> {
    split_state(s, sep).0.push(split_state(s, sep).1)
}

/// The pieces between separators.
pub fn split(s: &str, sep: char) -> (parts: Vec<String>)
    ensures
        parts.deep_view() == pieces(s@, sep),
{
    let chars = chars_of(s);
    let mut done: Vec<String> = Vec::new();
    let mut current: Vec<char> = Vec::new();
    for i in 0..chars.len()
        invariant
            chars@ == s@,
            (done.deep_view(), current@) == split_state(s@.take(i as int), sep),
    {
        let ghost t = s@.take(i + 1);
        assert(t.drop_last() =~= s@.take(i as int));
        assert(t.last() == chars@[i as int]);
        if chars[i] == sep {
            let piece = string_from(current.as_slice());
            let ghost before = done.deep_view();
            done.push(piece);
            assert(done.deep_view() =~= before.push(current@));
            current = Vec::new();
            assert(current@ =~= Seq::<char>::empty());
        } else {
            current.push(chars[i]);
        }
    }
    assert(s@.take(chars@.len() as int) =~= s@);
    let ghost before = done.deep_view();
    let last = string_from(current.as_slice());
    done.push(last);
    assert(done.deep_view() =~= before.push(current@));
    done
}

// ------------------------------------------------------------------ lowering

/// What `str::to_lowercase` makes of a text: Unicode's lower-case mapping,
/// character by character, with the context rules Unicode gives.
pub uninterp spec fn unicode_lowercase(s: Seq<char>) -> Seq<char>;

/// The text in lower case, as Unicode defines it.
///
/// Trusted: the standard library's `str::to_lowercase`, whose result depends on
/// the text alone.
#[verifier::external_body]
pub(crate) fn lowercase(s: &str) -> (t: String)
    ensures
        t@ == unicode_lowercase(s@),
{
    s.to_lowercase()
}

} // verus!
