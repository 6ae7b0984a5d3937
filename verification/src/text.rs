//! Text helpers: trimming, decimal numbers and building strings.

use vstd::prelude::*;

verus! {

/// Whether `c` has the Unicode White_Space property, as `char::is_whitespace`
/// tells: the controls from tab to carriage return, space, next line,
/// no-break space, ogham space mark, the spaces from en quad to hair space,
/// the line and paragraph separators, narrow no-break space, medium
/// mathematical space and ideographic space.
pub open spec fn char_is_whitespace(c: char) -> bool {
    let v = c as u32;
    ||| 0x09 <= v <= 0x0D
    ||| v == 0x20
    ||| v == 0x85
    ||| v == 0xA0
    ||| v == 0x1680
    ||| 0x2000 <= v <= 0x200A
    ||| v == 0x2028
    ||| v == 0x2029
    ||| v == 0x202F
    ||| v == 0x205F
    ||| v == 0x3000
}

/// Whether `c` is whitespace, as `char::is_whitespace` tells.
pub fn is_whitespace(c: char) -> (r: bool)
    ensures
        r == char_is_whitespace(c),
{
    let v = c as u32;
    (0x09 <= v && v <= 0x0D) || v == 0x20 || v == 0x85 || v == 0xA0 || v == 0x1680 || (0x2000 <= v
        && v <= 0x200A) || v == 0x2028 || v == 0x2029 || v == 0x202F || v == 0x205F || v == 0x3000
}

/// Whether `char::is_alphabetic` holds of `c`: the Unicode Alphabetic
/// property.
pub uninterp spec fn char_is_alphabetic(c: char) -> bool;

/// Whether `c` is one of the ASCII letters `A`-`Z` and `a`-`z`.
pub open spec fn is_ascii_letter(c: char) -> bool {
    0x41 <= (c as u32) <= 0x5A || 0x61 <= (c as u32) <= 0x7A
}

/// `char::is_alphabetic` of std; its result is named by
/// `char_is_alphabetic`. Among ASCII characters the Alphabetic property
/// holds of the letters `A`-`Z` and `a`-`z` alone.
#[verifier::external_body]
pub(crate) fn is_alphabetic(c: char) -> (r: bool)
    ensures
        r == char_is_alphabetic(c),
        (c as u32) < 0x80 ==> (r <==> is_ascii_letter(c)),
{
    c.is_alphabetic()
}

/// `String::push` of std: appends one character.
#[verifier::external_body]
pub(crate) fn push_char(s: &mut String, c: char)
    ensures
        final(s)@ == old(s)@.push(c),
{
    s.push(c)
}

/// The characters of a string, in order.
pub fn chars_of(s: &String) -> (r: Vec<char>)
    ensures
        r@ == s@,
{
    let mut r: Vec<char> = Vec::new();
    for c in it: s.as_str().chars()
        invariant
            r@ == it.seq().subrange(0, it.index()),
    {
        r.push(c);
    }
    r
}

/// The characters of a string slice, in order.
pub fn str_chars(s: &str) -> (r: Vec<char>)
    ensures
        r@ == s@,
{
    let mut r: Vec<char> = Vec::new();
    for c in it: s.chars()
        invariant
            r@ == it.seq().subrange(0, it.index()),
    {
        r.push(c);
    }
    r
}

/// Whether a string holds exactly the text `t`.
pub fn same_text(s: &String, t: &str) -> (r: bool)
    ensures
        r == (s@ == t@),
{
    let a = chars_of(s);
    let b = str_chars(t);
    if a.len() != b.len() {
        return false;
    }
    let mut i: usize = 0;
    while i < a.len()
        invariant
            a@ == s@,
            b@ == t@,
            a@.len() == b@.len(),
            i <= a@.len(),
            forall|k: int| 0 <= k < i ==> a@[k] == b@[k],
        decreases a@.len() - i,
    {
        if a[i] != b[i] {
            return false;
        }
        i = i + 1;
    }
    assert(a@ =~= b@);
    true
}

/// Whether a string begins with the character `c`.
pub fn starts_with_char(s: &String, c: char) -> (r: bool)
    ensures
        r == (s@.len() > 0 && s@[0] == c),
{
    let a = chars_of(s);
    a.len() > 0 && a[0] == c
}

/// Appends the characters `chars[from .. to]`.
pub fn push_chars(s: &mut String, chars: &Vec<char>, from: usize, to: usize)
    requires
        from <= to <= chars@.len(),
    ensures
        final(s)@ == old(s)@ + chars@.subrange(from as int, to as int),
{
    let ghost start = s@;
    let mut i = from;
    while i < to
        invariant
            from <= i <= to <= chars@.len(),
            s@ == start + chars@.subrange(from as int, i as int),
        decreases to - i,
    {
        push_char(s, chars[i]);
        i = i + 1;
        assert(chars@.subrange(from as int, i as int) == chars@.subrange(from as int, i - 1).push(
            chars@[i - 1],
        ));
    }
}

/// A string made of `chars[from .. to]`.
pub fn string_from_chars(chars: &Vec<char>, from: usize, to: usize) -> (s: String)
    requires
        from <= to <= chars@.len(),
    ensures
        s@ == chars@.subrange(from as int, to as int),
{
    let mut s = String::new();
    push_chars(&mut s, chars, from, to);
    assert(Seq::<char>::empty() + chars@.subrange(from as int, to as int) == chars@.subrange(
        from as int,
        to as int,
    ));
    s
}

/// Appends all of `t`.
pub fn push_str(s: &mut String, t: &String)
    ensures
        final(s)@ == old(s)@ + t@,
{
    let chars = chars_of(t);
    push_chars(s, &chars, 0, chars.len());
    assert(chars@.subrange(0, chars@.len() as int) == t@);
}

// ---------------------------------------------------------------------------
// Trimming.

/// The characters trimming takes away: whitespace, or the NUL character.
pub open spec fn trimmed_away(c: char, nul: bool) -> bool {
    if nul {
        c == '\0'
    } else {
        char_is_whitespace(c)
    }
}

/// How many characters trimming takes from the front of `s`.
pub open spec fn lead_len(s: Seq<char>, nul: bool) -> nat
    decreases s.len(),
{
    if s.len() > 0 && trimmed_away(s[0], nul) {
        1 + lead_len(s.drop_first(), nul)
    } else {
        0
    }
}

/// How many characters trimming takes from the back of `s`.
pub open spec fn trail_len(s: Seq<char>, nul: bool) -> nat
    decreases s.len(),
{
    if s.len() > 0 && trimmed_away(s.last(), nul) {
        1 + trail_len(s.drop_last(), nul)
    } else {
        0
    }
}

/// `s` without the leading and trailing characters that trimming takes
/// away: `str::trim` for whitespace, `str::trim_matches('\0')` for NULs.
pub open spec fn trim_spec(s: Seq<char>, nul: bool) -> Seq<char> {
    let front = s.subrange(lead_len(s, nul) as int, s.len() as int);
    front.subrange(0, front.len() - trail_len(front, nul))
}

/// A name stripped of surrounding whitespace and then of surrounding NULs,
/// as host names and file names are cleaned before use.
pub open spec fn clean_text(s: Seq<char>) -> Seq<char> {
    trim_spec(trim_spec(s, false), true)
}

/// Whether trimming takes `c` away.
fn is_trimmed_away(c: char, nul: bool) -> (r: bool)
    ensures
        r == trimmed_away(c, nul),
{
    if nul {
        c == '\0'
    } else {
        is_whitespace(c)
    }
}

proof fn lemma_lead_len(s: Seq<char>, nul: bool)
    ensures
        lead_len(s, nul) <= s.len(),
        forall|k: int| 0 <= k < lead_len(s, nul) ==> trimmed_away(#[trigger] s[k], nul),
        lead_len(s, nul) < s.len() ==> !trimmed_away(s[lead_len(s, nul) as int], nul),
    decreases s.len(),
{
    if s.len() > 0 && trimmed_away(s[0], nul) {
        lemma_lead_len(s.drop_first(), nul);
        assert forall|k: int| 0 <= k < lead_len(s, nul) implies trimmed_away(#[trigger] s[k], nul) by {
            if k > 0 {
                assert(s[k] == s.drop_first()[k - 1]);
            }
        }
    }
}

proof fn lemma_lead_len_unique(s: Seq<char>, nul: bool, i: int)
    requires
        0 <= i <= s.len(),
        forall|k: int| 0 <= k < i ==> trimmed_away(#[trigger] s[k], nul),
        i < s.len() ==> !trimmed_away(s[i], nul),
    ensures
        lead_len(s, nul) == i,
    decreases s.len(),
{
    if i > 0 {
        assert(trimmed_away(s[0], nul));
        assert forall|k: int| 0 <= k < i - 1 implies trimmed_away(#[trigger] s.drop_first()[k], nul) by {
            assert(s.drop_first()[k] == s[k + 1]);
        }
        lemma_lead_len_unique(s.drop_first(), nul, i - 1);
    }
}

proof fn lemma_trail_len_unique(s: Seq<char>, nul: bool, j: int)
    requires
        0 <= j <= s.len(),
        forall|k: int| j <= k < s.len() ==> trimmed_away(#[trigger] s[k], nul),
        j > 0 ==> !trimmed_away(s[j - 1], nul),
    ensures
        trail_len(s, nul) == s.len() - j,
    decreases s.len(),
{
    if j < s.len() {
        assert(trimmed_away(s.last(), nul));
        assert forall|k: int| j <= k < s.drop_last().len() implies trimmed_away(#[trigger] s.drop_last()[k], nul) by {
            assert(s.drop_last()[k] == s[k]);
        }
        lemma_trail_len_unique(s.drop_last(), nul, j);
    }
}

/// Trims the characters of `chars`: whitespace, or NULs when `nul` is set.
pub fn trim_chars(chars: &Vec<char>, nul: bool) -> (r: Vec<char>)
    ensures
        r@ == trim_spec(chars@, nul),
{
    let n = chars.len();
    let mut i: usize = 0;
    while i < n && is_trimmed_away(chars[i], nul)
        invariant
            i <= n == chars@.len(),
            forall|k: int| 0 <= k < i ==> trimmed_away(#[trigger] chars@[k], nul),
        decreases n - i,
    {
        i = i + 1;
    }
    proof {
        lemma_lead_len_unique(chars@, nul, i as int);
    }
    let mut j: usize = n;
    while j > i && is_trimmed_away(chars[j - 1], nul)
        invariant
            i <= j <= n == chars@.len(),
            forall|k: int| j <= k < n ==> trimmed_away(#[trigger] chars@[k], nul),
        decreases j,
    {
        j = j - 1;
    }
    let ghost front = chars@.subrange(i as int, n as int);
    proof {
        assert forall|k: int| j - i <= k < front.len() implies trimmed_away(#[trigger] front[k], nul) by {
            assert(front[k] == chars@[i + k]);
        }
        if j > i {
            assert(front[j - i - 1] == chars@[j - 1]);
        }
        lemma_trail_len_unique(front, nul, j - i);
    }
    let mut r: Vec<char> = Vec::new();
    let mut k = i;
    while k < j
        invariant
            i <= k <= j <= n == chars@.len(),
            r@ == chars@.subrange(i as int, k as int),
        decreases j - k,
    {
        r.push(chars[k]);
        k = k + 1;
        assert(chars@.subrange(i as int, k as int) == chars@.subrange(i as int, k - 1).push(
            chars@[k - 1],
        ));
    }
    assert(r@ == front.subrange(0, j - i));
    r
}

/// Strips whitespace and then NULs from both ends of a name.
pub fn clean_name(s: &String) -> (r: Vec<char>)
    ensures
        r@ == clean_text(s@),
{
    let chars = chars_of(s);
    let trimmed = trim_chars(&chars, false);
    trim_chars(&trimmed, true)
}

// ---------------------------------------------------------------------------
// Decimal numbers.

/// The character of a decimal digit.
pub open spec fn digit_char(d: nat) -> char {
    ((48 + d) as u8) as char
}

/// The decimal text of `n`, without leading zeros.
pub open spec fn decimal_text(n: nat) -> Seq<char>
    decreases n,
{
    if n < 10 {
        seq![digit_char(n)]
    } else {
        decimal_text(n / 10).push(digit_char(n % 10))
    }
}

/// Appends the decimal text of `n`, as `n.to_string()` writes it.
pub fn push_decimal(s: &mut String, n: u32)
    ensures
        final(s)@ == old(s)@ + decimal_text(n as nat),
    decreases n,
{
    if n >= 10 {
        push_decimal(s, n / 10);
    }
    let d: u8 = (n % 10) as u8;
    push_char(s, (48u8 + d) as char);
    if n < 10 {
        assert(old(s)@.push(digit_char(n as nat)) == old(s)@ + decimal_text(n as nat));
    }
}

/// Whether `c` is an ASCII decimal digit.
pub open spec fn is_digit(c: char) -> bool {
    '0' <= c <= '9'
}

/// The number written by a sequence of decimal digits.
pub open spec fn digits_value(s: Seq<char>) -> nat
    decreases s.len(),
{
    if s.len() == 0 {
        0
    } else {
        digits_value(s.drop_last()) * 10 + (s.last() as nat - 48) as nat
    }
}

/// The digits of a number text: all of it but a leading `+`.
pub open spec fn digits_part(s: Seq<char>) -> Seq<char> {
    if s.len() > 1 && s[0] == '+' {
        s.drop_first()
    } else {
        s
    }
}

/// Whether every character of `s` is a decimal digit.
pub open spec fn all_digits(s: Seq<char>) -> bool {
    forall|k: int| 0 <= k < s.len() ==> is_digit(#[trigger] s[k])
}

/// What `str::parse::<u32>` makes of a text: an optional `+` and at least
/// one decimal digit, naming a number that fits 32 bits.
pub open spec fn u32_of_text(s: Seq<char>) -> Option<u32> {
    let digits = digits_part(s);
    if digits.len() > 0 && all_digits(digits) && digits_value(digits) <= u32::MAX {
        Some(digits_value(digits) as u32)
    } else {
        None
    }
}

proof fn lemma_digits_value_monotone(s: Seq<char>, k: int)
    requires
        0 <= k <= s.len(),
        all_digits(s),
    ensures
        digits_value(s.subrange(0, k)) <= digits_value(s),
    decreases s.len() - k,
{
    if k < s.len() {
        lemma_digits_value_monotone(s, k + 1);
        assert(s.subrange(0, k + 1).drop_last() == s.subrange(0, k));
    } else {
        assert(s.subrange(0, k) == s);
    }
}

/// Parses a port or other number as `str::parse::<u32>` does.
pub fn parse_u32(s: &String) -> (r: Option<u32>)
    ensures
        r == u32_of_text(s@),
{
    let chars = chars_of(s);
    let n = chars.len();
    let start: usize = if n > 1 && chars[0] == '+' {
        1
    } else {
        0
    };
    let ghost digits = digits_part(s@);
    assert(digits == chars@.subrange(start as int, n as int));
    if start == n {
        return None;
    }
    let mut value: u64 = 0;
    let mut i = start;
    while i < n
        invariant
            start <= i <= n == chars@.len(),
            chars@ == s@,
            digits == digits_part(s@),
            digits == chars@.subrange(start as int, n as int),
            forall|k: int| start <= k < i ==> is_digit(#[trigger] chars@[k]),
            value == digits_value(chars@.subrange(start as int, i as int)),
            value <= u32::MAX,
        decreases n - i,
    {
        let c = chars[i];
        if !('0' <= c && c <= '9') {
            assert(digits[i - start] == c);
            assert(!all_digits(digits));
            return None;
        }
        let d = (c as u32 - 48) as u64;
        assert(chars@.subrange(start as int, i + 1).drop_last() == chars@.subrange(start as int, i as int));
        if value * 10 + d > u32::MAX as u64 {
            proof {
                if all_digits(digits) {
                    lemma_digits_value_monotone(digits, i + 1 - start);
                    assert(digits.subrange(0, i + 1 - start) == chars@.subrange(start as int, i + 1));
                }
            }
            return None;
        }
        value = value * 10 + d;
        i = i + 1;
    }
    assert(chars@.subrange(start as int, n as int) == digits);
    Some(value as u32)
}

} // verus!
