use vstd::prelude::*;

verus! {

/// The character `c` with an upper-case ASCII letter mapped to its lower-case form.
pub open spec fn ascii_lower(c: char) -> char {
    if 'A' <= c && c <= 'Z' {
        ((c as u32) + 32) as char
    } else {
        c
    }
}

/// The sequence `s` with every upper-case ASCII letter mapped to lower case.
pub open spec fn ascii_lowercase(s: Seq<char>) -> Seq<char> {
    s.map_values(|c: char| ascii_lower(c))
}

/// Whether `s`, ignoring the case of ASCII letters, ends with the lower-case `suffix`.
pub open spec fn ends_with_ignore_case(s: Seq<char>, suffix: Seq<char>) -> bool {
    suffix.is_suffix_of(ascii_lowercase(s))
}

/// Whether `c` equals the lower-case character `lower` once an upper-case ASCII
/// letter in `c` is mapped to lower case.
fn char_matches_lower(c: char, lower: char) -> (r: bool)
    ensures
        r == (ascii_lower(c) == lower),
{
    if 'A' <= c && c <= 'Z' {
        let code: u32 = (c as u32) + 32;
        code == (lower as u32)
    } else {
        c == lower
    }
}

/// Whether `s` ends with `suffix` when the ASCII letters of `s` are compared
/// without regard to case.
pub fn ends_with_ignore_ascii_case(s: &str, suffix: &str) -> (r: bool)
    ensures
        r == ends_with_ignore_case(s@, suffix@),
{
    let n = s.unicode_len();
    let m = suffix.unicode_len();
    if m > n {
        return false;
    }
    let start = n - m;
    let mut i: usize = 0;
    while i < m
        invariant
            n == s@.len(),
            m == suffix@.len(),
            start == n - m,
            i <= m,
            forall|j: int| 0 <= j < i ==> ascii_lower(#[trigger] s@[start + j]) == suffix@[j],
        decreases m - i,
    {
        let c = s.get_char(start + i);
        let d = suffix.get_char(i);
        if !char_matches_lower(c, d) {
            assert(ascii_lowercase(s@)[start + i] != suffix@[i as int]);
            return false;
        }
        i = i + 1;
    }
    assert forall|j: int| 0 <= j < m implies ascii_lowercase(s@).subrange(start as int, n as int)[j]
        == suffix@[j] by {
        assert(ascii_lower(s@[start + j]) == suffix@[j]);
    }
    assert(suffix@ =~= ascii_lowercase(s@).subrange(start as int, n as int));
    true
}

/// `s` without its final `suffix`, or `s` itself when it does not end with `suffix`.
pub open spec fn without_suffix(s: Seq<char>, suffix: Seq<char>) -> Seq<char> {
    if suffix.is_suffix_of(s) {
        s.subrange(0, s.len() - suffix.len())
    } else {
        s
    }
}

/// Whether `s` ends with `suffix`, character for character.
pub fn ends_with(s: &str, suffix: &str) -> (r: bool)
    ensures
        r == suffix@.is_suffix_of(s@),
{
    let n = s.unicode_len();
    let m = suffix.unicode_len();
    if m > n {
        return false;
    }
    let start = n - m;
    let mut i: usize = 0;
    while i < m
        invariant
            n == s@.len(),
            m == suffix@.len(),
            start == n - m,
            i <= m,
            forall|j: int| 0 <= j < i ==> #[trigger] s@[start + j] == suffix@[j],
        decreases m - i,
    {
        if s.get_char(start + i) != suffix.get_char(i) {
            assert(s@.subrange(start as int, n as int)[i as int] != suffix@[i as int]);
            return false;
        }
        i = i + 1;
    }
    assert forall|j: int| 0 <= j < m implies s@.subrange(start as int, n as int)[j] == suffix@[j] by {
        assert(s@[start + j] == suffix@[j]);
    }
    assert(suffix@ =~= s@.subrange(start as int, n as int));
    true
}

/// `s` without its final `suffix`, or all of `s` when it does not end with `suffix`.
pub fn strip_suffix(s: &str, suffix: &str) -> (r: String)
    ensures
        r@ == without_suffix(s@, suffix@),
{
    if ends_with(s, suffix) {
        let n = s.unicode_len();
        let m = suffix.unicode_len();
        String::from_str(s.substring_char(0, n - m))
    } else {
        String::from_str(s)
    }
}

/// `n` copies of `c`.
pub open spec fn repeat_char(c: char, n: nat) -> Seq<char> {
    Seq::new(n, |_i: int| c)
}

/// `s` followed by spaces up to `width` characters (as `{:<width}` formats it).
pub open spec fn pad_right(s: Seq<char>, width: nat) -> Seq<char> {
    if s.len() < width {
        s + repeat_char(' ', (width - s.len()) as nat)
    } else {
        s
    }
}

/// `s` preceded by zeros up to `width` characters (as `{:0width}` formats a number).
pub open spec fn pad_left_zeros(s: Seq<char>, width: nat) -> Seq<char> {
    if s.len() < width {
        repeat_char('0', (width - s.len()) as nat) + s
    } else {
        s
    }
}

/// The decimal digit for `d`.
pub open spec fn digit_char(d: nat) -> char {
    if d == 0 { '0' }
    else if d == 1 { '1' }
    else if d == 2 { '2' }
    else if d == 3 { '3' }
    else if d == 4 { '4' }
    else if d == 5 { '5' }
    else if d == 6 { '6' }
    else if d == 7 { '7' }
    else if d == 8 { '8' }
    else { '9' }
}

/// The decimal notation of `n`, without leading zeros.
pub open spec fn decimal(n: nat) -> Seq<char>
    decreases n,
{
    if n < 10 {
        seq![digit_char(n)]
    } else {
        decimal(n / 10).push(digit_char(n % 10))
    }
}

/// `n` copies of the single character of `unit`.
pub fn repeated(unit: &str, n: usize) -> (r: String)
    requires
        unit@.len() == 1,
    ensures
        r@ == repeat_char(unit@[0], n as nat),
{
    let mut r = String::new();
    let mut i: usize = 0;
    while i < n
        invariant
            i <= n,
            unit@.len() == 1,
            r@ == repeat_char(unit@[0], i as nat),
        decreases n - i,
    {
        r = r.concat(unit);
        i = i + 1;
        assert(r@ =~= repeat_char(unit@[0], i as nat));
    }
    r
}

/// `s` followed by spaces up to `width` characters.
pub fn padded_right(s: &str, width: usize) -> (r: String)
    ensures
        r@ == pad_right(s@, width as nat),
{
    let len = s.unicode_len();
    if len < width {
        proof {
            reveal_strlit(" ");
        }
        String::from_str(s).concat(repeated(" ", width - len).as_str())
    } else {
        String::from_str(s)
    }
}

/// `s` preceded by zeros up to `width` characters.
pub fn padded_left_zeros(s: &str, width: usize) -> (r: String)
    ensures
        r@ == pad_left_zeros(s@, width as nat),
{
    let len = s.unicode_len();
    if len < width {
        proof {
            reveal_strlit("0");
        }
        repeated("0", width - len).concat(s)
    } else {
        String::from_str(s)
    }
}

/// The one-character string of the decimal digit `d`.
fn digit_str(d: u64) -> (r: &'static str)
    requires
        d < 10,
    ensures
        r@ == seq![digit_char(d as nat)],
{
    proof {
        reveal_strlit("0");
        reveal_strlit("1");
        reveal_strlit("2");
        reveal_strlit("3");
        reveal_strlit("4");
        reveal_strlit("5");
        reveal_strlit("6");
        reveal_strlit("7");
        reveal_strlit("8");
        reveal_strlit("9");
    }
    if d == 0 { "0" }
    else if d == 1 { "1" }
    else if d == 2 { "2" }
    else if d == 3 { "3" }
    else if d == 4 { "4" }
    else if d == 5 { "5" }
    else if d == 6 { "6" }
    else if d == 7 { "7" }
    else if d == 8 { "8" }
    else { "9" }
}

/// The decimal notation of `n` (as `{}` formats an unsigned integer).
pub fn decimal_string(n: u64) -> (r: String)
    ensures
        r@ == decimal(n as nat),
    decreases n,
{
    if n < 10 {
        String::from_str(digit_str(n))
    } else {
        let r = decimal_string(n / 10).concat(digit_str(n % 10));
        assert(r@ =~= decimal((n / 10) as nat).push(digit_char((n % 10) as nat)));
        r
    }
}

/// ASCII case folding distributes over concatenation.
pub proof fn lemma_lowercase_concat(a: Seq<char>, b: Seq<char>)
    ensures
        ascii_lowercase(a + b) =~= ascii_lowercase(a) + ascii_lowercase(b),
{
    assert forall|i: int| 0 <= i < a.len() + b.len() implies #[trigger] ascii_lowercase(a + b)[i] == (
    ascii_lowercase(a) + ascii_lowercase(b))[i] by {
        if i < a.len() {
            assert((a + b)[i] == a[i]);
        } else {
            assert((a + b)[i] == b[i - a.len()]);
        }
    }
}

/// Folding ASCII case twice is folding it once.
pub proof fn lemma_lowercase_idempotent(s: Seq<char>)
    ensures
        ascii_lowercase(ascii_lowercase(s)) =~= ascii_lowercase(s),
{
}

} // verus!
