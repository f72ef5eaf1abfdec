use vstd::prelude::*;
use vstd::utf8::*;

verus! {

/// The decimal digit `d` as a one-character string.
pub open spec fn spec_digit(d: nat) -> Seq<char> {
    if d == 0 { "0"@ }
    else if d == 1 { "1"@ }
    else if d == 2 { "2"@ }
    else if d == 3 { "3"@ }
    else if d == 4 { "4"@ }
    else if d == 5 { "5"@ }
    else if d == 6 { "6"@ }
    else if d == 7 { "7"@ }
    else if d == 8 { "8"@ }
    else { "9"@ }
}

/// The decimal notation of `n`, without leading zeros.
pub open spec fn spec_decimal(n: nat) -> Seq<char>
    decreases n,
{
    if n < 10 {
        spec_digit(n)
    } else {
        spec_decimal(n / 10) + spec_digit(n % 10)
    }
}

/// The number a string of decimal digits stands for, read in base 10.
pub open spec fn decimal_value(s: Seq<char>) -> int
    decreases s.len(),
{
    if s.len() == 0 {
        0
    } else {
        decimal_value(s.drop_last()) * 10 + (s.last() as int - '0' as int)
    }
}

/// Every character is one of `0` to `9`.
pub open spec fn all_decimal_digits(s: Seq<char>) -> bool {
    forall|i: int| 0 <= i < s.len() ==> '0' <= #[trigger] s[i] && s[i] <= '9'
}

/// The digit `d` is the one character whose code is that of `0` plus `d`.
pub proof fn lemma_digit_is_char(d: nat)
    requires
        d < 10,
    ensures
        spec_digit(d).len() == 1,
        spec_digit(d)[0] as int == '0' as int + d,
{
    reveal_strlit("0");
    reveal_strlit("1");
    reveal_strlit("2");
    reveal_strlit("3");
    reveal_strlit("4");
    reveal_strlit("5");
    reveal_strlit("6");
    reveal_strlit("7");
    reveal_strlit("8");
    reveal_strlit("9");
}

/// The decimal notation of `n` is standard base 10: it is made of the
/// digits `0` to `9`, it has no leading zero, and read back in base 10 it
/// gives `n`.
pub proof fn lemma_decimal_reads_back(n: nat)
    ensures
        spec_decimal(n).len() > 0,
        all_decimal_digits(spec_decimal(n)),
        decimal_value(spec_decimal(n)) == n,
        spec_decimal(n)[0] == '0' ==> n == 0,
    decreases n,
{
    if n < 10 {
        lemma_digit_is_char(n);
        let s = spec_decimal(n);
        assert(s.drop_last() =~= Seq::<char>::empty());
        assert(decimal_value(s.drop_last()) == 0);
        assert(decimal_value(s) == decimal_value(s.drop_last()) * 10 + (s.last() as int - '0' as int));
    } else {
        lemma_decimal_reads_back(n / 10);
        lemma_digit_is_char(n % 10);
        let a = spec_decimal(n / 10);
        let b = spec_digit(n % 10);
        let s = a + b;
        assert(s.drop_last() =~= a);
        assert(s.last() == b[0]);
        assert(s[0] == a[0]);
        assert(spec_decimal(n) == s);
        assert(decimal_value(s) == decimal_value(a) * 10 + (b[0] as int - '0' as int));
        assert(n == (n / 10) * 10 + n % 10);
        assert forall|i: int| 0 <= i < s.len() implies '0' <= #[trigger] s[i] && s[i] <= '9' by {
            if i < a.len() {
                assert(s[i] == a[i]);
            } else {
                assert(s[i] == b[0]);
            }
        }
    }
}

/// Different numbers have different decimal notations.
pub proof fn lemma_decimal_injective(m: nat, n: nat)
    requires
        m != n,
    ensures
        spec_decimal(m) != spec_decimal(n),
{
    lemma_decimal_reads_back(m);
    lemma_decimal_reads_back(n);
}

fn digit_str(d: u32) -> (r: &'static str)
    requires
        d < 10,
    ensures
        r@ == spec_digit(d as nat),
{
    if d == 0 { "0" }
    else if d == 1 { "1" }
    else if d == 2 { "2" }
    else if d == 3 { "3" }
    else if d == 4 { "4" }
    else if d == 5 { "5" }
    else if d == 6 { "6" }
    else if d == 7 { "7" }
    else if d == 8 { "8" }
    else { "9" }
}

/// The lowercase hexadecimal digit `d` as a one-character string.
pub open spec fn spec_hex_digit(d: nat) -> Seq<char> {
    if d < 10 { spec_digit(d) }
    else if d == 10 { "a"@ }
    else if d == 11 { "b"@ }
    else if d == 12 { "c"@ }
    else if d == 13 { "d"@ }
    else if d == 14 { "e"@ }
    else { "f"@ }
}

/// A byte as two lowercase hexadecimal digits, as `{:02x}` writes it.
pub open spec fn spec_hex_byte(b: u8) -> Seq<char> {
    spec_hex_digit((b / 16) as nat) + spec_hex_digit((b % 16) as nat)
}

/// The value of a lowercase hexadecimal digit character, or -1 for any
/// other character.
pub open spec fn hex_char_value(c: char) -> int {
    if '0' <= c && c <= '9' {
        c as int - '0' as int
    } else if 'a' <= c && c <= 'f' {
        c as int - 'a' as int + 10
    } else {
        -1
    }
}

/// `spec_hex_byte(b)` is two lowercase hexadecimal digits, high nibble
/// first, that read back as `b`.
pub proof fn lemma_hex_byte_reads_back(b: u8)
    ensures
        spec_hex_byte(b).len() == 2,
        hex_char_value(spec_hex_byte(b)[0]) == b / 16,
        hex_char_value(spec_hex_byte(b)[1]) == b % 16,
        hex_char_value(spec_hex_byte(b)[0]) * 16 + hex_char_value(spec_hex_byte(b)[1]) == b,
{
    reveal_strlit("a");
    reveal_strlit("b");
    reveal_strlit("c");
    reveal_strlit("d");
    reveal_strlit("e");
    reveal_strlit("f");
    let hi = (b / 16) as nat;
    let lo = (b % 16) as nat;
    if hi < 10 {
        lemma_digit_is_char(hi);
    }
    if lo < 10 {
        lemma_digit_is_char(lo);
    }
    let s = spec_hex_digit(hi) + spec_hex_digit(lo);
    assert(s[0] == spec_hex_digit(hi)[0]);
    assert(s[1] == spec_hex_digit(lo)[0]);
}

fn hex_digit_str(d: u8) -> (r: &'static str)
    requires
        d < 16,
    ensures
        r@ == spec_hex_digit(d as nat),
{
    if d < 10 { digit_str(d as u32) }
    else if d == 10 { "a" }
    else if d == 11 { "b" }
    else if d == 12 { "c" }
    else if d == 13 { "d" }
    else if d == 14 { "e" }
    else { "f" }
}

/// Appends the two lowercase hexadecimal digits of `b` to `s`.
pub fn push_hex_byte(s: &mut String, b: u8)
    ensures
        final(s)@ == old(s)@ + spec_hex_byte(b),
{
    s.append(hex_digit_str(b / 16));
    s.append(hex_digit_str(b % 16));
}

/// Writes `n` in decimal notation.
pub fn decimal_string(n: u32) -> (r: String)
    ensures
        r@ == spec_decimal(n as nat),
    decreases n,
{
    if n < 10 {
        String::from_str(digit_str(n))
    } else {
        let mut s = decimal_string(n / 10);
        s.append(digit_str(n % 10));
        s
    }
}


/// The characters with the Unicode White_Space property.
pub open spec fn is_white_space(c: char) -> bool {
    ||| ('\u{9}' <= c && c <= '\u{d}')
    ||| c == ' '
    ||| c == '\u{85}'
    ||| c == '\u{a0}'
    ||| c == '\u{1680}'
    ||| ('\u{2000}' <= c && c <= '\u{200a}')
    ||| c == '\u{2028}'
    ||| c == '\u{2029}'
    ||| c == '\u{202f}'
    ||| c == '\u{205f}'
    ||| c == '\u{3000}'
}

/// `s` without its leading white space.
pub open spec fn trim_start_chars(s: Seq<char>) -> Seq<char>
    decreases s.len(),
{
    if s.len() > 0 && is_white_space(s[0]) {
        trim_start_chars(s.drop_first())
    } else {
        s
    }
}

/// `s` without its trailing white space.
pub open spec fn trim_end_chars(s: Seq<char>) -> Seq<char>
    decreases s.len(),
{
    if s.len() > 0 && is_white_space(s.last()) {
        trim_end_chars(s.drop_last())
    } else {
        s
    }
}

/// `s` without its leading and trailing white space.
pub open spec fn trim_chars(s: Seq<char>) -> Seq<char> {
    trim_end_chars(trim_start_chars(s))
}

proof fn lemma_trim_start_shape(s: Seq<char>)
    ensures
        trim_start_chars(s).len() == 0 || !is_white_space(trim_start_chars(s)[0]),
    decreases s.len(),
{
    if s.len() > 0 && is_white_space(s[0]) {
        lemma_trim_start_shape(s.drop_first());
    }
}

proof fn lemma_trim_end_shape(s: Seq<char>)
    ensures
        trim_end_chars(s).len() <= s.len(),
        forall|i: int| 0 <= i < trim_end_chars(s).len() ==> #[trigger] trim_end_chars(s)[i] == s[i],
        trim_end_chars(s).len() == 0 || !is_white_space(trim_end_chars(s).last()),
    decreases s.len(),
{
    if s.len() > 0 && is_white_space(s.last()) {
        lemma_trim_end_shape(s.drop_last());
    }
}

proof fn lemma_trim_start_cut(s: Seq<char>) -> (k: int)
    ensures
        0 <= k <= s.len(),
        trim_start_chars(s) == s.skip(k),
        forall|i: int| 0 <= i < k ==> is_white_space(#[trigger] s[i]),
        k < s.len() ==> !is_white_space(s[k]),
    decreases s.len(),
{
    if s.len() > 0 && is_white_space(s[0]) {
        let k0 = lemma_trim_start_cut(s.drop_first());
        assert(s.drop_first().skip(k0) =~= s.skip(k0 + 1));
        assert forall|i: int| 0 <= i < k0 + 1 implies is_white_space(#[trigger] s[i]) by {
            if i > 0 {
                assert(s[i] == s.drop_first()[i - 1]);
            }
        }
        k0 + 1
    } else {
        assert(s.skip(0) =~= s);
        0
    }
}

proof fn lemma_trim_end_cut(s: Seq<char>) -> (k: int)
    ensures
        0 <= k <= s.len(),
        trim_end_chars(s) == s.take(k),
        forall|i: int| k <= i < s.len() ==> is_white_space(#[trigger] s[i]),
        k > 0 ==> !is_white_space(s[k - 1]),
    decreases s.len(),
{
    if s.len() > 0 && is_white_space(s.last()) {
        let k0 = lemma_trim_end_cut(s.drop_last());
        assert(s.drop_last().take(k0) =~= s.take(k0));
        assert forall|i: int| k0 <= i < s.len() implies is_white_space(#[trigger] s[i]) by {
            if i < s.len() - 1 {
                assert(s[i] == s.drop_last()[i]);
            }
        }
        if k0 > 0 {
            assert(s[k0 - 1] == s.drop_last()[k0 - 1]);
        }
        k0
    } else {
        assert(s.take(s.len() as int) =~= s);
        s.len() as int
    }
}

/// Trimming removes exactly the white space at both ends: the result is a
/// contiguous part of the text, everything cut off before and after it is
/// white space, and the result neither starts nor ends with white space.
pub proof fn lemma_trim_cuts_only_white_space(s: Seq<char>)
    ensures
        exists|a: int, b: int|
            {
                &&& 0 <= a <= b <= s.len()
                &&& trim_chars(s) == s.subrange(a, b)
                &&& forall|i: int| 0 <= i < a ==> is_white_space(#[trigger] s[i])
                &&& forall|i: int| b <= i < s.len() ==> is_white_space(#[trigger] s[i])
                &&& a < b ==> !is_white_space(s[a]) && !is_white_space(s[b - 1])
            },
{
    let a = lemma_trim_start_cut(s);
    let u = s.skip(a);
    let k = lemma_trim_end_cut(u);
    let b = a + k;
    assert(trim_chars(s) == u.take(k));
    assert(u.take(k) =~= s.subrange(a, b));
    assert forall|i: int| b <= i < s.len() implies is_white_space(#[trigger] s[i]) by {
        assert(s[i] == u[i - a]);
    }
    if a < b {
        assert(s[a] == u[0]);
        assert(s[b - 1] == u[k - 1]);
    }
    assert(s.subrange(a, b) == trim_chars(s));
}

/// Trimming an already trimmed text changes nothing.
pub proof fn lemma_trim_idempotent(s: Seq<char>)
    ensures
        trim_chars(trim_chars(s)) == trim_chars(s),
{
    let u = trim_start_chars(s);
    let t = trim_end_chars(u);
    lemma_trim_start_shape(s);
    lemma_trim_end_shape(u);
    if t.len() > 0 {
        assert(t[0] == u[0]);
        assert(trim_start_chars(t) == t);
        assert(trim_end_chars(t) == t);
    } else {
        assert(trim_start_chars(t) == t);
        assert(trim_end_chars(t) == t);
    }
}

/// `str::trim` of std: the slice of `s` left once the leading and trailing
/// characters with the Unicode White_Space property are removed. The
/// contract states that result exactly, over `trim_chars`.
#[verifier::external_body]
pub(crate) fn trim_str(s: &str) -> (r: &str)
    ensures
        r@ == trim_chars(s@),
{
    s.trim()
}

/// What `str::to_lowercase` of std returns for a string with these characters
/// (the Unicode lowercase mapping; final sigma depends on its context).
pub uninterp spec fn lowercase_chars(s: Seq<char>) -> Seq<char>;

/// `str::to_lowercase` of std. Its result is named by `lowercase_chars`;
/// nothing more is stated of the Unicode mapping it applies.
#[verifier::external_body]
pub(crate) fn to_lowercase_str(s: &str) -> (r: String)
    ensures
        r@ == lowercase_chars(s@),
{
    s.to_lowercase()
}

#[verifier::external_type_specification]
#[verifier::external_body]
pub struct ExUtf8Error(core::str::Utf8Error);

/// `core::str::from_utf8` of std: succeeds exactly on well-formed UTF-8,
/// and then yields the string whose UTF-8 encoding is `v`.
#[verifier::external_body]
pub(crate) fn str_from_utf8(v: &[u8]) -> (r: Result<&str, core::str::Utf8Error>)
    ensures
        r is Ok <==> valid_utf8(v@),
        r matches Ok(s) ==> s@ == decode_utf8(v@),
{
    core::str::from_utf8(v)
}

/// Lexicographic order on byte strings, the order of `str` in Rust.
pub open spec fn seq_le(a: Seq<u8>, b: Seq<u8>) -> bool
    decreases a.len(),
{
    if a.len() == 0 {
        true
    } else if b.len() == 0 {
        false
    } else if a[0] != b[0] {
        a[0] < b[0]
    } else {
        seq_le(a.drop_first(), b.drop_first())
    }
}

/// Two byte strings that are each at most the other are equal.
pub proof fn lemma_seq_le_antisymmetric(a: Seq<u8>, b: Seq<u8>)
    requires
        seq_le(a, b),
        seq_le(b, a),
    ensures
        a == b,
    decreases a.len(),
{
    if a.len() == 0 {
        assert(b.len() == 0);
        assert(a =~= b);
    } else {
        lemma_seq_le_antisymmetric(a.drop_first(), b.drop_first());
        assert(a =~= seq![a[0]] + a.drop_first());
        assert(b =~= seq![b[0]] + b.drop_first());
    }
}

/// Any two byte strings are ordered one way or the other.
pub proof fn lemma_seq_le_total(a: Seq<u8>, b: Seq<u8>)
    ensures
        seq_le(a, b) || seq_le(b, a),
    decreases a.len(),
{
    if a.len() > 0 && b.len() > 0 && a[0] == b[0] {
        lemma_seq_le_total(a.drop_first(), b.drop_first());
    }
}

/// Compares two byte strings in lexicographic order.
pub fn bytes_le(a: &[u8], b: &[u8]) -> (r: bool)
    ensures
        r == seq_le(a@, b@),
{
    let mut i: usize = 0;
    assert(a@.skip(0) =~= a@);
    assert(b@.skip(0) =~= b@);
    while i < a.len() && i < b.len()
        invariant
            i <= a@.len(),
            i <= b@.len(),
            seq_le(a@, b@) == seq_le(a@.skip(i as int), b@.skip(i as int)),
        decreases a@.len() - i,
    {
        if a[i] != b[i] {
            return a[i] < b[i];
        }
        assert(a@.skip(i as int).drop_first() =~= a@.skip(i + 1));
        assert(b@.skip(i as int).drop_first() =~= b@.skip(i + 1));
        i = i + 1;
    }
    i == a.len()
}

/// `needle` occurs in `hay` as a contiguous run.
pub open spec fn has_infix(hay: Seq<u8>, needle: Seq<u8>) -> bool {
    exists|i: int| 0 <= i && i + needle.len() <= hay.len() && #[trigger] hay.subrange(i, i + needle.len()) == needle
}

fn infix_at(hay: &[u8], needle: &[u8], at: usize) -> (r: bool)
    requires
        at + needle@.len() <= hay@.len(),
    ensures
        r == (hay@.subrange(at as int, at + needle@.len()) == needle@),
{
    let n = hay.len();
    let mut j: usize = 0;
    while j < needle.len()
        invariant
            n == hay@.len(),
            at + needle@.len() <= hay@.len(),
            j <= needle@.len(),
            forall|k: int| 0 <= k < j ==> hay@[at + k] == needle@[k],
        decreases needle@.len() - j,
    {
        if hay[at + j] != needle[j] {
            assert(hay@.subrange(at as int, at + needle@.len())[j as int] != needle@[j as int]);
            return false;
        }
        j = j + 1;
    }
    assert(hay@.subrange(at as int, at + needle@.len()) =~= needle@);
    true
}

/// Whether the byte string `needle` occurs in `hay`, as `str::contains` does.
pub fn bytes_contain(hay: &[u8], needle: &[u8]) -> (r: bool)
    ensures
        r == has_infix(hay@, needle@),
{
    if needle.len() > hay.len() {
        return false;
    }
    let last = hay.len() - needle.len();
    let mut at: usize = 0;
    loop
        invariant
            at <= last,
            last + needle@.len() == hay@.len(),
            forall|i: int| 0 <= i < at ==> #[trigger] hay@.subrange(i, i + needle@.len()) != needle@,
        decreases last - at,
    {
        if infix_at(hay, needle, at) {
            return true;
        }
        if at == last {
            assert forall|i: int| 0 <= i && i + needle@.len() <= hay@.len() implies #[trigger] hay@.subrange(i, i + needle@.len()) != needle@ by {
                if i < at {
                } else {
                    assert(i == at);
                }
            }
            return false;
        }
        at = at + 1;
    }
}

/// Appends the bytes of `s` to `v`.
pub fn push_bytes(v: &mut Vec<u8>, s: &[u8])
    ensures
        final(v)@ == old(v)@ + s@,
{
    let mut i: usize = 0;
    while i < s.len()
        invariant
            i <= s@.len(),
            v@ == old(v)@ + s@.take(i as int),
        decreases s@.len() - i,
    {
        v.push(s[i]);
        assert(s@.take(i + 1) =~= s@.take(i as int).push(s@[i as int]));
        i = i + 1;
    }
    assert(s@.take(s@.len() as int) =~= s@);
}

} // verus!
