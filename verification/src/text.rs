use vstd::prelude::*;
use vstd::string::StringExecFns;

verus! {

/// The character that spells the decimal digit `d` (`0 <= d < 10`).
pub open spec fn digit_char(d: int) -> char {
    (d + 48) as char
}

/// The base-ten spelling of `n`, most significant digit first, without leading zeros.
pub open spec fn decimal(n: nat) -> Seq<char>
    decreases n,
{
    if n < 10 {
        seq![digit_char(n as int)]
    } else {
        decimal(n / 10).push(digit_char((n % 10) as int))
    }
}

/// Appends one character to a string.
///
/// Trusted: `String::push`, documented as appending the given `char` to the end of the
/// string; the contract says the view grows by exactly that character.
#[verifier::external_body]
pub fn push_char(s: &mut String, c: char)
    ensures
        final(s)@ == old(s)@.push(c),
{
    s.push(c);
}

/// Appends the decimal spelling of `n` to `s`.
pub fn push_decimal(s: &mut String, n: u64)
    ensures
        final(s)@ == old(s)@ + decimal(n as nat),
    decreases n,
{
    if n >= 10 {
        push_decimal(s, n / 10);
    }
    let d: u8 = (n % 10) as u8;
    let c: char = (d + 48) as char;
    push_char(s, c);
    proof {
        assert(decimal(n as nat) == if n < 10 { seq![digit_char(n as int)] } else { decimal((n / 10) as nat).push(digit_char((n % 10) as int)) });
    }
}


/// The characters of `s`, in order.
pub fn chars_of(s: &str) -> (v: Vec<char>)
    ensures
        v@ == s@,
{
    broadcast use vstd::string::group_string_axioms;
    let mut v: Vec<char> = Vec::new();
    for c in iter: s.chars()
        invariant
            v@ == iter.seq().take(iter.index()),
    {
        v.push(c);
    }
    v
}


/// `p` occurs in `s` starting at position `i`.
pub open spec fn occurs_at<T>(s: Seq<T>, p: Seq<T>, i: int) -> bool {
    0 <= i && i + p.len() <= s.len() && s.subrange(i, i + p.len()) == p
}

/// `s` begins with `p`.
pub open spec fn has_prefix<T>(s: Seq<T>, p: Seq<T>) -> bool {
    occurs_at(s, p, 0)
}

/// `s` ends with `p`.
pub open spec fn has_suffix<T>(s: Seq<T>, p: Seq<T>) -> bool {
    p.len() <= s.len() && occurs_at(s, p, s.len() - p.len())
}

/// `p` occurs somewhere in `s`.
pub open spec fn has_infix<T>(s: Seq<T>, p: Seq<T>) -> bool {
    exists|i: int| occurs_at(s, p, i)
}

/// Whether the bytes `p` occur in `s` at position `i`.
pub fn bytes_occur_at(s: &[u8], p: &[u8], i: usize) -> (r: bool)
    ensures
        r == occurs_at(s@, p@, i as int),
{
    if i > s.len() || p.len() > s.len() - i {
        return false;
    }
    let mut k: usize = 0;
    while k < p.len()
        invariant
            i + p.len() <= s.len(),
            k <= p.len(),
            forall|j: int| 0 <= j < k ==> s@[i + j] == p@[j],
        decreases p.len() - k,
    {
        if s[i + k] != p[k] {
            assert(s@.subrange(i as int, i + p.len())[k as int] != p@[k as int]);
            return false;
        }
        k = k + 1;
    }
    assert(s@.subrange(i as int, i + p.len()) =~= p@);
    true
}

/// Whether the characters `p` occur in `s` at position `i`.
pub fn chars_occur_at(s: &[char], p: &[char], i: usize) -> (r: bool)
    ensures
        r == occurs_at(s@, p@, i as int),
{
    if i > s.len() || p.len() > s.len() - i {
        return false;
    }
    let mut k: usize = 0;
    while k < p.len()
        invariant
            i + p.len() <= s.len(),
            k <= p.len(),
            forall|j: int| 0 <= j < k ==> s@[i + j] == p@[j],
        decreases p.len() - k,
    {
        if s[i + k] != p[k] {
            assert(s@.subrange(i as int, i + p.len())[k as int] != p@[k as int]);
            return false;
        }
        k = k + 1;
    }
    assert(s@.subrange(i as int, i + p.len()) =~= p@);
    true
}

/// Whether the bytes `p` occur anywhere in `s` (an empty `p` occurs everywhere).
pub fn bytes_contain(s: &[u8], p: &[u8]) -> (r: bool)
    ensures
        r == has_infix(s@, p@),
{
    if p.len() > s.len() {
        assert(forall|i: int| !occurs_at(s@, p@, i));
        return false;
    }
    let last: usize = s.len() - p.len();
    let mut i: usize = 0;
    loop
        invariant
            last + p.len() == s.len(),
            i <= last,
            forall|j: int| 0 <= j < i ==> !occurs_at(s@, p@, j),
        decreases last - i,
    {
        if bytes_occur_at(s, p, i) {
            return true;
        }
        if i == last {
            assert(forall|j: int| !occurs_at(s@, p@, j));
            return false;
        }
        i = i + 1;
    }
}

/// Whether the characters `p` occur anywhere in `s`.
pub fn chars_contain(s: &[char], p: &[char]) -> (r: bool)
    ensures
        r == has_infix(s@, p@),
{
    if p.len() > s.len() {
        assert(forall|i: int| !occurs_at(s@, p@, i));
        return false;
    }
    let last: usize = s.len() - p.len();
    let mut i: usize = 0;
    loop
        invariant
            last + p.len() == s.len(),
            i <= last,
            forall|j: int| 0 <= j < i ==> !occurs_at(s@, p@, j),
        decreases last - i,
    {
        if chars_occur_at(s, p, i) {
            return true;
        }
        if i == last {
            assert(forall|j: int| !occurs_at(s@, p@, j));
            return false;
        }
        i = i + 1;
    }
}

/// Whether `s` begins with `p`.
pub fn chars_start_with(s: &[char], p: &[char]) -> (r: bool)
    ensures
        r == has_prefix(s@, p@),
{
    chars_occur_at(s, p, 0)
}

/// Whether `s` ends with `p`.
pub fn chars_end_with(s: &[char], p: &[char]) -> (r: bool)
    ensures
        r == has_suffix(s@, p@),
{
    if p.len() > s.len() {
        return false;
    }
    chars_occur_at(s, p, s.len() - p.len())
}


/// The lower-case hexadecimal digit for `d` (`0 <= d < 16`).
pub open spec fn hex_digit_lower(d: int) -> char {
    if d < 10 {
        (d + 48) as char
    } else {
        (d + 87) as char
    }
}

/// The upper-case hexadecimal digit for `d` (`0 <= d < 16`).
pub open spec fn hex_digit_upper(d: int) -> char {
    if d < 10 {
        (d + 48) as char
    } else {
        (d + 55) as char
    }
}

/// Two lower-case hexadecimal digits for one byte, high nibble first.
pub open spec fn hex_byte_lower(b: u8) -> Seq<char> {
    seq![hex_digit_lower((b / 16) as int), hex_digit_lower((b % 16) as int)]
}

/// Two upper-case hexadecimal digits for one byte, high nibble first.
pub open spec fn hex_byte_upper(b: u8) -> Seq<char> {
    seq![hex_digit_upper((b / 16) as int), hex_digit_upper((b % 16) as int)]
}

/// The lower-case hexadecimal spelling of `bytes`, two digits per byte.
pub open spec fn hex_lower(bytes: Seq<u8>) -> Seq<char>
    decreases bytes.len(),
{
    if bytes.len() == 0 {
        Seq::empty()
    } else {
        hex_lower(bytes.drop_last()) + hex_byte_lower(bytes.last())
    }
}

/// The hexadecimal spelling has two digits per byte.
pub proof fn lemma_hex_lower_len(bytes: Seq<u8>)
    ensures
        hex_lower(bytes).len() == 2 * bytes.len(),
    decreases bytes.len(),
{
    if bytes.len() > 0 {
        lemma_hex_lower_len(bytes.drop_last());
    }
}

proof fn lemma_hex_digit_lower_injective(d: int, e: int)
    requires
        0 <= d < 16,
        0 <= e < 16,
        hex_digit_lower(d) == hex_digit_lower(e),
    ensures
        d == e,
{
    assert(hex_digit_lower(d) as int == if d < 10 { d + 48 } else { d + 87 });
    assert(hex_digit_lower(e) as int == if e < 10 { e + 48 } else { e + 87 });
}

/// Different byte strings have different hexadecimal spellings.
pub proof fn lemma_hex_lower_injective(a: Seq<u8>, b: Seq<u8>)
    requires
        hex_lower(a) == hex_lower(b),
    ensures
        a == b,
    decreases a.len(),
{
    lemma_hex_lower_len(a);
    lemma_hex_lower_len(b);
    if a.len() > 0 {
        let ha = hex_lower(a);
        let hb = hex_lower(b);
        let n = ha.len() as int;
        lemma_hex_lower_len(a.drop_last());
        lemma_hex_lower_len(b.drop_last());
        assert(ha[n - 2] == hex_digit_lower((a.last() / 16) as int));
        assert(hb[n - 2] == hex_digit_lower((b.last() / 16) as int));
        assert(ha[n - 1] == hex_digit_lower((a.last() % 16) as int));
        assert(hb[n - 1] == hex_digit_lower((b.last() % 16) as int));
        lemma_hex_digit_lower_injective((a.last() / 16) as int, (b.last() / 16) as int);
        lemma_hex_digit_lower_injective((a.last() % 16) as int, (b.last() % 16) as int);
        assert(hex_lower(a.drop_last()) =~= ha.subrange(0, n - 2));
        assert(hex_lower(b.drop_last()) =~= hb.subrange(0, n - 2));
        lemma_hex_lower_injective(a.drop_last(), b.drop_last());
        assert(a =~= a.drop_last().push(a.last()));
        assert(b =~= b.drop_last().push(b.last()));
    }
}

fn hex_char_lower(d: u8) -> (c: char)
    requires
        d < 16,
    ensures
        c == hex_digit_lower(d as int),
{
    if d < 10 {
        (d + 48) as char
    } else {
        (d + 87) as char
    }
}

fn hex_char_upper(d: u8) -> (c: char)
    requires
        d < 16,
    ensures
        c == hex_digit_upper(d as int),
{
    if d < 10 {
        (d + 48) as char
    } else {
        (d + 55) as char
    }
}

/// Appends the two upper-case hexadecimal digits of `b`.
pub fn push_hex_byte_upper(s: &mut String, b: u8)
    ensures
        final(s)@ == old(s)@ + hex_byte_upper(b),
{
    push_char(s, hex_char_upper(b / 16));
    push_char(s, hex_char_upper(b % 16));
}

/// Appends the lower-case hexadecimal spelling of `bytes`.
pub fn push_hex_lower(s: &mut String, bytes: &[u8])
    ensures
        final(s)@ == old(s)@ + hex_lower(bytes@),
{
    let ghost start = s@;
    let mut i: usize = 0;
    while i < bytes.len()
        invariant
            i <= bytes.len(),
            s@ == start + hex_lower(bytes@.take(i as int)),
        decreases bytes.len() - i,
    {
        let b = bytes[i];
        push_char(s, hex_char_lower(b / 16));
        push_char(s, hex_char_lower(b % 16));
        proof {
            assert(bytes@.take(i + 1).drop_last() =~= bytes@.take(i as int));
            assert(bytes@.take(i + 1).last() == b);
            assert(s@ =~= start + hex_lower(bytes@.take(i + 1)));
        }
        i = i + 1;
    }
    assert(bytes@.take(i as int) =~= bytes@);
}

/// Whether `c` has the Unicode `White_Space` property (the characters that
/// `char::is_whitespace` accepts and `str::trim` removes).
pub open spec fn is_white_space(c: char) -> bool {
    ||| '\u{9}' <= c <= '\u{d}'
    ||| c == ' '
    ||| c == '\u{85}'
    ||| c == '\u{a0}'
    ||| c == '\u{1680}'
    ||| '\u{2000}' <= c <= '\u{200a}'
    ||| c == '\u{2028}'
    ||| c == '\u{2029}'
    ||| c == '\u{202f}'
    ||| c == '\u{205f}'
    ||| c == '\u{3000}'
}

/// Whether `c` has the Unicode `White_Space` property.
pub fn white_space(c: char) -> (r: bool)
    ensures
        r == is_white_space(c),
{
    ('\u{9}' <= c && c <= '\u{d}') || c == ' ' || c == '\u{85}' || c == '\u{a0}' || c == '\u{1680}' || (
    '\u{2000}' <= c && c <= '\u{200a}') || c == '\u{2028}' || c == '\u{2029}' || c == '\u{202f}' || c
        == '\u{205f}' || c == '\u{3000}'
}

/// The number of leading white-space characters of `s`.
pub open spec fn leading_space(s: Seq<char>) -> nat
    decreases s.len(),
{
    if s.len() > 0 && is_white_space(s[0]) {
        1 + leading_space(s.drop_first())
    } else {
        0
    }
}

/// The number of trailing white-space characters of `s`.
pub open spec fn trailing_space(s: Seq<char>) -> nat
    decreases s.len(),
{
    if s.len() > 0 && is_white_space(s.last()) {
        1 + trailing_space(s.drop_last())
    } else {
        0
    }
}

/// `s` without its leading and trailing white space, as `str::trim` gives it.
pub open spec fn trimmed(s: Seq<char>) -> Seq<char> {
    let front = leading_space(s);
    if front == s.len() {
        Seq::empty()
    } else {
        s.subrange(front as int, s.len() - trailing_space(s))
    }
}

proof fn lemma_leading_space(s: Seq<char>, i: int)
    requires
        0 <= i <= s.len(),
        forall|j: int| 0 <= j < i ==> is_white_space(#[trigger] s[j]),
    ensures
        leading_space(s) == i + leading_space(s.subrange(i, s.len() as int)),
    decreases i,
{
    if i == 0 {
        assert(s.subrange(0, s.len() as int) =~= s);
    } else {
        assert(is_white_space(s[0]));
        let t = s.drop_first();
        assert forall|j: int| 0 <= j < i - 1 implies is_white_space(#[trigger] t[j]) by {
            assert(t[j] == s[j + 1]);
        }
        lemma_leading_space(t, i - 1);
        assert(t.subrange(i - 1, t.len() as int) =~= s.subrange(i, s.len() as int));
    }
}

proof fn lemma_trailing_space(s: Seq<char>, i: int)
    requires
        0 <= i <= s.len(),
        forall|j: int| s.len() - i <= j < s.len() ==> is_white_space(#[trigger] s[j]),
    ensures
        trailing_space(s) == i + trailing_space(s.subrange(0, s.len() - i)),
    decreases i,
{
    if i == 0 {
        assert(s.subrange(0, s.len() as int) =~= s);
    } else {
        assert(is_white_space(s[s.len() - 1]));
        let t = s.drop_last();
        assert forall|j: int| t.len() - (i - 1) <= j < t.len() implies is_white_space(#[trigger] t[j]) by {
            assert(t[j] == s[j]);
        }
        lemma_trailing_space(t, i - 1);
        assert(t.subrange(0, t.len() - (i - 1)) =~= s.subrange(0, s.len() - i));
    }
}

/// `s` without its leading and trailing white space.
pub fn trim_chars(s: &[char]) -> (r: Vec<char>)
    ensures
        r@ == trimmed(s@),
{
    let mut a: usize = 0;
    while a < s.len() && white_space(s[a])
        invariant
            a <= s@.len(),
            forall|j: int| 0 <= j < a ==> is_white_space(#[trigger] s@[j]),
        decreases s@.len() - a,
    {
        a = a + 1;
    }
    proof {
        lemma_leading_space(s@, a as int);
        let rest = s@.subrange(a as int, s@.len() as int);
        if a < s.len() {
            assert(rest[0] == s@[a as int]);
        }
        assert(leading_space(rest) == 0);
    }
    let mut r: Vec<char> = Vec::new();
    if a == s.len() {
        return r;
    }
    let mut b: usize = s.len();
    while b > a && white_space(s[b - 1])
        invariant
            a < s@.len(),
            !is_white_space(s@[a as int]),
            a <= b <= s@.len(),
            forall|j: int| b <= j < s@.len() ==> is_white_space(#[trigger] s@[j]),
        decreases b,
    {
        b = b - 1;
    }
    proof {
        lemma_trailing_space(s@, s@.len() - b);
        let init = s@.subrange(0, b as int);
        assert(b > a);
        assert(init.last() == s@[b - 1]);
        assert(trailing_space(init) == 0);
    }
    let mut i: usize = a;
    while i < b
        invariant
            a <= i <= b <= s@.len(),
            r@ == s@.subrange(a as int, i as int),
        decreases b - i,
    {
        r.push(s[i]);
        assert(r@ =~= s@.subrange(a as int, i + 1));
        i = i + 1;
    }
    r
}

/// `s` from position `i` on, with every non-overlapping occurrence of `p`, scanning left
/// to right, replaced by `r`.
pub open spec fn replace_from(s: Seq<char>, p: Seq<char>, r: Seq<char>, i: int) -> Seq<char>
    decreases s.len() - i,
{
    if i < 0 || i >= s.len() {
        Seq::empty()
    } else if p.len() > 0 && occurs_at(s, p, i) {
        r + replace_from(s, p, r, i + p.len())
    } else {
        seq![s[i]] + replace_from(s, p, r, i + 1)
    }
}

/// `s` with every non-overlapping occurrence of `p` replaced by `r`, as `str::replace` does.
pub open spec fn replaced(s: Seq<char>, p: Seq<char>, r: Seq<char>) -> Seq<char> {
    replace_from(s, p, r, 0)
}

/// `s` with every non-overlapping occurrence of the non-empty `p` replaced by `r`.
pub fn replace_all(s: &str, p: &str, r: &str) -> (out: String)
    requires
        p@.len() > 0,
    ensures
        out@ == replaced(s@, p@, r@),
{
    let sc = chars_of(s);
    let pc = chars_of(p);
    let mut out = String::new();
    let mut i: usize = 0;
    while i < sc.len()
        invariant
            i <= sc@.len(),
            sc@ == s@,
            pc@ == p@,
            p@.len() > 0,
            out@ + replace_from(s@, p@, r@, i as int) == replaced(s@, p@, r@),
        decreases sc@.len() - i,
    {
        if chars_occur_at(sc.as_slice(), pc.as_slice(), i) {
            let ghost before = out@;
            out.append(r);
            assert(out@ + replace_from(s@, p@, r@, i + p@.len()) =~= before + replace_from(s@, p@, r@, i as int));
            i = i + pc.len();
        } else {
            let ghost before = out@;
            push_char(&mut out, sc[i]);
            assert(out@ + replace_from(s@, p@, r@, i + 1) =~= before + replace_from(s@, p@, r@, i as int));
            i = i + 1;
        }
    }
    assert(replace_from(s@, p@, r@, i as int) =~= Seq::<char>::empty());
    assert(out@ =~= out@ + replace_from(s@, p@, r@, i as int));
    out
}

/// A string holding the characters `cs`.
pub fn string_of_chars(cs: &[char]) -> (s: String)
    ensures
        s@ == cs@,
{
    let mut s = String::new();
    let mut i: usize = 0;
    while i < cs.len()
        invariant
            i <= cs@.len(),
            s@ == cs@.take(i as int),
        decreases cs@.len() - i,
    {
        push_char(&mut s, cs[i]);
        assert(s@ =~= cs@.take(i + 1));
        i = i + 1;
    }
    assert(cs@.take(i as int) =~= cs@);
    s
}

/// Whether `c` is one of the ten decimal digit characters.
pub open spec fn is_digit_char(c: char) -> bool {
    '0' <= c <= '9'
}

proof fn lemma_digit_char(d: int, e: int)
    requires
        0 <= d < 10,
        0 <= e < 10,
    ensures
        is_digit_char(digit_char(d)),
        digit_char(d) == digit_char(e) ==> d == e,
{
    assert(digit_char(d) as int == d + 48);
    assert(digit_char(e) as int == e + 48);
}

/// Every character of a decimal spelling is a digit, and the spelling is never empty.
pub proof fn lemma_decimal_digits(n: nat)
    ensures
        decimal(n).len() >= 1,
        forall|i: int| 0 <= i < decimal(n).len() ==> is_digit_char(#[trigger] decimal(n)[i]),
    decreases n,
{
    lemma_digit_char((n % 10) as int, 0);
    if n >= 10 {
        lemma_decimal_digits(n / 10);
    }
}

/// Different numbers have different decimal spellings.
pub proof fn lemma_decimal_injective(a: nat, b: nat)
    ensures
        decimal(a) == decimal(b) ==> a == b,
    decreases a + b,
{
    if decimal(a) == decimal(b) {
        lemma_decimal_digits(a);
        lemma_decimal_digits(b);
        lemma_digit_char((a % 10) as int, (b % 10) as int);
        if a < 10 && b < 10 {
            assert(decimal(a)[0] == digit_char(a as int));
            assert(decimal(b)[0] == digit_char(b as int));
        } else if a < 10 {
            lemma_decimal_digits(b / 10);
            assert(decimal(b).len() >= 2);
        } else if b < 10 {
            lemma_decimal_digits(a / 10);
            assert(decimal(a).len() >= 2);
        } else {
            assert(decimal(a).drop_last() =~= decimal(a / 10));
            assert(decimal(b).drop_last() =~= decimal(b / 10));
            assert(decimal(a).last() == digit_char((a % 10) as int));
            assert(decimal(b).last() == digit_char((b % 10) as int));
            lemma_decimal_injective(a / 10, b / 10);
        }
    }
}

/// A length-prefixed field: the field's length in characters, a colon, then the field.
pub open spec fn length_prefixed(s: Seq<char>) -> Seq<char> {
    decimal(s.len()) + seq![':'] + s
}

/// A length-prefixed field can be read back off the front of any text: equal texts that
/// begin with length-prefixed fields begin with the same field and continue alike.
pub proof fn lemma_length_prefixed_unique(s: Seq<char>, t: Seq<char>, r1: Seq<char>, r2: Seq<char>)
    requires
        length_prefixed(s) + r1 == length_prefixed(t) + r2,
    ensures
        s == t,
        r1 == r2,
{
    let ds = decimal(s.len());
    let dt = decimal(t.len());
    let x = length_prefixed(s) + r1;
    let y = length_prefixed(t) + r2;
    lemma_decimal_digits(s.len());
    lemma_decimal_digits(t.len());
    assert(x[ds.len() as int] == ':');
    assert(y[dt.len() as int] == ':');
    if ds.len() < dt.len() {
        assert(y[ds.len() as int] == dt[ds.len() as int]);
        assert(is_digit_char(dt[ds.len() as int]));
    } else if dt.len() < ds.len() {
        assert(x[dt.len() as int] == ds[dt.len() as int]);
        assert(is_digit_char(ds[dt.len() as int]));
    }
    assert(ds.len() == dt.len());
    assert(ds =~= x.subrange(0, ds.len() as int));
    assert(dt =~= y.subrange(0, dt.len() as int));
    lemma_decimal_injective(s.len(), t.len());
    let k: int = ds.len() as int + 1;
    assert(s =~= x.subrange(k, k + s.len()));
    assert(t =~= y.subrange(k, k + t.len()));
    assert(r1 =~= x.subrange(k + s.len(), x.len() as int));
    assert(r2 =~= y.subrange(k + t.len(), y.len() as int));
}

/// Seven pieces joined one after another, grouped from the left, are the same text as
/// grouped from the right.
pub proof fn lemma_regroup_seven(
    l0: Seq<char>,
    l1: Seq<char>,
    l2: Seq<char>,
    l3: Seq<char>,
    l4: Seq<char>,
    l5: Seq<char>,
    l6: Seq<char>,
)
    ensures
        l0 + l1 + l2 + l3 + l4 + l5 + l6 == l0 + (l1 + (l2 + (l3 + (l4 + (l5 + l6))))),
{
    let r5 = l5 + l6;
    let r4 = l4 + r5;
    let r3 = l3 + r4;
    let r2 = l2 + r3;
    vstd::seq_lib::lemma_concat_associative(l0 + l1 + l2 + l3 + l4, l5, l6);
    vstd::seq_lib::lemma_concat_associative(l0 + l1 + l2 + l3, l4, r5);
    vstd::seq_lib::lemma_concat_associative(l0 + l1 + l2, l3, r4);
    vstd::seq_lib::lemma_concat_associative(l0 + l1, l2, r3);
    vstd::seq_lib::lemma_concat_associative(l0, l1, r2);
}

/// Appends `s` as a length-prefixed field.
pub fn push_length_prefixed(out: &mut String, s: &str)
    ensures
        final(out)@ == old(out)@ + length_prefixed(s@),
{
    let n = chars_of(s).len();
    push_decimal(out, n as u64);
    push_char(out, ':');
    out.append(s);
    assert(out@ =~= old(out)@ + length_prefixed(s@));
}

/// Appends the decimal spelling of `n` as a length-prefixed field.
pub fn push_length_prefixed_decimal(out: &mut String, n: u64)
    ensures
        final(out)@ == old(out)@ + length_prefixed(decimal(n as nat)),
{
    let mut digits = String::new();
    push_decimal(&mut digits, n);
    assert(digits@ =~= decimal(n as nat));
    push_length_prefixed(out, digits.as_str());
}

/// The value of a string of decimal digits, most significant first (0 when empty).
pub open spec fn digits_value(s: Seq<char>) -> nat
    decreases s.len(),
{
    if s.len() == 0 {
        0
    } else {
        digits_value(s.drop_last()) * 10 + (s.last() as int - 48) as nat
    }
}

/// `s` without a leading `+`, if it has one.
pub open spec fn unsigned_digits(s: Seq<char>) -> Seq<char> {
    if s.len() > 0 && s[0] == '+' {
        s.drop_first()
    } else {
        s
    }
}

/// Every character of `s` is a decimal digit.
pub open spec fn all_digit_chars(s: Seq<char>) -> bool {
    forall|i: int| 0 <= i < s.len() ==> is_digit_char(#[trigger] s[i])
}

/// The unsigned number that `s` spells as `str::parse::<u64>` reads it: an optional `+`,
/// then one or more decimal digits, with a value that fits in 64 bits.
pub open spec fn parsed_u64(s: Seq<char>) -> Option<u64> {
    let body = unsigned_digits(s);
    if body.len() > 0 && all_digit_chars(body) && digits_value(body) <= u64::MAX {
        Some(digits_value(body) as u64)
    } else {
        None
    }
}

proof fn lemma_digits_value_grows(s: Seq<char>, i: int)
    requires
        0 <= i <= s.len(),
        forall|j: int| 0 <= j < s.len() ==> is_digit_char(#[trigger] s[j]),
    ensures
        digits_value(s.take(i)) <= digits_value(s),
    decreases s.len() - i,
{
    if i < s.len() {
        lemma_digits_value_grows(s, i + 1);
        assert(s.take(i + 1).drop_last() =~= s.take(i));
    } else {
        assert(s.take(i) =~= s);
    }
}

/// Reads an unsigned 64-bit number from `s` as `str::parse::<u64>` does; none when `s`
/// is not an optional `+` and decimal digits, or the value does not fit.
pub fn parse_u64(s: &[char]) -> (r: Option<u64>)
    ensures
        r == parsed_u64(s@),
{
    let start: usize = if s.len() > 0 && s[0] == '+' {
        1
    } else {
        0
    };
    let ghost body = unsigned_digits(s@);
    assert(body =~= s@.skip(start as int));
    if start >= s.len() {
        return None;
    }
    let mut value: u64 = 0;
    let mut i: usize = start;
    while i < s.len()
        invariant
            start <= i <= s@.len(),
            body == s@.skip(start as int),
            body == unsigned_digits(s@),
            forall|j: int| 0 <= j < i - start ==> is_digit_char(#[trigger] body[j]),
            value == digits_value(body.take(i - start)),
        decreases s@.len() - i,
    {
        let c = s[i];
        assert(body[i - start] == c);
        if !('0' <= c && c <= '9') {
            assert(!is_digit_char(body[i - start]));
            return None;
        }
        let d: u64 = (c as u32 - 48) as u64;
        proof {
            assert(body.take(i - start + 1).drop_last() =~= body.take(i - start));
            assert(body.take(i - start + 1).last() == c);
        }
        if value > (u64::MAX - d) / 10 {
            proof {
                if all_digit_chars(body) {
                    lemma_digits_value_grows(body, i - start + 1);
                }
            }
            return None;
        }
        value = value * 10 + d;
        i = i + 1;
    }
    assert(body.take(i - start) =~= body);
    Some(value)
}

} // verus!
