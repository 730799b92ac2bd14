//! Text helpers shared by the rest of the crate: decimal and hexadecimal
//! rendering, byte-wise comparison and search, and building strings.
use vstd::prelude::*;
use vstd::string::StringExecFns;

verus! {

/// The ASCII digit for a value below ten.
pub open spec fn digit_char(d: int) -> char {
    if d == 0 { '0' }
    else if d == 1 { '1' }
    else if d == 2 { '2' }
    else if d == 3 { '3' }
    else if d == 4 { '4' }
    else if d == 5 { '5' }
    else if d == 6 { '6' }
    else if d == 7 { '7' }
    else if d == 8 { '8' }
    else { '9' }
}

/// The decimal digits of a natural number, most significant first, without
/// leading zeros (zero itself is "0").
pub open spec fn decimal_nat(n: nat) -> Seq<char>
    decreases n,
{
    if n < 10 {
        seq![digit_char(n as int)]
    } else {
        decimal_nat(n / 10).push(digit_char((n % 10) as int))
    }
}

/// The decimal rendering of an integer, as `Display` writes it: a minus sign
/// before the digits of the magnitude for a negative number.
pub open spec fn decimal(n: int) -> Seq<char> {
    if n < 0 {
        seq!['-'] + decimal_nat((-n) as nat)
    } else {
        decimal_nat(n as nat)
    }
}

/// The lower-case hexadecimal digit for a value below sixteen.
pub open spec fn hex_char(d: int) -> char {
    if d < 10 { digit_char(d) }
    else if d == 10 { 'a' }
    else if d == 11 { 'b' }
    else if d == 12 { 'c' }
    else if d == 13 { 'd' }
    else if d == 14 { 'e' }
    else { 'f' }
}

/// Two lower-case hexadecimal digits per byte, high nibble first.
pub open spec fn hex_lower(bytes: Seq<u8>) -> Seq<char>
    decreases bytes.len(),
{
    if bytes.len() == 0 {
        seq![]
    } else {
        hex_lower(bytes.drop_last()) + seq![
            hex_char(bytes.last() as int / 16),
            hex_char(bytes.last() as int % 16),
        ]
    }
}

/// Lexicographic comparison of byte strings: -1, 0 or 1, with a proper
/// prefix ordered before the longer string.
pub open spec fn lex_order(a: Seq<u8>, b: Seq<u8>) -> int
    decreases a.len(),
{
    if a.len() == 0 {
        if b.len() == 0 { 0 } else { -1 }
    } else if b.len() == 0 {
        1
    } else if a[0] < b[0] {
        -1
    } else if a[0] > b[0] {
        1
    } else {
        lex_order(a.drop_first(), b.drop_first())
    }
}

/// `needle` occurs in `hay` starting at byte `at`.
pub open spec fn occurs_at(hay: Seq<u8>, needle: Seq<u8>, at: int) -> bool {
    0 <= at && at + needle.len() <= hay.len() && hay.subrange(at, at + needle.len()) == needle
}

/// The first position at which `needle` occurs in `hay`, if any.
pub open spec fn first_occurrence(hay: Seq<u8>, needle: Seq<u8>) -> Option<int> {
    if exists|k: int| occurs_at(hay, needle, k) && forall|j: int| 0 <= j < k ==> !occurs_at(hay, needle, j) {
        Some(choose|k: int| occurs_at(hay, needle, k) && forall|j: int| 0 <= j < k ==> !occurs_at(hay, needle, j))
    } else {
        None
    }
}

/// Concatenation of `parts` with `sep` between neighbours.
pub open spec fn join(parts: Seq<Seq<char>>, sep: Seq<char>) -> Seq<char>
    decreases parts.len(),
{
    if parts.len() == 0 {
        seq![]
    } else if parts.len() == 1 {
        parts[0]
    } else {
        join(parts.drop_last(), sep) + sep + parts.last()
    }
}

/// What `str::to_lowercase` returns for a string: the full Unicode lower-case
/// mapping of each character.
pub uninterp spec fn lowercase(s: Seq<char>) -> Seq<char>;

/// Calls `str::to_lowercase`. Its result is a function of the argument alone
/// (the Unicode tables of the standard library); the contract names it and
/// says nothing more of it.
#[verifier::external_body]
pub(crate) fn to_lowercase(s: &str) -> (res: String)
    ensures
        res@ == lowercase(s@),
{
    s.to_lowercase()
}

/// Calls `String::push`, which appends one character.
#[verifier::external_body]
pub(crate) fn push_char(s: &mut String, c: char)
    ensures
        final(s)@ == old(s)@.push(c),
{
    s.push(c)
}

/// Appends a string slice.
pub fn push_str(s: &mut String, t: &str)
    ensures
        final(s)@ == old(s)@ + t@,
{
    s.append(t)
}

/// Removes the last character, if any.
pub fn pop_char(s: &mut String)
    ensures
        old(s)@.len() > 0 ==> final(s)@ == old(s)@.drop_last(),
        old(s)@.len() == 0 ==> final(s)@ == old(s)@,
{
    let cs = chars_of(s.as_str());
    if cs.len() > 0 {
        let mut kept: Vec<char> = Vec::new();
        let last = cs.len() - 1;
        let mut i: usize = 0;
        while i < last
            invariant
                last + 1 == cs@.len(),
                i <= last,
                kept@ == cs@.take(i as int),
            decreases cs@.len() - i,
        {
            kept.push(cs[i]);
            proof {
                assert(cs@.take(i + 1) =~= cs@.take(i as int).push(cs@[i as int]));
            }
            i = i + 1;
        }
        proof {
            assert(cs@.take(i as int) =~= cs@.drop_last());
        }
        *s = string_from_chars(kept.as_slice());
    }
}

/// A fresh string holding a copy of `s`.
pub fn owned(s: &str) -> (res: String)
    ensures
        res@ == s@,
{
    s.to_owned()
}

/// `a` followed by `b`, as a new string.
pub fn concat2(a: &str, b: &str) -> (res: String)
    ensures
        res@ == a@ + b@,
{
    let mut r = owned(a);
    push_str(&mut r, b);
    r
}

/// `a`, `b` and `c` in a row, as a new string.
pub fn concat3(a: &str, b: &str, c: &str) -> (res: String)
    ensures
        res@ == a@ + b@ + c@,
{
    let mut r = owned(a);
    push_str(&mut r, b);
    push_str(&mut r, c);
    r
}

/// The characters of `s`, one per element.
pub fn chars_of(s: &str) -> (res: Vec<char>)
    ensures
        res@ == s@,
{
    let mut res: Vec<char> = Vec::new();
    for c in it: s.chars()
        invariant
            res@ == it.seq().take(it.index() as int),
    {
        res.push(c);
    }
    proof {
        assert(res@ =~= s@);
    }
    res
}

/// A string made of the given characters.
pub fn string_from_chars(cs: &[char]) -> (res: String)
    ensures
        res@ == cs@,
{
    let mut res = String::new();
    let mut i: usize = 0;
    while i < cs.len()
        invariant
            i <= cs@.len(),
            res@ == cs@.take(i as int),
        decreases cs@.len() - i,
    {
        push_char(&mut res, cs[i]);
        proof {
            assert(cs@.take(i as int).push(cs@[i as int]) =~= cs@.take(i + 1));
        }
        i = i + 1;
    }
    proof {
        assert(cs@.take(cs@.len() as int) =~= cs@);
    }
    res
}

/// Whether the two strings hold the same characters.
pub fn same_text(a: &str, b: &str) -> (res: bool)
    ensures
        res == (a@ == b@),
{
    let x = chars_of(a);
    let y = chars_of(b);
    if x.len() != y.len() {
        return false;
    }
    let mut i: usize = 0;
    while i < x.len()
        invariant
            x@ == a@,
            y@ == b@,
            x@.len() == y@.len(),
            i <= x@.len(),
            forall|j: int| 0 <= j < i ==> x@[j] == y@[j],
        decreases x@.len() - i,
    {
        if x[i] != y[i] {
            return false;
        }
        i = i + 1;
    }
    proof {
        assert(a@ =~= b@);
    }
    true
}

proof fn lemma_decimal_nat_step(n: nat)
    requires
        n >= 10,
    ensures
        decimal_nat(n) == decimal_nat(n / 10).push(digit_char((n % 10) as int)),
{
}

spec fn digits_left(m: nat) -> Seq<char> {
    if m == 0 { seq![] } else { decimal_nat(m) }
}

/// The decimal digits of `n`.
pub fn u64_to_decimal(n: u64) -> (res: String)
    ensures
        res@ == decimal_nat(n as nat),
{
    if n == 0 {
        let r = owned("0");
        proof {
            reveal_strlit("0");
            assert(r@ =~= decimal_nat(0));
        }
        return r;
    }
    // Digits come out least significant first and are laid out in reverse.
    let mut rev: Vec<char> = Vec::new();
    let mut m: u64 = n;
    proof {
        assert(rev@.reverse() =~= seq![]);
        assert(decimal_nat(n as nat) =~= digits_left(m as nat) + rev@.reverse());
    }
    while m > 0
        invariant
            decimal_nat(n as nat) == digits_left(m as nat) + rev@.reverse(),
        decreases m,
    {
        let d = m % 10;
        let ghost before = rev@;
        let ghost m0 = m;
        rev.push(digit_of(d));
        m = m / 10;
        proof {
            assert(rev@.reverse() =~= seq![digit_char(d as int)] + before.reverse());
            if m0 >= 10 {
                lemma_decimal_nat_step(m0 as nat);
                assert(digits_left(m0 as nat) =~= digits_left(m as nat) + seq![digit_char(d as int)]);
            } else {
                assert(digits_left(m0 as nat) =~= digits_left(m as nat) + seq![digit_char(d as int)]);
            }
            assert(decimal_nat(n as nat) =~= digits_left(m as nat) + rev@.reverse());
        }
    }
    let mut res = String::new();
    let mut i: usize = rev.len();
    while i > 0
        invariant
            i <= rev@.len(),
            res@ == rev@.reverse().take((rev@.len() - i) as int),
        decreases i,
    {
        i = i - 1;
        push_char(&mut res, rev[i]);
        proof {
            assert(rev@.reverse().take((rev@.len() - i) as int) =~= rev@.reverse().take((rev@.len() - i - 1) as int).push(rev@[i as int]));
        }
    }
    proof {
        assert(rev@.reverse().take(rev@.len() as int) =~= rev@.reverse());
        assert(decimal_nat(n as nat) =~= rev@.reverse());
    }
    res
}

fn digit_of(d: u64) -> (c: char)
    requires
        d < 10,
    ensures
        c == digit_char(d as int),
{
    if d == 0 { '0' }
    else if d == 1 { '1' }
    else if d == 2 { '2' }
    else if d == 3 { '3' }
    else if d == 4 { '4' }
    else if d == 5 { '5' }
    else if d == 6 { '6' }
    else if d == 7 { '7' }
    else if d == 8 { '8' }
    else { '9' }
}

/// The decimal rendering of `n`, as `i64::to_string` gives it.
pub fn i64_to_decimal(n: i64) -> (res: String)
    ensures
        res@ == decimal(n as int),
{
    if n < 0 {
        let magnitude: u64 = ((-(n + 1)) as u64) + 1;
        let digits = u64_to_decimal(magnitude);
        let mut res = owned("-");
        push_str(&mut res, digits.as_str());
        proof {
            reveal_strlit("-");
        }
        res
    } else {
        u64_to_decimal(n as u64)
    }
}

fn hex_of(d: u8) -> (c: char)
    requires
        d < 16,
    ensures
        c == hex_char(d as int),
{
    if d < 10 { digit_of(d as u64) }
    else if d == 10 { 'a' }
    else if d == 11 { 'b' }
    else if d == 12 { 'c' }
    else if d == 13 { 'd' }
    else if d == 14 { 'e' }
    else { 'f' }
}

/// Lower-case hexadecimal rendering of a byte string, as `{:x}` writes a digest.
pub fn to_hex_lower(bytes: &[u8]) -> (res: String)
    ensures
        res@ == hex_lower(bytes@),
{
    let mut res = String::new();
    let mut i: usize = 0;
    while i < bytes.len()
        invariant
            i <= bytes@.len(),
            res@ == hex_lower(bytes@.take(i as int)),
        decreases bytes@.len() - i,
    {
        let b = bytes[i];
        push_char(&mut res, hex_of(b / 16));
        push_char(&mut res, hex_of(b % 16));
        proof {
            let t = bytes@.take(i + 1);
            assert(t.drop_last() =~= bytes@.take(i as int));
        }
        i = i + 1;
    }
    proof {
        assert(bytes@.take(bytes@.len() as int) =~= bytes@);
    }
    res
}

/// `lex_order` compares a string with itself as equal.
pub proof fn lemma_lex_order_reflexive(a: Seq<u8>)
    ensures
        lex_order(a, a) == 0,
    decreases a.len(),
{
    if a.len() > 0 {
        lemma_lex_order_reflexive(a.drop_first());
    }
}

/// Swapping the arguments of `lex_order` negates the result.
pub proof fn lemma_lex_order_antisymmetric(a: Seq<u8>, b: Seq<u8>)
    ensures
        lex_order(a, b) == -lex_order(b, a),
        -1 <= lex_order(a, b) <= 1,
    decreases a.len(),
{
    if a.len() > 0 && b.len() > 0 && a[0] == b[0] {
        lemma_lex_order_antisymmetric(a.drop_first(), b.drop_first());
    }
}

/// `lex_order` orders byte strings transitively, strictly where either step is strict.
pub proof fn lemma_lex_order_transitive(a: Seq<u8>, b: Seq<u8>, c: Seq<u8>)
    requires
        lex_order(a, b) <= 0,
        lex_order(b, c) <= 0,
    ensures
        lex_order(a, c) <= 0,
        (lex_order(a, b) < 0 || lex_order(b, c) < 0) ==> lex_order(a, c) < 0,
    decreases a.len(),
{
    if a.len() > 0 && b.len() > 0 && c.len() > 0 && a[0] == b[0] && b[0] == c[0] {
        lemma_lex_order_transitive(a.drop_first(), b.drop_first(), c.drop_first());
    }
}

/// Byte-wise lexicographic comparison: -1, 0 or 1.
pub fn compare_bytes(a: &[u8], b: &[u8]) -> (res: i8)
    ensures
        res as int == lex_order(a@, b@),
{
    let mut i: usize = 0;
    proof {
        assert(a@.skip(0) =~= a@);
        assert(b@.skip(0) =~= b@);
    }
    while i < a.len() && i < b.len()
        invariant
            i <= a@.len(),
            i <= b@.len(),
            lex_order(a@, b@) == lex_order(a@.skip(i as int), b@.skip(i as int)),
        decreases a@.len() - i,
    {
        if a[i] < b[i] {
            return -1;
        }
        if a[i] > b[i] {
            return 1;
        }
        proof {
            assert(a@.skip(i as int).drop_first() =~= a@.skip(i + 1));
            assert(b@.skip(i as int).drop_first() =~= b@.skip(i + 1));
        }
        i = i + 1;
    }
    if a.len() == i && b.len() == i {
        0
    } else if a.len() == i {
        -1
    } else {
        1
    }
}

/// The first position at which `needle` occurs in `hay`, like `str::find`
/// on the strings' bytes.
pub fn find_bytes(hay: &[u8], needle: &[u8]) -> (res: Option<usize>)
    ensures
        match res {
            Some(k) => first_occurrence(hay@, needle@) == Some(k as int),
            None => first_occurrence(hay@, needle@) is None,
        },
        res matches Some(k) ==> k + needle@.len() <= hay@.len(),
{
    if needle.len() > hay.len() {
        assert(forall|k: int| !occurs_at(hay@, needle@, k));
        return None;
    }
    let hay_len = hay.len();
    let last = hay_len - needle.len();
    let mut k: usize = 0;
    while k <= last
        invariant
            last == hay@.len() - needle@.len(),
            hay@.len() == hay_len,
            k <= last + 1,
            forall|j: int| 0 <= j < k ==> !occurs_at(hay@, needle@, j),
        decreases last + 1 - k,
    {
        let mut i: usize = 0;
        while i < needle.len() && hay[k + i] == needle[i]
            invariant
                k <= last,
                last == hay@.len() - needle@.len(),
                hay@.len() == hay_len,
                i <= needle@.len(),
                forall|j: int| 0 <= j < i ==> hay@[k + j] == needle@[j],
            decreases needle@.len() - i,
        {
            i = i + 1;
        }
        if i == needle.len() {
            proof {
                assert(hay@.subrange(k as int, k + needle@.len()) =~= needle@);
                assert(occurs_at(hay@, needle@, k as int));
                let c = choose|c: int| occurs_at(hay@, needle@, c) && forall|j: int| 0 <= j < c ==> !occurs_at(hay@, needle@, j);
                assert(occurs_at(hay@, needle@, c) && forall|j: int| 0 <= j < c ==> !occurs_at(hay@, needle@, j));
                if c < k {
                } else if c > k {
                } else {
                }
            }
            return Some(k);
        }
        proof {
            assert(!occurs_at(hay@, needle@, k as int)) by {
                if occurs_at(hay@, needle@, k as int) {
                    assert(hay@.subrange(k as int, k + needle@.len())[i as int] == needle@[i as int]);
                }
            }
        }
        k = k + 1;
    }
    proof {
        assert forall|j: int| !occurs_at(hay@, needle@, j) by {
            if 0 <= j < k {
            }
        }
    }
    None
}

} // verus!
