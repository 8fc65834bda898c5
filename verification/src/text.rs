//! Character-level text helpers shared by the modules: searching, decimal
//! formatting and integer parsing, each stated over `Seq<char>`.

use vstd::prelude::*;

verus! {

/// Appends one character to a string (`String::push`).
#[verifier::external_body]
pub fn push_char(s: &mut String, c: char)
    ensures
        final(s)@ == old(s)@.push(c),
{
    s.push(c);
}

/// Appends a string slice to a string.
pub fn push_str(s: &mut String, t: &str)
    ensures
        final(s)@ == old(s)@ + t@,
{
    s.append(t);
}

/// A new string holding the characters of `t`.
pub fn owned(t: &str) -> (r: String)
    ensures
        r@ == t@,
{
    String::from_str(t)
}

/// Whether two string slices hold the same characters.
pub fn str_eq(a: &str, b: &str) -> (r: bool)
    ensures
        r == (a@ == b@),
{
    let n = a.unicode_len();
    if n != b.unicode_len() {
        return false;
    }
    let mut i: usize = 0;
    while i < n
        invariant
            n == a@.len(),
            n == b@.len(),
            i <= n,
            forall|j: int| 0 <= j < i ==> a@[j] == b@[j],
        decreases n - i,
    {
        if a.get_char(i) != b.get_char(i) {
            return false;
        }
        i = i + 1;
    }
    proof {
        assert(a@ =~= b@);
    }
    true
}

/// `needle` occurs in `hay` starting at position `i`.
pub open spec fn occurs_at(hay: Seq<char>, needle: Seq<char>, i: int) -> bool {
    0 <= i && i + needle.len() <= hay.len() && hay.subrange(i, i + needle.len()) == needle
}

/// `needle` occurs somewhere in `hay` (`str::contains`).
pub open spec fn contains_seq(hay: Seq<char>, needle: Seq<char>) -> bool {
    exists|i: int| occurs_at(hay, needle, i)
}

/// Whether `needle` occurs in `hay`.
pub fn contains(hay: &str, needle: &str) -> (r: bool)
    ensures
        r == contains_seq(hay@, needle@),
{
    let n = hay.unicode_len();
    let m = needle.unicode_len();
    if m > n {
        proof {
            assert forall|i: int| !occurs_at(hay@, needle@, i) by {}
        }
        return false;
    }
    let mut i: usize = 0;
    while i <= n - m
        invariant
            n == hay@.len(),
            m == needle@.len(),
            m <= n,
            i <= n - m + 1,
            forall|k: int| 0 <= k < i ==> !occurs_at(hay@, needle@, k),
        decreases n - m + 1 - i,
    {
        let mut j: usize = 0;
        let mut same = true;
        while j < m
            invariant
                n == hay@.len(),
                m == needle@.len(),
                i + m <= n,
                j <= m,
                same == (forall|k: int| 0 <= k < j ==> hay@[i + k] == needle@[k]),
            decreases m - j,
        {
            if hay.get_char(i + j) != needle.get_char(j) {
                same = false;
            }
            j = j + 1;
        }
        if same {
            proof {
                assert(hay@.subrange(i as int, i + m) =~= needle@);
                assert(occurs_at(hay@, needle@, i as int));
            }
            return true;
        } else {
            proof {
                let k = choose|k: int| 0 <= k < m && hay@[i + k] != needle@[k];
                assert(hay@.subrange(i as int, i + m)[k] != needle@[k]);
            }
        }
        i = i + 1;
    }
    proof {
        assert forall|k: int| !occurs_at(hay@, needle@, k) by {
            if 0 <= k && k + m <= n {
                assert(k < i);
            }
        }
    }
    false
}

/// Position of the first `c` in `s`, if any: `str::find` with a `char`,
/// counted in characters rather than bytes (a slice between two such
/// positions holds the same characters either way).
pub open spec fn first_index(s: Seq<char>, c: char) -> Option<int> {
    if exists|i: int| 0 <= i < s.len() && s[i] == c {
        Some(choose|i: int| 0 <= i < s.len() && s[i] == c && forall|j: int| 0 <= j < i ==> s[j] != c)
    } else {
        None
    }
}

/// `i` is where `c` first occurs in `s`.
pub proof fn lemma_first_index(s: Seq<char>, c: char, i: int)
    requires
        0 <= i < s.len(),
        s[i] == c,
        forall|j: int| 0 <= j < i ==> s[j] != c,
    ensures
        first_index(s, c) == Some(i),
{
    let k = choose|k: int| 0 <= k < s.len() && s[k] == c && forall|j: int| 0 <= j < k ==> s[j] != c;
    assert(0 <= k < s.len() && s[k] == c && forall|j: int| 0 <= j < k ==> s[j] != c);
    if k < i {
        assert(s[k] != c);
    }
    if i < k {
        assert(s[i] != c);
    }
}

/// Position of the first `c` in `s`.
pub fn find_char(s: &str, c: char) -> (r: Option<usize>)
    ensures
        r matches Some(i) ==> first_index(s@, c) == Some(i as int) && i < s@.len() && s@[i as int] == c,
        r is None ==> first_index(s@, c) is None,
{
    let n = s.unicode_len();
    let mut i: usize = 0;
    while i < n
        invariant
            n == s@.len(),
            i <= n,
            forall|j: int| 0 <= j < i ==> s@[j] != c,
        decreases n - i,
    {
        if s.get_char(i) == c {
            proof {
                lemma_first_index(s@, c, i as int);
            }
            return Some(i);
        }
        i = i + 1;
    }
    None
}


/// The character of decimal digit `d`.
pub open spec fn digit_char(d: int) -> char {
    (d + 48) as char
}

/// Decimal digits of a natural number, most significant first, no leading zeros.
pub open spec fn nat_decimal(n: nat) -> Seq<char>
    decreases n,
{
    if n < 10 {
        seq![digit_char(n as int)]
    } else {
        nat_decimal(n / 10).push(digit_char((n % 10) as int))
    }
}

/// Decimal text of an integer as `{}` prints it: a `-` in front of negatives.
pub open spec fn decimal(n: int) -> Seq<char> {
    if n < 0 {
        seq!['-'] + nat_decimal((-n) as nat)
    } else {
        nat_decimal(n as nat)
    }
}

/// Decimal text padded with zeros to two characters, as `{:02}` prints it
/// (the sign counts toward the width, so only `0..=9` gets a zero).
pub open spec fn decimal_2(n: int) -> Seq<char> {
    if 0 <= n < 10 {
        seq!['0', digit_char(n)]
    } else {
        decimal(n)
    }
}

/// `s` padded on the left with spaces to `width` characters, as `{:>width}`
/// prints a string.
pub open spec fn pad_left(s: Seq<char>, width: nat) -> Seq<char> {
    if s.len() < width {
        Seq::new((width - s.len()) as nat, |i: int| ' ') + s
    } else {
        s
    }
}

fn digit(d: u64) -> (c: char)
    requires
        d < 10,
    ensures
        c == digit_char(d as int),
{
    let b: u8 = d as u8 + 48;
    b as char
}

/// Appends the decimal digits of `n`.
pub fn push_nat(s: &mut String, n: u64)
    ensures
        final(s)@ == old(s)@ + nat_decimal(n as nat),
    decreases n,
{
    if n >= 10 {
        push_nat(s, n / 10);
    }
    push_char(s, digit(n % 10));
    proof {
        if n >= 10 {
            assert(old(s)@ + nat_decimal(n as nat) =~= old(s)@ + nat_decimal((n / 10) as nat) + seq![digit_char((n % 10) as int)]);
        }
    }
}

/// Appends the decimal text of `n`.
pub fn push_int(s: &mut String, n: i64)
    ensures
        final(s)@ == old(s)@ + decimal(n as int),
{
    if n < 0 {
        push_char(s, '-');
        let m: u64 = (0 - (n as i128)) as u64;
        push_nat(s, m);
        proof {
            assert(old(s)@ + decimal(n as int) =~= old(s)@.push('-') + nat_decimal(m as nat));
        }
    } else {
        push_nat(s, n as u64);
    }
}

/// Appends the decimal text of `n` padded with zeros to two characters.
pub fn push_int_2(s: &mut String, n: i64)
    ensures
        final(s)@ == old(s)@ + decimal_2(n as int),
{
    if 0 <= n && n < 10 {
        push_char(s, '0');
        push_char(s, digit(n as u64));
        proof {
            assert(old(s)@ + decimal_2(n as int) =~= old(s)@.push('0').push(digit_char(n as int)));
        }
    } else {
        push_int(s, n);
    }
}

/// Appends `t` padded on the left with spaces to `width` characters.
pub fn push_padded(s: &mut String, t: &str, width: usize)
    ensures
        final(s)@ == old(s)@ + pad_left(t@, width as nat),
{
    let n = t.unicode_len();
    if n < width {
        let mut k: usize = 0;
        while k < width - n
            invariant
                n == t@.len(),
                n < width,
                k <= width - n,
                s@ == old(s)@ + Seq::new(k as nat, |i: int| ' '),
            decreases width - n - k,
        {
            push_char(s, ' ');
            k = k + 1;
            proof {
                assert(s@ =~= old(s)@ + Seq::new(k as nat, |i: int| ' '));
            }
        }
        push_str(s, t);
        proof {
            assert(s@ =~= old(s)@ + pad_left(t@, width as nat));
        }
    } else {
        push_str(s, t);
    }
}


/// An ASCII decimal digit.
pub open spec fn is_digit(c: char) -> bool {
    '0' <= c && c <= '9'
}

/// Value of a run of decimal digits.
pub open spec fn digits_value(ds: Seq<char>) -> int
    decreases ds.len(),
{
    if ds.len() == 0 {
        0
    } else {
        digits_value(ds.drop_last()) * 10 + (ds.last() as int - 48)
    }
}

/// The digits after an optional leading sign.
pub open spec fn unsigned_part(s: Seq<char>) -> Seq<char> {
    if s.len() > 0 && (s[0] == '+' || s[0] == '-') {
        s.drop_first()
    } else {
        s
    }
}

/// What `str::parse::<i32>` gives: an optional `+` or `-`, then one or more
/// ASCII digits (leading zeros allowed) whose signed value fits in an `i32`;
/// anything else is an error, here `None`.
pub open spec fn parse_i32_spec(s: Seq<char>) -> Option<i32> {
    let body = unsigned_part(s);
    if body.len() == 0 || !(forall|i: int| 0 <= i < body.len() ==> is_digit(#[trigger] body[i])) {
        None
    } else {
        let v = if s[0] == '-' {
            -digits_value(body)
        } else {
            digits_value(body)
        };
        if i32::MIN <= v <= i32::MAX {
            Some(v as i32)
        } else {
            None
        }
    }
}

proof fn lemma_digits_value_nonneg(ds: Seq<char>)
    requires
        forall|i: int| 0 <= i < ds.len() ==> is_digit(#[trigger] ds[i]),
    ensures
        digits_value(ds) >= 0,
    decreases ds.len(),
{
    if ds.len() > 0 {
        lemma_digits_value_nonneg(ds.drop_last());
        assert(is_digit(ds[ds.len() - 1]));
    }
}

/// Parses a decimal `i32` as `str::parse::<i32>` does.
pub fn parse_i32(t: &str) -> (r: Option<i32>)
    ensures
        r == parse_i32_spec(t@),
{
    let n = t.unicode_len();
    if n == 0 {
        return None;
    }
    let first = t.get_char(0);
    let start: usize = if first == '+' || first == '-' { 1 } else { 0 };
    let ghost body = unsigned_part(t@);
    proof {
        assert(body =~= t@.subrange(start as int, n as int));
    }
    if start == n {
        return None;
    }
    let mut i: usize = start;
    while i < n
        invariant
            n == t@.len(),
            start <= i <= n,
            body == t@.subrange(start as int, n as int),
            body == unsigned_part(t@),
            n > 0 && first == t@[0],
            forall|k: int| start <= k < i ==> is_digit(#[trigger] t@[k]),
        decreases n - i,
    {
        let c = t.get_char(i);
        if !('0' <= c && c <= '9') {
            proof {
                assert(body[i - start] == c);
                assert(!is_digit(body[i - start]));
                assert(!(forall|k: int| 0 <= k < body.len() ==> is_digit(#[trigger] body[k])));
            }
            return None;
        }
        i = i + 1;
    }
    proof {
        assert forall|k: int| 0 <= k < body.len() implies is_digit(#[trigger] body[k]) by {
            assert(is_digit(t@[k + start]));
        }
    }
    // `acc` is the value of the digits read so far, or a value past every
    // `i32` magnitude once that value has gone past it.
    let bound: i64 = 2147483648;
    let mut acc: i64 = 0;
    let mut j: usize = start;
    while j < n
        invariant
            n == t@.len(),
            start <= j <= n,
            body == t@.subrange(start as int, n as int),
            body == unsigned_part(t@),
            n > 0 && first == t@[0],
            forall|k: int| 0 <= k < body.len() ==> is_digit(#[trigger] body[k]),
            bound == 2147483648,
            0 <= acc <= bound * 10 + 9,
            acc <= bound ==> acc == digits_value(body.take(j - start)),
            acc > bound ==> digits_value(body.take(j - start)) > bound,
        decreases n - j,
    {
        let c = t.get_char(j);
        let ghost pre = body.take(j - start);
        proof {
            assert(body.take(j - start + 1).drop_last() =~= pre);
            assert(body.take(j - start + 1).last() == c);
            assert(is_digit(body[j - start]));
            lemma_digits_value_nonneg(pre);
        }
        if acc <= bound {
            acc = acc * 10 + ((c as u32) - 48) as i64;
        }
        j = j + 1;
    }
    proof {
        assert(body.take(n - start) =~= body);
    }
    let negative = first == '-';
    if negative {
        if acc > bound {
            None
        } else {
            Some((0 - acc) as i32)
        }
    } else {
        if acc > bound - 1 {
            None
        } else {
            Some(acc as i32)
        }
    }
}


proof fn lemma_nat_decimal_digits(m: nat)
    ensures
        nat_decimal(m).len() > 0,
        forall|i: int| 0 <= i < nat_decimal(m).len() ==> is_digit(#[trigger] nat_decimal(m)[i]),
        digits_value(nat_decimal(m)) == m,
    decreases m,
{
    if m < 10 {
        let d = digit_char(m as int);
        assert(d as int == m + 48);
        assert(nat_decimal(m).drop_last() =~= Seq::<char>::empty());
        assert(nat_decimal(m).last() == d);
        assert(digits_value(nat_decimal(m)) == digits_value(Seq::<char>::empty()) * 10 + (d as int - 48));
    }
    if m >= 10 {
        lemma_nat_decimal_digits(m / 10);
        let prev = nat_decimal(m / 10);
        let d = digit_char((m % 10) as int);
        assert(nat_decimal(m) == prev.push(d));
        assert(prev.push(d).drop_last() =~= prev);
        assert(d as int == (m % 10) + 48);
        assert(digits_value(prev.push(d)) == digits_value(prev) * 10 + (d as int - 48));
        assert(digits_value(prev) == m / 10);
        assert((m / 10) * 10 + m % 10 == m);
        assert forall|i: int| 0 <= i < nat_decimal(m).len() implies is_digit(#[trigger] nat_decimal(m)[i]) by {
            if i < prev.len() {
                assert(nat_decimal(m)[i] == prev[i]);
            }
        }
    }
}

/// Printing an `i32` in decimal and parsing the text back as an `i32` gives
/// the number again.
pub proof fn lemma_decimal_parses_back(n: i32)
    ensures
        parse_i32_spec(decimal(n as int)) == Some(n),
{
    let s = decimal(n as int);
    if n < 0 {
        let m = (-(n as int)) as nat;
        lemma_nat_decimal_digits(m);
        assert(s[0] == '-');
        assert(unsigned_part(s) =~= nat_decimal(m));
    } else {
        let m = n as nat;
        lemma_nat_decimal_digits(m);
        assert(is_digit(s[0]));
        assert(unsigned_part(s) == s);
    }
}

/// Padding a text on the left to a width gives a text of at least that
/// width, which ends with the text.
pub proof fn lemma_pad_left(s: Seq<char>, width: nat)
    ensures
        pad_left(s, width).len() == if s.len() < width { width } else { s.len() },
        pad_left(s, width).subrange(pad_left(s, width).len() - s.len(), pad_left(s, width).len() as int) == s,
        forall|i: int| 0 <= i < pad_left(s, width).len() - s.len() ==> pad_left(s, width)[i] == ' ',
{
    let p = pad_left(s, width);
    assert(p.subrange(p.len() - s.len(), p.len() as int) =~= s);
}


/// What occurs in a piece of a text occurs in the text.
pub proof fn lemma_contains_in_piece(t: Seq<char>, a: int, b: int, needle: Seq<char>)
    requires
        0 <= a <= b <= t.len(),
        contains_seq(t.subrange(a, b), needle),
    ensures
        contains_seq(t, needle),
{
    let piece = t.subrange(a, b);
    let i = choose|i: int| occurs_at(piece, needle, i);
    assert(t.subrange(a + i, a + i + needle.len()) =~= piece.subrange(i, i + needle.len()));
    assert(occurs_at(t, needle, a + i));
}


/// The decimal text of an integer is never empty.
pub proof fn lemma_decimal_nonempty(n: int)
    ensures
        decimal(n).len() >= 1,
{
    let m: nat = if n < 0 { (-n) as nat } else { n as nat };
    lemma_nat_decimal_digits(m);
}

} // verus!
