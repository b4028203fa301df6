//! Text: comparing strings, and writing and reading whole numbers.

use vstd::prelude::*;

verus! {

/// The character for one decimal digit.
pub open spec fn digit_char(d: int) -> char {
    (48 + d) as char
}

/// Whether a character is a decimal digit.
pub open spec fn is_digit(c: char) -> bool {
    '0' <= c <= '9'
}

/// What a decimal digit counts.
pub open spec fn digit_value(c: char) -> int {
    c as int - 48
}

/// A natural number in decimal digits, without leading zeros.
pub open spec fn digits(n: nat) -> Seq<char>
    decreases n,
{
    if n < 10 {
        seq![digit_char(n as int)]
    } else {
        digits(n / 10).push(digit_char((n % 10) as int))
    }
}

/// The lowest `width` decimal digits of a natural number, zeros in front.
pub open spec fn fixed_digits(n: nat, width: nat) -> Seq<char>
    decreases width,
{
    if width == 0 {
        Seq::empty()
    } else {
        fixed_digits(n / 10, (width - 1) as nat).push(digit_char((n % 10) as int))
    }
}

/// A whole number in decimal digits, with a minus sign where it is negative.
pub open spec fn int_text(i: int) -> Seq<char> {
    if i < 0 {
        seq!['-'] + digits((-i) as nat)
    } else {
        digits(i as nat)
    }
}

/// Whether every character is a decimal digit.
pub open spec fn all_digits(s: Seq<char>) -> bool {
    forall|i: int| 0 <= i < s.len() ==> is_digit(#[trigger] s[i])
}

/// What a string of decimal digits counts.
pub open spec fn digits_value(s: Seq<char>) -> int
    decreases s.len(),
{
    if s.len() == 0 {
        0
    } else {
        10 * digits_value(s.drop_last()) + digit_value(s.last())
    }
}

/// The number that a non-empty string of decimal digits counts.
pub open spec fn parsed_digits(s: Seq<char>) -> Option<int> {
    if s.len() > 0 && all_digits(s) {
        Some(digits_value(s))
    } else {
        None
    }
}

/// The number that a string of decimal digits with an optional sign counts, if it
/// fits in 64 bits.
pub open spec fn parsed_i64(s: Seq<char>) -> Option<int> {
    let unsigned = if s.len() > 0 && (s[0] == '-' || s[0] == '+') {
        s.skip(1)
    } else {
        s
    };
    match parsed_digits(unsigned) {
        Some(v) => {
            let value = if s[0] == '-' {
                -v
            } else {
                v
            };
            if i64::MIN <= value <= i64::MAX {
                Some(value)
            } else {
                None
            }
        },
        None => None,
    }
}

/// The number that a string of decimal digits with an optional plus sign counts,
/// if it fits in 64 bits without a sign.
pub open spec fn parsed_u64(s: Seq<char>) -> Option<int> {
    let unsigned = if s.len() > 0 && s[0] == '+' {
        s.skip(1)
    } else {
        s
    };
    match parsed_digits(unsigned) {
        Some(v) => if v <= u64::MAX {
            Some(v)
        } else {
            None
        },
        None => None,
    }
}

/// A character with the letters A to Z made small.
pub open spec fn ascii_lower(c: char) -> char {
    if 'A' <= c <= 'Z' {
        (c as int + 32) as char
    } else {
        c
    }
}

/// Whether two strings differ at most in the case of the letters A to Z.
pub open spec fn same_but_case(a: Seq<char>, b: Seq<char>) -> bool {
    a.len() == b.len() && forall|i: int|
        0 <= i < a.len() ==> ascii_lower(#[trigger] a[i]) == ascii_lower(b[i])
}

/// Whether a string of digits stays one, and what it counts, when a digit is added.
proof fn lemma_push_digit(s: Seq<char>, c: char)
    requires
        is_digit(c),
    ensures
        all_digits(s) ==> all_digits(s.push(c)),
        digits_value(s.push(c)) == 10 * digits_value(s) + digit_value(c),
{
    assert(s.push(c).drop_last() =~= s);
}

/// The digits of a natural number read back as that number.
pub proof fn lemma_digits_value(n: nat)
    ensures
        digits(n).len() > 0,
        all_digits(digits(n)),
        digits_value(digits(n)) == n,
    decreases n,
{
    if n < 10 {
        assert(digits(n) =~= Seq::<char>::empty().push(digit_char(n as int)));
        lemma_push_digit(Seq::empty(), digit_char(n as int));
    } else {
        lemma_digits_value(n / 10);
        lemma_push_digit(digits(n / 10), digit_char((n % 10) as int));
    }
}

/// Writing a whole number of 64 bits and reading it again gives the number back.
pub proof fn law_int_text_reads_back(i: i64)
    ensures
        parsed_i64(int_text(i as int)) == Some(i as int),
{
    if i < 0 {
        lemma_digits_value((-i) as nat);
        assert(int_text(i as int).skip(1) =~= digits((-i) as nat));
    } else {
        lemma_digits_value(i as nat);
        assert(is_digit(digits(i as nat)[0]));
    }
}

/// Two whole numbers that are written alike are the same.
pub proof fn lemma_int_text_injective(a: i64, b: i64)
    requires
        int_text(a as int) == int_text(b as int),
    ensures
        a == b,
{
    law_int_text_reads_back(a);
    law_int_text_reads_back(b);
}

/// A run of digits counts no less than any run that it starts with.
proof fn lemma_prefix_value(s: Seq<char>, n: int)
    requires
        all_digits(s),
        0 <= n <= s.len(),
    ensures
        0 <= digits_value(s.take(n)) <= digits_value(s),
    decreases s.len() + s.len() - n,
{
    if n == s.len() {
        assert(s.take(n) =~= s);
        if s.len() > 0 {
            lemma_prefix_value(s.drop_last(), s.len() - 1);
            assert(s.drop_last().take(s.len() - 1) =~= s.drop_last());
            assert(is_digit(s.last()));
        }
    } else {
        lemma_prefix_value(s.drop_last(), n);
        assert(s.drop_last().take(n) =~= s.take(n));
        assert(is_digit(s.last()));
    }
}

/// Whether two strings are the same.
pub fn same_text(a: &str, b: &str) -> (r: bool)
    ensures
        r == (a@ == b@),
{
    a.to_owned() == b.to_owned()
}

/// Whether two strings differ at most in the case of the letters A to Z.
pub fn eq_ignore_ascii_case(a: &str, b: &str) -> (r: bool)
    ensures
        r == same_but_case(a@, b@),
{
    let n = a.unicode_len();
    if n != b.unicode_len() {
        return false;
    }
    let mut i: usize = 0;
    while i < n
        invariant
            n == a@.len(),
            n == b@.len(),
            i <= n,
            forall|j: int| 0 <= j < i ==> ascii_lower(#[trigger] a@[j]) == ascii_lower(b@[j]),
        decreases n - i,
    {
        if lower(a.get_char(i)) != lower(b.get_char(i)) {
            assert(ascii_lower(a@[i as int]) != ascii_lower(b@[i as int]));
            return false;
        }
        i = i + 1;
    }
    true
}

/// The character, made small if it is one of the letters A to Z.
fn lower(c: char) -> (r: u32)
    ensures
        r == ascii_lower(c) as u32,
{
    if 'A' <= c && c <= 'Z' {
        c as u32 + 32
    } else {
        c as u32
    }
}

/// What stands before `suffix`, if `s` ends with it.
pub fn strip_suffix<'a>(s: &'a str, suffix: &str) -> (r: Option<&'a str>)
    ensures
        match r {
            Some(front) => s@ == front@ + suffix@,
            None => !(exists|front: Seq<char>| s@ == front + suffix@),
        },
{
    let n = s.unicode_len();
    let m = suffix.unicode_len();
    if n < m {
        return None;
    }
    let front = s.substring_char(0, n - m);
    if same_text(s.substring_char(n - m, n), suffix) {
        assert(s@ =~= front@ + suffix@);
        Some(front)
    } else {
        assert forall|f: Seq<char>| s@ == f + suffix@ implies false by {
            assert(s@.subrange(n - m, n as int) =~= suffix@);
        }
        None
    }
}

/// What stands behind `prefix`, if `s` starts with it.
pub fn strip_prefix<'a>(s: &'a str, prefix: &str) -> (r: Option<&'a str>)
    ensures
        match r {
            Some(rest) => s@ == prefix@ + rest@,
            None => !(exists|rest: Seq<char>| s@ == prefix@ + rest),
        },
{
    let n = s.unicode_len();
    let m = prefix.unicode_len();
    if n < m {
        return None;
    }
    let rest = s.substring_char(m, n);
    if same_text(s.substring_char(0, m), prefix) {
        assert(s@ =~= prefix@ + rest@);
        Some(rest)
    } else {
        assert forall|f: Seq<char>| s@ == prefix@ + f implies false by {
            assert(s@.subrange(0, m as int) =~= prefix@);
        }
        None
    }
}

/// Two pieces of text, one behind the other.
pub fn join(a: &str, b: &str) -> (r: String)
    ensures
        r@ == a@ + b@,
{
    let mut r = a.to_owned();
    r.append(b);
    r
}

/// The text of one decimal digit.
fn digit_text(d: u64) -> (r: &'static str)
    requires
        d < 10,
    ensures
        r@ == seq![digit_char(d as int)],
{
    proof {
        reveal_strlit("0");
        reveal_strlit("1");
        reveal_strlit("2");
        reveal_strlit("3");
        reveal_strlit("4");
        reveal_strlit("5");
        reveal_strlit("6");
        reveal_strlit("7");
        reveal_strlit("8");
        reveal_strlit("9");
    }
    let r = match d {
        0 => "0",
        1 => "1",
        2 => "2",
        3 => "3",
        4 => "4",
        5 => "5",
        6 => "6",
        7 => "7",
        8 => "8",
        _ => "9",
    };
    assert(r@ =~= seq![digit_char(d as int)]);
    r
}

/// A natural number in decimal digits.
pub fn u64_text(n: u64) -> (r: String)
    ensures
        r@ == digits(n as nat),
    decreases n,
{
    if n < 10 {
        digit_text(n).to_owned()
    } else {
        let mut r = u64_text(n / 10);
        r.append(digit_text(n % 10));
        assert(r@ =~= digits(n as nat));
        r
    }
}

/// A whole number in decimal digits, with a minus sign where it is negative.
pub fn i64_text(i: i64) -> (r: String)
    ensures
        r@ == int_text(i as int),
{
    if i >= 0 {
        u64_text(i as u64)
    } else {
        let magnitude: u64 = (-(i as i128)) as u64;
        proof {
            reveal_strlit("-");
        }
        let mut r = "-".to_owned();
        r.append(u64_text(magnitude).as_str());
        assert(r@ =~= int_text(i as int));
        r
    }
}

/// The number that the characters of `s` from `from` on count, if they are decimal
/// digits, at least one, and the number is at most `limit`.
fn read_digits(s: &str, from: usize, limit: u64) -> (r: Option<u64>)
    requires
        from <= s@.len(),
    ensures
        match r {
            Some(v) => parsed_digits(s@.skip(from as int)) == Some(v as int) && v <= limit,
            None => match parsed_digits(s@.skip(from as int)) {
                Some(v) => v > limit,
                None => true,
            },
        },
{
    let n = s.unicode_len();
    let ghost tail = s@.skip(from as int);
    if n == from {
        return None;
    }
    let mut i: usize = from;
    let mut value: u64 = 0;
    while i < n
        invariant
            n == s@.len(),
            from <= i <= n,
            tail == s@.skip(from as int),
            all_digits(tail.take(i - from)),
            value == digits_value(tail.take(i - from)),
            value <= limit,
        decreases n - i,
    {
        let c = s.get_char(i);
        assert(tail[i - from] == c);
        if c < '0' || c > '9' {
            assert(!all_digits(tail));
            return None;
        }
        let d: u64 = (c as u32 - 48) as u64;
        let next: u128 = value as u128 * 10 + d as u128;
        proof {
            assert(tail.take(i + 1 - from) =~= tail.take(i - from).push(c));
            lemma_push_digit(tail.take(i - from), c);
        }
        if next > limit as u128 {
            proof {
                if all_digits(tail) {
                    lemma_prefix_value(tail, i + 1 - from);
                }
            }
            return None;
        }
        value = next as u64;
        i = i + 1;
    }
    assert(tail.take(n - from) =~= tail);
    Some(value)
}

/// Reads a whole number of 64 bits.
pub fn parse_i64(s: &str) -> (r: Option<i64>)
    ensures
        match r {
            Some(v) => parsed_i64(s@) == Some(v as int),
            None => parsed_i64(s@) is None,
        },
{
    if s.unicode_len() == 0 {
        return None;
    }
    let first = s.get_char(0);
    if first == '-' {
        match read_digits(s, 1, 9223372036854775808) {
            Some(v) => Some((-(v as i128)) as i64),
            None => None,
        }
    } else if first == '+' {
        match read_digits(s, 1, 9223372036854775807) {
            Some(v) => Some(v as i64),
            None => None,
        }
    } else {
        assert(s@.skip(0) =~= s@);
        match read_digits(s, 0, 9223372036854775807) {
            Some(v) => Some(v as i64),
            None => None,
        }
    }
}

/// What std says of a piece of text that it cannot read as an `i64`.
pub uninterp spec fn i64_failure(text: Seq<char>) -> Seq<char>;

/// Calls `str::parse::<i64>` and writes its error. The claim: there is an error exactly where
/// the text is not a run of decimal digits, with at most one sign before it, that counts a
/// number of 64 bits; what the error says depends on the text alone and is left to the name.
#[verifier::external_body]
pub(crate) fn outside_i64_failure(text: &str) -> (r: Option<String>)
    ensures
        match r {
            Some(failure) => parsed_i64(text@) is None && failure@ == i64_failure(text@),
            None => parsed_i64(text@) is Some,
        },
{
    text.parse::<i64>().err().map(|e| e.to_string())
}

/// Reads a natural number of 64 bits.
pub fn parse_u64(s: &str) -> (r: Option<u64>)
    ensures
        match r {
            Some(v) => parsed_u64(s@) == Some(v as int),
            None => parsed_u64(s@) is None,
        },
{
    if s.unicode_len() == 0 {
        return None;
    }
    if s.get_char(0) == '+' {
        read_digits(s, 1, u64::MAX)
    } else {
        assert(s@.skip(0) =~= s@);
        read_digits(s, 0, u64::MAX)
    }
}

/// Whether a piece of text stands before another in a dictionary.
pub open spec fn text_before(a: Seq<char>, b: Seq<char>) -> bool
    decreases a.len(),
{
    if b.len() == 0 {
        false
    } else if a.len() == 0 {
        true
    } else if a[0] == b[0] {
        text_before(a.skip(1), b.skip(1))
    } else {
        a[0] < b[0]
    }
}

/// Of two different pieces of text one stands before the other.
pub proof fn lemma_before_connected(a: Seq<char>, b: Seq<char>)
    ensures
        a != b ==> text_before(a, b) || text_before(b, a),
        !(text_before(a, b) && text_before(b, a)),
    decreases a.len(),
{
    if a.len() > 0 && b.len() > 0 && a[0] == b[0] {
        lemma_before_connected(a.skip(1), b.skip(1));
        if a.skip(1) == b.skip(1) {
            assert forall|i: int| 0 <= i < a.len() implies a[i] == b[i] by {
                if i > 0 {
                    assert(a[i] == a.skip(1)[i - 1]);
                    assert(b[i] == b.skip(1)[i - 1]);
                }
            }
            assert(a.len() == a.skip(1).len() + 1);
            assert(b.len() == b.skip(1).len() + 1);
            assert(a =~= b);
        }
    } else if a.len() == 0 && b.len() == 0 {
        assert(a =~= b);
    }
}

/// What stands before a piece of text stands before what that stands before.
pub proof fn lemma_before_transitive(a: Seq<char>, b: Seq<char>, c: Seq<char>)
    requires
        text_before(a, b),
        text_before(b, c),
    ensures
        text_before(a, c),
    decreases a.len(),
{
    if a.len() > 0 && a[0] == b[0] && b[0] == c[0] {
        lemma_before_transitive(a.skip(1), b.skip(1), c.skip(1));
    }
}

/// Whether a piece of text stands before another in a dictionary.
pub fn before(a: &str, b: &str) -> (r: bool)
    ensures
        r == text_before(a@, b@),
{
    let n = a.unicode_len();
    let m = b.unicode_len();
    let mut i: usize = 0;
    assert(a@.skip(0) =~= a@);
    assert(b@.skip(0) =~= b@);
    while i < n && i < m
        invariant
            n == a@.len(),
            m == b@.len(),
            i <= n,
            i <= m,
            text_before(a@, b@) == text_before(a@.skip(i as int), b@.skip(i as int)),
        decreases n - i,
    {
        let x = a.get_char(i);
        let y = b.get_char(i);
        if x != y {
            return x < y;
        }
        assert(a@.skip(i as int).skip(1) =~= a@.skip(i + 1));
        assert(b@.skip(i as int).skip(1) =~= b@.skip(i + 1));
        i = i + 1;
    }
    i < m
}

/// Two strings are the same but for the case exactly if they are as long and each character is
/// the same or its large or small form, where only the letters A to Z have one.
pub proof fn law_case_makes_no_difference(a: &str, b: &str, r: bool)
    requires
        call_ensures(eq_ignore_ascii_case, (a, b), r),
    ensures
        a@ == b@ ==> r,
        r ==> a@.len() == b@.len(),
        r ==> forall|i: int|
            0 <= i < a@.len() ==> {
                let (x, y) = (#[trigger] a@[i], b@[i]);
                x == y || ('A' <= x <= 'Z' && y as int == x as int + 32) || ('A' <= y <= 'Z'
                    && x as int == y as int + 32)
            },
        (a@.len() == b@.len() && forall|i: int|
            0 <= i < a@.len() ==> {
                let (x, y) = (#[trigger] a@[i], b@[i]);
                x == y || ('A' <= x <= 'Z' && y as int == x as int + 32) || ('A' <= y <= 'Z'
                    && x as int == y as int + 32)
            }) ==> r,
{
}

/// A whole number that was written reads back as itself.
pub proof fn law_whole_numbers_read_back(i: i64, written: String, text: &str, r: Option<i64>)
    requires
        call_ensures(i64_text, (i,), written),
        text@ == written@,
        call_ensures(parse_i64, (text,), r),
    ensures
        r == Some(i),
{
    law_int_text_reads_back(i);
}

} // verus!
