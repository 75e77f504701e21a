//! Decimal rendering of unsigned numbers and character-level string helpers.
//!
//! Symbol and label names are modelled as `Seq<char>`; the spec functions here
//! give the decimal text of a number, and the executable functions produce the
//! matching `String` values.

use vstd::prelude::*;

verus! {

/// The character for one decimal digit.
pub open spec fn digit_char(d: nat) -> char {
    if d == 0 {
        '0'
    } else if d == 1 {
        '1'
    } else if d == 2 {
        '2'
    } else if d == 3 {
        '3'
    } else if d == 4 {
        '4'
    } else if d == 5 {
        '5'
    } else if d == 6 {
        '6'
    } else if d == 7 {
        '7'
    } else if d == 8 {
        '8'
    } else {
        '9'
    }
}

/// The decimal text of `n`, most significant digit first, with no sign and no
/// leading zero (except for `n == 0` itself).
pub open spec fn dec_spec(n: nat) -> Seq<char>
    decreases n,
{
    if n < 10 {
        seq![digit_char(n)]
    } else {
        dec_spec(n / 10).push(digit_char(n % 10))
    }
}

/// Every character of a decimal rendering is a digit character.
pub open spec fn is_digit_char(c: char) -> bool {
    c == '0' || c == '1' || c == '2' || c == '3' || c == '4' || c == '5' || c == '6' || c == '7'
        || c == '8' || c == '9'
}

pub proof fn lemma_dec_chars_are_digits(n: nat)
    ensures
        forall|i: int| 0 <= i < dec_spec(n).len() ==> is_digit_char(#[trigger] dec_spec(n)[i]),
    decreases n,
{
    if n < 10 {
        assert(dec_spec(n) == seq![digit_char(n)]);
        assert(dec_spec(n)[0] == digit_char(n));
    } else {
        lemma_dec_chars_are_digits(n / 10);
        let prefix = dec_spec(n / 10);
        assert(dec_spec(n) == prefix.push(digit_char(n % 10)));
        assert forall|i: int| 0 <= i < dec_spec(n).len() implies is_digit_char(
            #[trigger] dec_spec(n)[i],
        ) by {
            if i < prefix.len() {
                assert(dec_spec(n)[i] == prefix[i]);
            } else {
                assert(dec_spec(n)[i] == digit_char(n % 10));
            }
        }
    }
}

pub proof fn lemma_dec_len(n: nat)
    ensures
        dec_spec(n).len() >= 1,
        n < 10 <==> dec_spec(n).len() == 1,
    decreases n,
{
    if n >= 10 {
        lemma_dec_len(n / 10);
    }
}

/// Distinct numbers have distinct decimal texts.
pub proof fn lemma_dec_injective(a: nat, b: nat)
    requires
        dec_spec(a) == dec_spec(b),
    ensures
        a == b,
    decreases a,
{
    lemma_dec_len(a);
    lemma_dec_len(b);
    if a < 10 && b < 10 {
        assert(dec_spec(a) == seq![digit_char(a)]);
        assert(dec_spec(b) == seq![digit_char(b)]);
        assert(dec_spec(a)[0] == digit_char(a));
        assert(dec_spec(b)[0] == digit_char(b));
        assert(digit_char(a) == digit_char(b));
    } else if a >= 10 && b >= 10 {
        let la = dec_spec(a / 10);
        let lb = dec_spec(b / 10);
        assert(dec_spec(a) == la.push(digit_char(a % 10)));
        assert(dec_spec(b) == lb.push(digit_char(b % 10)));
        assert(dec_spec(a).last() == digit_char(a % 10));
        assert(dec_spec(b).last() == digit_char(b % 10));
        assert(a % 10 == b % 10);
        assert(la.len() == lb.len());
        assert(dec_spec(a).drop_last() =~= la);
        assert(dec_spec(b).drop_last() =~= lb);
        lemma_dec_injective(a / 10, b / 10);
        assert(a == 10 * (a / 10) + a % 10);
        assert(b == 10 * (b / 10) + b % 10);
    } else {
        assert(dec_spec(a).len() != dec_spec(b).len());
    }
}

/// The text of one digit value below ten.
fn digit_text(d: u64) -> (r: &'static str)
    requires
        d < 10,
    ensures
        r@ == seq![digit_char(d as nat)],
{
    proof {
        reveal_strlit("0");
        reveal_strlit("1");
        reveal_strlit("2");
        reveal_strlit("3");
        reveal_strlit("4");
        reveal_strlit("5");
        reveal_strlit("6");
        reveal_strlit("7");
        reveal_strlit("8");
        reveal_strlit("9");
    }
    if d == 0 {
        proof {
            assert("0"@ =~= seq![digit_char(0)]);
        }
        "0"
    } else if d == 1 {
        proof {
            assert("1"@ =~= seq![digit_char(1)]);
        }
        "1"
    } else if d == 2 {
        proof {
            assert("2"@ =~= seq![digit_char(2)]);
        }
        "2"
    } else if d == 3 {
        proof {
            assert("3"@ =~= seq![digit_char(3)]);
        }
        "3"
    } else if d == 4 {
        proof {
            assert("4"@ =~= seq![digit_char(4)]);
        }
        "4"
    } else if d == 5 {
        proof {
            assert("5"@ =~= seq![digit_char(5)]);
        }
        "5"
    } else if d == 6 {
        proof {
            assert("6"@ =~= seq![digit_char(6)]);
        }
        "6"
    } else if d == 7 {
        proof {
            assert("7"@ =~= seq![digit_char(7)]);
        }
        "7"
    } else if d == 8 {
        proof {
            assert("8"@ =~= seq![digit_char(8)]);
        }
        "8"
    } else {
        proof {
            assert("9"@ =~= seq![digit_char(9)]);
        }
        "9"
    }
}

/// The decimal text of `n` as an owned string.
pub fn to_dec(n: u64) -> (r: String)
    ensures
        r@ == dec_spec(n as nat),
    decreases n,
{
    if n < 10 {
        digit_text(n).to_owned()
    } else {
        let high = to_dec(n / 10);
        let low = digit_text(n % 10);
        let r = high.concat(low);
        proof {
            assert(r@ =~= dec_spec(n as nat));
        }
        r
    }
}

/// ASCII whitespace, as the token splitter recognizes it.
pub open spec fn is_ws(c: char) -> bool {
    c == ' ' || c == '\t' || c == '\n' || c == '\x0C' || c == '\r'
}

/// The first non-whitespace position at or after `i`, or the end.
pub open spec fn tok_start(s: Seq<char>, i: int) -> int
    decreases s.len() - i,
{
    if i < 0 || i >= s.len() {
        s.len() as int
    } else if is_ws(s[i]) {
        tok_start(s, i + 1)
    } else {
        i
    }
}

/// The first whitespace position at or after `i`, or the end.
pub open spec fn tok_end(s: Seq<char>, i: int) -> int
    decreases s.len() - i,
{
    if i < 0 || i >= s.len() {
        s.len() as int
    } else if is_ws(s[i]) {
        i
    } else {
        tok_end(s, i + 1)
    }
}

/// Whether `c` is ASCII whitespace.
pub fn ws_char(c: char) -> (r: bool)
    ensures
        r == is_ws(c),
{
    c == ' ' || c == '\t' || c == '\n' || c == '\x0C' || c == '\r'
}

/// The position of the first non-whitespace character at or after `from`.
pub fn skip_ws(s: &str, from: usize) -> (r: usize)
    requires
        from as int <= s@.len(),
    ensures
        r as int == tok_start(s@, from as int),
        from <= r,
        r as int <= s@.len(),
{
    let len = s.unicode_len();
    let mut i = from;
    loop
        invariant
            from <= i <= len,
            len == s@.len(),
            tok_start(s@, from as int) == tok_start(s@, i as int),
        decreases len - i,
    {
        if i < len {
            if ws_char(s.get_char(i)) {
                i = i + 1;
            } else {
                return i;
            }
        } else {
            return i;
        }
    }
}

/// The position of the first whitespace character at or after `from`.
pub fn scan_token(s: &str, from: usize) -> (r: usize)
    requires
        from as int <= s@.len(),
    ensures
        r as int == tok_end(s@, from as int),
        from <= r,
        r as int <= s@.len(),
{
    let len = s.unicode_len();
    let mut i = from;
    loop
        invariant
            from <= i <= len,
            len == s@.len(),
            tok_end(s@, from as int) == tok_end(s@, i as int),
        decreases len - i,
    {
        if i < len {
            if !ws_char(s.get_char(i)) {
                i = i + 1;
            } else {
                return i;
            }
        } else {
            return i;
        }
    }
}

/// The numeric value of one digit character.
pub open spec fn char_digit(c: char) -> nat {
    if c == '0' {
        0
    } else if c == '1' {
        1
    } else if c == '2' {
        2
    } else if c == '3' {
        3
    } else if c == '4' {
        4
    } else if c == '5' {
        5
    } else if c == '6' {
        6
    } else if c == '7' {
        7
    } else if c == '8' {
        8
    } else {
        9
    }
}

/// A non-empty run of decimal digits.
pub open spec fn all_digits(t: Seq<char>) -> bool {
    t.len() > 0 && forall|i: int| 0 <= i < t.len() ==> is_digit_char(#[trigger] t[i])
}

/// The numeric value of a run of decimal digits, most significant first.
pub open spec fn digits_val(t: Seq<char>) -> nat
    decreases t.len(),
{
    if t.len() == 0 {
        0
    } else {
        digits_val(t.drop_last()) * 10 + char_digit(t.last())
    }
}

/// The value of one digit character, or nothing for any other character.
fn digit_val_of(c: char) -> (r: Option<u32>)
    ensures
        match r {
            Some(v) => is_digit_char(c) && v as nat == char_digit(c) && v < 10,
            None => !is_digit_char(c),
        },
{
    match c {
        '0' => Some(0),
        '1' => Some(1),
        '2' => Some(2),
        '3' => Some(3),
        '4' => Some(4),
        '5' => Some(5),
        '6' => Some(6),
        '7' => Some(7),
        '8' => Some(8),
        '9' => Some(9),
        _ => None,
    }
}

/// Reads a non-negative decimal index: the token must be all digits and its
/// value must fit; anything else yields nothing.
pub fn parse_u16(t: &str) -> (r: Option<u16>)
    ensures
        match r {
            Some(v) => all_digits(t@) && digits_val(t@) == v as nat,
            None => !(all_digits(t@) && digits_val(t@) <= u16::MAX as nat),
        },
{
    let len = t.unicode_len();
    let mut i: usize = 0;
    let mut val: u32 = 0;
    while i < len
        invariant
            0 <= i <= len,
            len == t@.len(),
            forall|j: int| 0 <= j < i ==> is_digit_char(#[trigger] t@[j]),
            digits_val(t@.subrange(0, i as int)) <= u16::MAX ==> val as nat == digits_val(
                t@.subrange(0, i as int),
            ),
            digits_val(t@.subrange(0, i as int)) > u16::MAX ==> val > u16::MAX,
            val <= 0xFFFF * 10 + 9,
        decreases len - i,
    {
        let c = t.get_char(i);
        let ghost prefix = t@.subrange(0, i as int);
        let ghost extended = t@.subrange(0, i as int + 1);
        proof {
            assert(extended.drop_last() =~= prefix);
            assert(extended.last() == t@[i as int]);
        }
        match digit_val_of(c) {
            Some(d) => {
                if val <= 0xFFFF {
                    val = val * 10 + d;
                } else {
                    proof {
                        assert(digits_val(extended) == digits_val(prefix) * 10 + char_digit(
                            extended.last(),
                        ));
                        assert(digits_val(extended) >= digits_val(prefix));
                    }
                }
            },
            None => {
                return None;
            },
        }
        i = i + 1;
    }
    proof {
        assert(t@.subrange(0, len as int) =~= t@);
    }
    if len == 0 {
        return None;
    }
    if val <= 0xFFFF {
        Some(val as u16)
    } else {
        None
    }
}

/// Character-by-character equality of two string slices.
pub fn str_eq(a: &str, b: &str) -> (r: bool)
    ensures
        r == (a@ == b@),
{
    let alen = a.unicode_len();
    let blen = b.unicode_len();
    if alen != blen {
        proof {
            assert(a@.len() != b@.len());
        }
        return false;
    }
    let mut i: usize = 0;
    while i < alen
        invariant
            i <= alen,
            alen == a@.len(),
            alen == b@.len(),
            forall|j: int| 0 <= j < i ==> a@[j] == b@[j],
        decreases alen - i,
    {
        if a.get_char(i) != b.get_char(i) {
            return false;
        }
        i += 1;
    }
    proof {
        assert(a@ =~= b@);
    }
    true
}

} // verus!
