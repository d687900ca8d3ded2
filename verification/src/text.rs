use vstd::prelude::*;

verus! {

/// Equality of two strings by content (`str::eq`).
#[verifier::external_body]
pub(crate) fn str_eq(a: &str, b: &str) -> (r: bool)
    ensures
        r == (a@ == b@),
{
    a == b
}

/// Appends one character (`String::push`).
#[verifier::external_body]
pub(crate) fn push_char(s: &mut String, c: char)
    ensures
        final(s)@ == old(s)@.push(c),
{
    s.push(c)
}

/// Appends a string slice (`String::push_str`).
#[verifier::external_body]
pub(crate) fn push_str(s: &mut String, tail: &str)
    ensures
        final(s)@ == old(s)@ + tail@,
{
    s.push_str(tail)
}

/// The text that `str::trim` leaves of a text: the text without the white
/// space at its start and at its end.
pub uninterp spec fn trimmed(s: Seq<char>) -> Seq<char>;

/// The text that `str::to_lowercase` makes of a text.
pub uninterp spec fn lowercased(s: Seq<char>) -> Seq<char>;

/// Whether `part` stands somewhere in `whole`.
pub open spec fn is_infix(part: Seq<char>, whole: Seq<char>) -> bool {
    exists|i: int|
        0 <= i <= whole.len() - part.len() && #[trigger] whole.subrange(i, i + part.len()) == part
}

/// A text without the white space around it (`str::trim`).
#[verifier::external_body]
pub(crate) fn trim(s: &str) -> (r: &str)
    ensures
        r@ == trimmed(s@),
{
    s.trim()
}

/// A text in small letters (`str::to_lowercase`).
#[verifier::external_body]
pub(crate) fn to_lowercase(s: &str) -> (r: String)
    ensures
        r@ == lowercased(s@),
{
    s.to_lowercase()
}

/// Whether `part` stands somewhere in `whole` (`str::contains`).
#[verifier::external_body]
pub(crate) fn contains(whole: &str, part: &str) -> (r: bool)
    ensures
        r == is_infix(part@, whole@),
{
    whole.contains(part)
}

/// The text that `String::from_utf8_lossy` makes of bytes.
pub uninterp spec fn lossy_text(bytes: Seq<u8>) -> Seq<char>;

/// Bytes as text (`String::from_utf8_lossy`): valid UTF-8 is decoded as it
/// is, and each invalid sequence becomes the replacement character.
#[verifier::external_body]
pub(crate) fn utf8_lossy(bytes: &[u8]) -> (r: String)
    ensures
        r@ == lossy_text(bytes@),
        vstd::utf8::valid_utf8(bytes@) ==> vstd::utf8::encode_utf8(r@) == bytes@,
{
    String::from_utf8_lossy(bytes).into_owned()
}

/// The path that `Path::join` makes of a base path and a relative one.
pub uninterp spec fn joined_path(base: Seq<char>, child: Seq<char>) -> Seq<char>;

/// A path under `base` (`Path::join`, read back as text).
#[verifier::external_body]
pub(crate) fn join_path(base: &str, child: &str) -> (r: String)
    ensures
        r@ == joined_path(base@, child@),
{
    std::path::Path::new(base).join(child).to_string_lossy().into_owned()
}

/// A new string made of `head` followed by `tail`.
pub fn joined(head: &str, tail: &str) -> (r: String)
    ensures
        r@ == head@ + tail@,
{
    let mut out = head.to_owned();
    push_str(&mut out, tail);
    out
}

/// The decimal digits of a number, most significant first.
pub open spec fn digits_of(n: nat) -> Seq<char>
    decreases n,
{
    if n < 10 {
        seq![((48 + n) as u8) as char]
    } else {
        digits_of(n / 10).push(((48 + n % 10) as u8) as char)
    }
}

/// A number in decimal, with a minus sign before a negative one.
pub open spec fn decimal_of(n: int) -> Seq<char> {
    if n < 0 {
        seq!['-'] + digits_of((-n) as nat)
    } else {
        digits_of(n as nat)
    }
}

fn push_digits(out: &mut String, n: u64)
    ensures
        final(out)@ == old(out)@ + digits_of(n as nat),
    decreases n,
{
    if n >= 10 {
        push_digits(out, n / 10);
    }
    let digit: u8 = (n % 10) as u8;
    push_char(out, (48 + digit) as char);
    proof {
        if n >= 10 {
            assert(final(out)@ =~= old(out)@ + digits_of(n as nat));
        } else {
            assert(final(out)@ =~= old(out)@ + digits_of(n as nat));
        }
    }
}

/// A number in decimal.
pub fn u64_to_string(n: u64) -> (r: String)
    ensures
        r@ == decimal_of(n as int),
{
    let mut out = String::new();
    push_digits(&mut out, n);
    proof {
        assert(Seq::<char>::empty() + digits_of(n as nat) =~= digits_of(n as nat));
    }
    out
}

/// A number in decimal, with a minus sign before a negative one.
pub fn i64_to_string(n: i64) -> (r: String)
    ensures
        r@ == decimal_of(n as int),
{
    if n >= 0 {
        return u64_to_string(n as u64);
    }
    let magnitude: u64 = ((-(n + 1)) as u64) + 1;
    let mut out = String::new();
    push_char(&mut out, '-');
    push_digits(&mut out, magnitude);
    proof {
        assert(Seq::<char>::empty().push('-') =~= seq!['-']);
    }
    out
}

/// The value of a run of decimal digits; nothing where a byte is no digit
/// or the value does not fit in 64 bits.
pub open spec fn digits_value(s: Seq<u8>) -> Option<int>
    decreases s.len(),
{
    if s.len() == 0 {
        Some(0)
    } else if !(48 <= s.last() <= 57) {
        None
    } else {
        match digits_value(s.drop_last()) {
            Some(v) => if v * 10 + (s.last() - 48) <= u64::MAX {
                Some(v * 10 + (s.last() - 48))
            } else {
                None
            },
            None => None,
        }
    }
}

/// The number that a text is the decimal of: an optional plus sign, then
/// digits only, at least one, with a value that fits in 64 bits.
pub open spec fn parsed_u64(s: Seq<u8>) -> Option<u64> {
    let body = if s.len() > 0 && s[0] == 43 {
        s.skip(1)
    } else {
        s
    };
    if body.len() == 0 {
        None
    } else {
        match digits_value(body) {
            Some(v) => Some(v as u64),
            None => None,
        }
    }
}

/// The value of a run of digits fits in 64 bits.
pub proof fn lemma_digits_value_bound(s: Seq<u8>)
    ensures
        digits_value(s) matches Some(v) ==> 0 <= v <= u64::MAX,
    decreases s.len(),
{
    if s.len() > 0 {
        lemma_digits_value_bound(s.drop_last());
    }
}

/// Once a prefix of the digits has no value, the whole has none.
pub proof fn lemma_digits_value_none(s: Seq<u8>, n: int)
    requires
        0 <= n <= s.len(),
        digits_value(s.take(n)) is None,
    ensures
        digits_value(s) is None,
    decreases s.len() - n,
{
    if n < s.len() {
        assert(s.take(n + 1).drop_last() =~= s.take(n));
        lemma_digits_value_none(s, n + 1);
    } else {
        assert(s.take(n) =~= s);
    }
}

/// Reads an unsigned decimal number.
pub fn parse_u64(text: &[u8]) -> (r: Option<u64>)
    ensures
        r == parsed_u64(text@),
{
    let start: usize = if text.len() > 0 && text[0] == 43 {
        1
    } else {
        0
    };
    proof {
        assert(text@.skip(0) =~= text@);
    }
    if start == text.len() {
        return None;
    }
    read_digits(text, start)
}

/// The number that a text is the decimal of: an optional sign, then digits
/// only, at least one, with a value that fits in 32 bits with sign.
pub open spec fn parsed_i32(s: Seq<u8>) -> Option<i32> {
    let negative = s.len() > 0 && s[0] == 45;
    let body = if s.len() > 0 && (s[0] == 43 || s[0] == 45) {
        s.skip(1)
    } else {
        s
    };
    if body.len() == 0 {
        None
    } else {
        match digits_value(body) {
            Some(v) => if negative && v <= 0x8000_0000 {
                Some((-v) as i32)
            } else if !negative && v <= 0x7fff_ffff {
                Some(v as i32)
            } else {
                None
            },
            None => None,
        }
    }
}

/// Reads the digits from `start` to the end.
fn read_digits(text: &[u8], start: usize) -> (r: Option<u64>)
    requires
        start <= text@.len(),
    ensures
        r == match digits_value(text@.skip(start as int)) {
            Some(v) => Some(v as u64),
            None => None,
        },
{
    let ghost body = text@.skip(start as int);
    let mut value: u64 = 0;
    let mut i: usize = start;
    assert(body.take(0) =~= Seq::<u8>::empty());
    while i < text.len()
        invariant
            start <= i <= text@.len(),
            body == text@.skip(start as int),
            digits_value(body.take(i - start)) == Some(value as int),
        decreases text@.len() - i,
    {
        let b: u8 = text[i];
        proof {
            let next = body.take(i + 1 - start);
            assert(next.drop_last() =~= body.take(i - start));
            assert(next.last() == b);
            assert(digits_value(next) == if !(48 <= b <= 57) {
                None::<int>
            } else if value * 10 + (b - 48) <= u64::MAX {
                Some(value * 10 + (b - 48))
            } else {
                None::<int>
            });
        }
        if b < 48 || b > 57 {
            proof {
                lemma_digits_value_none(body, i + 1 - start);
            }
            return None;
        }
        let digit: u64 = (b - 48) as u64;
        if value > (u64::MAX - digit) / 10 {
            proof {
                lemma_digits_value_none(body, i + 1 - start);
            }
            return None;
        }
        value = value * 10 + digit;
        i += 1;
    }
    proof {
        assert(body.take(text@.len() - start) =~= body);
    }
    Some(value)
}

/// Reads a signed decimal number of 32 bits.
pub fn parse_i32(text: &[u8]) -> (r: Option<i32>)
    ensures
        r == parsed_i32(text@),
{
    let negative = text.len() > 0 && text[0] == 45;
    let start: usize = if text.len() > 0 && (text[0] == 43 || text[0] == 45) {
        1
    } else {
        0
    };
    proof {
        assert(text@.skip(0) =~= text@);
    }
    if start == text.len() {
        return None;
    }
    proof {
        lemma_digits_value_bound(text@.skip(start as int));
    }
    match read_digits(text, start) {
        Some(v) => if negative && v <= 0x8000_0000 {
            Some((0 - (v as i64)) as i32)
        } else if !negative && v <= 0x7fff_ffff {
            Some(v as i32)
        } else {
            None
        },
        None => None,
    }
}

} // verus!
