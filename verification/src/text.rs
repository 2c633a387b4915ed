//! Small text utilities shared across the crate: hexadecimal and decimal
//! rendering, decimal parsing, character classes and lexicographic order
//! on strings.

use vstd::prelude::*;

verus! {

/// Relies on `String::push`: appends exactly the one character.
#[verifier::external_body]
pub fn push_char(s: &mut String, c: char)
    ensures
        final(s)@ == old(s)@ + seq![c],
{
    s.push(c);
}

/// The character for one digit value below 16: `0..=9` then `a..=f`.
pub open spec fn digit_char(n: u8) -> char
    recommends
        n < 16,
{
    if n < 10 {
        ((n + 48) as u8) as char
    } else {
        ((n + 87) as u8) as char
    }
}

pub fn digit_char_exec(n: u8) -> (c: char)
    requires
        n < 16,
    ensures
        c == digit_char(n),
{
    if n < 10 {
        (n + 48) as char
    } else {
        (n + 87) as char
    }
}

/// Lowercase hexadecimal rendering of a byte sequence, two digits per byte.
pub open spec fn hex_of(data: Seq<u8>) -> Seq<char>
    decreases data.len(),
{
    if data.len() == 0 {
        Seq::empty()
    } else {
        seq![digit_char(data.first() / 16), digit_char(data.first() % 16)] + hex_of(
            data.drop_first(),
        )
    }
}

pub proof fn lemma_hex_of_len(data: Seq<u8>)
    ensures
        hex_of(data).len() == 2 * data.len(),
    decreases data.len(),
{
    if data.len() > 0 {
        lemma_hex_of_len(data.drop_first());
    }
}

pub fn to_hex(data: &[u8]) -> (r: String)
    ensures
        r@ == hex_of(data@),
{
    let mut r = String::new();
    let mut i: usize = 0;
    proof {
        assert(data@.skip(0) == data@);
    }
    while i < data.len()
        invariant
            i <= data@.len(),
            hex_of(data@) == r@ + hex_of(data@.skip(i as int)),
        decreases data@.len() - i,
    {
        let b = data[i];
        push_char(&mut r, digit_char_exec(b / 16));
        push_char(&mut r, digit_char_exec(b % 16));
        proof {
            assert(data@.skip(i as int).drop_first() =~= data@.skip(i + 1));
        }
        i = i + 1;
    }
    proof {
        assert(hex_of(data@.skip(i as int)) =~= Seq::<char>::empty());
        assert(r@ + Seq::<char>::empty() =~= r@);
    }
    r
}

pub open spec fn is_lower_hex_char(c: char) -> bool {
    ('0' <= c && c <= '9') || ('a' <= c && c <= 'f')
}

pub open spec fn all_lower_hex(s: Seq<char>) -> bool {
    forall|i: int| 0 <= i < s.len() ==> is_lower_hex_char(#[trigger] s[i])
}

pub proof fn lemma_digit_char_is_lower_hex(n: u8)
    requires
        n < 16,
    ensures
        is_lower_hex_char(digit_char(n)),
{
}

pub proof fn lemma_hex_of_is_lower_hex(data: Seq<u8>)
    ensures
        all_lower_hex(hex_of(data)),
    decreases data.len(),
{
    if data.len() > 0 {
        lemma_hex_of_is_lower_hex(data.drop_first());
        lemma_digit_char_is_lower_hex(data.first() / 16);
        lemma_digit_char_is_lower_hex(data.first() % 16);
        let head = seq![digit_char(data.first() / 16), digit_char(data.first() % 16)];
        let rest = hex_of(data.drop_first());
        assert forall|i: int| 0 <= i < hex_of(data).len() implies is_lower_hex_char(
            #[trigger] hex_of(data)[i],
        ) by {
            if i < 2 {
                assert(hex_of(data)[i] == head[i]);
            } else {
                assert(hex_of(data)[i] == rest[i - 2]);
            }
        }
    }
}

/// Decimal rendering of a natural number, no leading zeros except for zero
/// itself.
pub open spec fn dec_of(n: nat) -> Seq<char>
    decreases n,
{
    if n < 10 {
        seq![digit_char(n as u8)]
    } else {
        dec_of(n / 10) + seq![digit_char((n % 10) as u8)]
    }
}

pub fn u64_to_dec(n: u64) -> (r: String)
    ensures
        r@ == dec_of(n as nat),
    decreases n,
{
    if n < 10 {
        let mut r = String::new();
        push_char(&mut r, digit_char_exec((n % 10) as u8));
        proof {
            assert(Seq::<char>::empty() + seq![digit_char((n % 10) as u8)] =~= seq![
                digit_char(n as u8),
            ]);
        }
        r
    } else {
        let mut r = u64_to_dec(n / 10);
        push_char(&mut r, digit_char_exec((n % 10) as u8));
        r
    }
}

pub open spec fn is_dec_char(c: char) -> bool {
    '0' <= c <= '9'
}

/// A non-empty string of decimal digits.
pub open spec fn is_dec_str(s: Seq<char>) -> bool {
    s.len() > 0 && forall|i: int| 0 <= i < s.len() ==> is_dec_char(#[trigger] s[i])
}

/// Numeric value of a digit string, most significant digit first.
pub open spec fn dec_val(s: Seq<char>) -> nat
    decreases s.len(),
{
    if s.len() == 0 {
        0
    } else {
        (dec_val(s.drop_last()) * 10 + (s.last() as int - 48)) as nat
    }
}

proof fn lemma_dec_val_prefix_grows(s: Seq<char>, i: int)
    requires
        0 <= i <= s.len(),
        is_dec_str(s),
    ensures
        dec_val(s.take(i)) <= dec_val(s),
    decreases s.len() - i,
{
    if i < s.len() {
        assert(s.take(i + 1).drop_last() =~= s.take(i));
        assert(is_dec_char(s[i]));
        assert(s.take(i + 1).last() == s[i]);
        assert(dec_val(s.take(i + 1)) == (dec_val(s.take(i)) * 10 + (s[i] as int - 48)) as nat);
        assert(dec_val(s.take(i)) <= dec_val(s.take(i + 1)));
        lemma_dec_val_prefix_grows(s, i + 1);
    } else {
        assert(s.take(i) =~= s);
    }
}

/// Parses a decimal string; `None` on an empty string, a non-digit, or a
/// value over `u64::MAX`.
pub fn parse_u64(s: &str) -> (r: Option<u64>)
    ensures
        match r {
            Some(v) => is_dec_str(s@) && dec_val(s@) == v as nat,
            None => !(is_dec_str(s@) && dec_val(s@) <= u64::MAX),
        },
{
    let len = s.unicode_len();
    if len == 0 {
        return None;
    }
    let mut acc: u64 = 0;
    let mut i: usize = 0;
    while i < len
        invariant
            0 <= i <= len,
            len == s@.len(),
            forall|j: int| 0 <= j < i ==> is_dec_char(#[trigger] s@[j]),
            acc as nat == dec_val(s@.take(i as int)),
        decreases len - i,
    {
        let c = s.get_char(i);
        if c < '0' || c > '9' {
            return None;
        }
        let d: u64 = (c as u32 as u64) - 48;
        proof {
            assert(s@.take(i + 1).drop_last() =~= s@.take(i as int));
        }
        if acc > 0xffff_ffff_ffff_ffff / 10 {
            proof {
                if is_dec_str(s@) {
                    lemma_dec_val_prefix_grows(s@, i + 1);
                }
            }
            return None;
        }
        let next = acc * 10;
        if next > 0xffff_ffff_ffff_ffff - d {
            proof {
                if is_dec_str(s@) {
                    lemma_dec_val_prefix_grows(s@, i + 1);
                }
            }
            return None;
        }
        acc = next + d;
        i = i + 1;
    }
    proof {
        assert(s@.take(len as int) =~= s@);
    }
    Some(acc)
}

/// Decides equality of two string slices by their character sequences.
pub fn str_eq(a: &str, b: &str) -> (r: bool)
    ensures
        r == (a@ == b@),
{
    let sa = String::from_str(a);
    let sb = String::from_str(b);
    sa == sb
}

/// Strict lexicographic order on character sequences, by character code.
pub open spec fn lex_lt(a: Seq<char>, b: Seq<char>) -> bool
    decreases a.len(),
{
    if b.len() == 0 {
        false
    } else if a.len() == 0 {
        true
    } else if a.first() < b.first() {
        true
    } else if b.first() < a.first() {
        false
    } else {
        lex_lt(a.drop_first(), b.drop_first())
    }
}

pub proof fn lemma_lex_lt_irreflexive(a: Seq<char>)
    ensures
        !lex_lt(a, a),
    decreases a.len(),
{
    if a.len() > 0 {
        lemma_lex_lt_irreflexive(a.drop_first());
    }
}

pub proof fn lemma_lex_lt_total(a: Seq<char>, b: Seq<char>)
    ensures
        lex_lt(a, b) || lex_lt(b, a) || a == b,
    decreases a.len(),
{
    if a.len() == 0 {
        if b.len() == 0 {
            assert(a =~= b);
        }
    } else if b.len() == 0 {
    } else if a.first() == b.first() {
        lemma_lex_lt_total(a.drop_first(), b.drop_first());
        if a.drop_first() == b.drop_first() {
            assert(a.drop_first().len() == a.len() - 1);
            assert(b.drop_first().len() == b.len() - 1);
            assert(a.len() == b.len());
            assert forall|i: int| 0 <= i < a.len() implies #[trigger] a[i] == b[i] by {
                if i > 0 {
                    assert(a.drop_first()[i - 1] == b.drop_first()[i - 1]);
                    assert(a.drop_first()[i - 1] == a[i]);
                    assert(b.drop_first()[i - 1] == b[i]);
                }
            }
            assert(a =~= b);
        }
    }
}

pub proof fn lemma_lex_lt_transitive(a: Seq<char>, b: Seq<char>, c: Seq<char>)
    requires
        lex_lt(a, b),
        lex_lt(b, c),
    ensures
        lex_lt(a, c),
    decreases a.len(),
{
    if a.len() > 0 && b.len() > 0 && c.len() > 0 && a.first() == b.first() && b.first()
        == c.first() {
        lemma_lex_lt_transitive(a.drop_first(), b.drop_first(), c.drop_first());
    }
}

/// Decides `lex_lt` on string slices.
pub fn str_lt(a: &str, b: &str) -> (r: bool)
    ensures
        r == lex_lt(a@, b@),
{
    let alen = a.unicode_len();
    let blen = b.unicode_len();
    let mut i: usize = 0;
    proof {
        assert(a@.skip(0) =~= a@);
        assert(b@.skip(0) =~= b@);
    }
    while i < alen && i < blen
        invariant
            0 <= i <= alen,
            0 <= i <= blen,
            alen == a@.len(),
            blen == b@.len(),
            lex_lt(a@, b@) == lex_lt(a@.skip(i as int), b@.skip(i as int)),
        decreases alen - i,
    {
        let ca = a.get_char(i);
        let cb = b.get_char(i);
        if ca < cb {
            return true;
        }
        if cb < ca {
            return false;
        }
        proof {
            assert(a@.skip(i as int).drop_first() =~= a@.skip(i + 1));
            assert(b@.skip(i as int).drop_first() =~= b@.skip(i + 1));
        }
        i = i + 1;
    }
    proof {
        if i >= blen {
            assert(b@.skip(i as int).len() == 0);
        } else {
            assert(a@.skip(i as int).len() == 0);
            assert(b@.skip(i as int).len() > 0);
        }
    }
    i >= alen && i < blen
}

} // verus!
