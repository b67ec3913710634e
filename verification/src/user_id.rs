//! The `UserId` value object: a 128-bit randomly generated identifier
//! with a verified codec for its canonical text form (32 lower-case
//! hexadecimal digits with hyphens after the 8th, 12th, 16th and 20th).

use vstd::prelude::*;
use vstd::string::{StrSliceExecFns, StringExecFns};
use vstd::arithmetic::div_mod::{
    lemma_div_denominator, lemma_div_multiples_vanish, lemma_fundamental_div_mod,
    lemma_fundamental_div_mod_converse,
};

verus! {

/// Sixteen to the power `n`.
pub open spec fn pow16(n: nat) -> int
    decreases n,
{
    if n == 0 {
        1
    } else {
        16 * pow16((n - 1) as nat)
    }
}

/// A lower-case hexadecimal digit (`0`-`9` or `a`-`f`).
pub open spec fn is_hex_lower(c: char) -> bool {
    ||| 48 <= c as int <= 57
    ||| 97 <= c as int <= 102
}

/// The numeric value of a lower-case hexadecimal digit.
pub open spec fn hex_val(c: char) -> int {
    if 48 <= c as int <= 57 {
        c as int - 48
    } else {
        c as int - 87
    }
}

/// The lower-case hexadecimal digit for a value below sixteen.
pub open spec fn hex_digit_char(d: int) -> char {
    if d == 0 {
        '0'
    } else if d == 1 {
        '1'
    } else if d == 2 {
        '2'
    } else if d == 3 {
        '3'
    } else if d == 4 {
        '4'
    } else if d == 5 {
        '5'
    } else if d == 6 {
        '6'
    } else if d == 7 {
        '7'
    } else if d == 8 {
        '8'
    } else if d == 9 {
        '9'
    } else if d == 10 {
        'a'
    } else if d == 11 {
        'b'
    } else if d == 12 {
        'c'
    } else if d == 13 {
        'd'
    } else if d == 14 {
        'e'
    } else {
        'f'
    }
}

/// The `k`-th hexadecimal digit of `v`, counted from the most
/// significant of its 32 digits.
pub open spec fn nibble(v: u128, k: int) -> int {
    (v as int / pow16((31 - k) as nat)) % 16
}

/// The 32 hexadecimal digits of `v`, most significant first.
pub open spec fn hex_digits(v: u128) -> Seq<char> {
    Seq::new(32, |k: int| hex_digit_char(nibble(v, k)))
}

/// The canonical text of identifier value `v`: its 32 hexadecimal
/// digits in lower case, hyphenated 8-4-4-4-12.
pub open spec fn uuid_text(v: u128) -> Seq<char> {
    hex_digits(v).subrange(0, 8) + seq!['-'] + hex_digits(v).subrange(8, 12) + seq!['-']
        + hex_digits(v).subrange(12, 16) + seq!['-'] + hex_digits(v).subrange(16, 20) + seq!['-']
        + hex_digits(v).subrange(20, 32)
}

/// Whether position `i` of the canonical text holds a hyphen.
pub open spec fn dash_pos(i: int) -> bool {
    i == 8 || i == 13 || i == 18 || i == 23
}

/// How many non-hyphen positions precede position `i` of the text.
pub open spec fn digit_index(i: int) -> int {
    if i <= 8 {
        i
    } else if i <= 13 {
        i - 1
    } else if i <= 18 {
        i - 2
    } else if i <= 23 {
        i - 3
    } else {
        i - 4
    }
}

/// The position of digit `k` within the canonical text.
pub open spec fn char_pos(k: int) -> int {
    if k < 8 {
        k
    } else if k < 12 {
        k + 1
    } else if k < 16 {
        k + 2
    } else if k < 20 {
        k + 3
    } else {
        k + 4
    }
}

/// The value of a big-endian sequence of hexadecimal digits.
pub open spec fn hex_value(s: Seq<char>) -> int
    decreases s.len(),
{
    if s.len() == 0 {
        0
    } else {
        16 * hex_value(s.drop_last()) + hex_val(s.last())
    }
}

proof fn lemma_pow16_pos(n: nat)
    ensures
        pow16(n) >= 1,
    decreases n,
{
    if n > 0 {
        lemma_pow16_pos((n - 1) as nat);
    }
}

proof fn lemma_pow16_values()
    ensures
        pow16(31) == 0x10000000000000000000000000000000,
        pow16(32) == 0x100000000000000000000000000000000,
{
    reveal_with_fuel(pow16, 33);
}

proof fn lemma_pow16_le(m: nat, n: nat)
    requires
        m <= n,
    ensures
        pow16(m) <= pow16(n),
    decreases n,
{
    if m < n {
        lemma_pow16_le(m, (n - 1) as nat);
        lemma_pow16_pos((n - 1) as nat);
    }
}

proof fn lemma_hex_digit_char_val(d: int)
    requires
        0 <= d < 16,
    ensures
        is_hex_lower(hex_digit_char(d)),
        hex_val(hex_digit_char(d)) == d,
{
}

proof fn lemma_hex_char_roundtrip(c: char)
    requires
        is_hex_lower(c),
    ensures
        0 <= hex_val(c) < 16,
        hex_digit_char(hex_val(c)) == c,
{
}

/// The digits of a hexadecimal value are recovered by division: digit
/// `k` of `hex_value(s)` (most significant first) is `hex_val(s[k])`.
proof fn lemma_hex_value_digits(s: Seq<char>)
    requires
        forall|j: int| 0 <= j < s.len() ==> is_hex_lower(#[trigger] s[j]),
    ensures
        0 <= hex_value(s) < pow16(s.len()),
        forall|k: int|
            0 <= k < s.len() ==> (hex_value(s) / pow16((s.len() - 1 - k) as nat)) % 16 == hex_val(
                #[trigger] s[k],
            ),
    decreases s.len(),
{
    if s.len() == 0 {
    } else {
        let t = s.drop_last();
        let n = s.len() as int;
        assert(forall|j: int| 0 <= j < t.len() ==> is_hex_lower(#[trigger] t[j]));
        lemma_hex_value_digits(t);
        let hv = hex_value(s);
        let d = hex_val(s.last());
        assert(0 <= d < 16);
        assert(hv == 16 * hex_value(t) + d);
        lemma_pow16_pos((n - 1) as nat);
        assert(hv < 16 * pow16((n - 1) as nat)) by {
            assert(hex_value(t) <= pow16((n - 1) as nat) - 1);
            assert(16 * hex_value(t) <= 16 * (pow16((n - 1) as nat) - 1)) by (nonlinear_arith)
                requires
                    hex_value(t) <= pow16((n - 1) as nat) - 1,
            ;
        }
        assert(pow16(n as nat) == 16 * pow16((n - 1) as nat));
        lemma_fundamental_div_mod_converse(hv, 16, hex_value(t), d);
        assert(hv % 16 == d);
        assert(hv / 16 == hex_value(t));
        assert forall|k: int| 0 <= k < n implies (hv / pow16((n - 1 - k) as nat)) % 16 == hex_val(
            s[k],
        ) by {
            if k == n - 1 {
                assert(pow16(0) == 1);
                assert(hv / 1 == hv);
                assert(s[k] == s.last());
            } else {
                let p = pow16((n - 2 - k) as nat);
                lemma_pow16_pos((n - 2 - k) as nat);
                assert(pow16((n - 1 - k) as nat) == 16 * p);
                lemma_div_denominator(hv, 16, p);
                assert(hv / (16 * p) == (hv / 16) / p);
                assert(t[k] == s[k]);
                assert((hex_value(t) / pow16((t.len() - 1 - k) as nat)) % 16 == hex_val(t[k]));
            }
        }
    }
}

/// A value below `pow16(n)` is determined by its `n` hexadecimal digits.
proof fn lemma_nibbles_unique(v1: int, v2: int, n: nat)
    requires
        0 <= v1 < pow16(n),
        0 <= v2 < pow16(n),
        forall|k: int|
            0 <= k < n ==> (v1 / pow16(#[trigger] ((n - 1 - k) as nat))) % 16 == (v2 / pow16(
                ((n - 1 - k) as nat),
            )) % 16,
    ensures
        v1 == v2,
    decreases n,
{
    if n == 0 {
        assert(pow16(0) == 1);
    } else {
        assert(pow16(0) == 1);
        assert((v1 / 1) % 16 == (v2 / 1) % 16) by {
            assert(((n - 1 - (n - 1)) as nat) == 0nat);
            assert((v1 / pow16(((n - 1 - (n - 1)) as nat))) % 16 == (v2 / pow16(
                ((n - 1 - (n - 1)) as nat),
            )) % 16);
        }
        assert(v1 / 1 == v1 && v2 / 1 == v2);
        assert(v1 % 16 == v2 % 16);
        assert(0 <= v1 / 16 < pow16((n - 1) as nat)) by {
            lemma_pow16_pos((n - 1) as nat);
            assert(pow16(n) == 16 * pow16((n - 1) as nat));
            assert(v1 / 16 >= 0 && v1 / 16 < pow16((n - 1) as nat)) by (nonlinear_arith)
                requires
                    0 <= v1 < 16 * pow16((n - 1) as nat),
            ;
        }
        assert(0 <= v2 / 16 < pow16((n - 1) as nat)) by {
            lemma_pow16_pos((n - 1) as nat);
            assert(pow16(n) == 16 * pow16((n - 1) as nat));
            assert(v2 / 16 >= 0 && v2 / 16 < pow16((n - 1) as nat)) by (nonlinear_arith)
                requires
                    0 <= v2 < 16 * pow16((n - 1) as nat),
            ;
        }
        assert forall|k: int|
            0 <= k < (n - 1) as nat implies ((v1 / 16) / pow16(
            #[trigger] (((n - 1) as nat - 1 - k) as nat),
        )) % 16 == ((v2 / 16) / pow16((((n - 1) as nat - 1 - k) as nat))) % 16 by {
            let p = pow16((n - 2 - k) as nat);
            lemma_pow16_pos((n - 2 - k) as nat);
            assert(pow16((n - 1 - k) as nat) == 16 * p);
            lemma_div_denominator(v1, 16, p);
            lemma_div_denominator(v2, 16, p);
            assert((v1 / pow16(((n - 1 - k) as nat))) % 16 == (v2 / pow16(((n - 1 - k) as nat)))
                % 16);
        }
        lemma_nibbles_unique(v1 / 16, v2 / 16, (n - 1) as nat);
        lemma_fundamental_div_mod(v1, 16);
        lemma_fundamental_div_mod(v2, 16);
    }
}

/// The canonical text has 36 characters: a hyphen at each hyphen
/// position, and elsewhere the digit the position maps to.
proof fn lemma_uuid_text_char(v: u128)
    ensures
        uuid_text(v).len() == 36,
        forall|i: int|
            0 <= i < 36 && dash_pos(i) ==> #[trigger] uuid_text(v)[i] == '-',
        forall|i: int|
            0 <= i < 36 && !dash_pos(i) ==> #[trigger] uuid_text(v)[i] == hex_digits(v)[digit_index(
                i,
            )],
{
    let h = hex_digits(v);
    let s = uuid_text(v);
    assert(s.len() == 36);
    assert forall|i: int| 0 <= i < 36 && dash_pos(i) implies #[trigger] s[i] == '-' by {
        assert(s[8] == '-');
        assert(s[13] == '-');
        assert(s[18] == '-');
        assert(s[23] == '-');
    }
    assert forall|i: int| 0 <= i < 36 && !dash_pos(i) implies #[trigger] s[i] == h[digit_index(
        i,
    )] by {
        if i < 8 {
            assert(s[i] == h.subrange(0, 8)[i]);
        } else if i < 13 {
            assert(s[i] == h.subrange(8, 12)[i - 9]);
        } else if i < 18 {
            assert(s[i] == h.subrange(12, 16)[i - 14]);
        } else if i < 23 {
            assert(s[i] == h.subrange(16, 20)[i - 19]);
        } else {
            assert(s[i] == h.subrange(20, 32)[i - 24]);
        }
    }
}

/// Two identifier values with the same canonical text are equal.
/// Together with the contracts of `from_string` and `to_string` this
/// gives the text round trip in both directions.
pub proof fn lemma_uuid_text_injective(v1: u128, v2: u128)
    requires
        uuid_text(v1) == uuid_text(v2),
    ensures
        v1 == v2,
{
    lemma_uuid_text_char(v1);
    lemma_uuid_text_char(v2);
    assert forall|k: int| 0 <= k < 32 implies hex_digits(v1)[k] == hex_digits(v2)[k] by {
        let i = char_pos(k);
        assert(!dash_pos(i) && digit_index(i) == k);
        assert(uuid_text(v1)[i] == hex_digits(v1)[k]);
        assert(uuid_text(v2)[i] == hex_digits(v2)[k]);
    }
    assert forall|k: int|
        0 <= k < 32 implies (v1 as int / pow16(#[trigger] ((32 - 1 - k) as nat))) % 16 == (
    v2 as int / pow16(((32 - 1 - k) as nat))) % 16 by {
        assert(hex_digits(v1)[k] == hex_digit_char(nibble(v1, k)));
        assert(hex_digits(v2)[k] == hex_digit_char(nibble(v2, k)));
        assert(0 <= nibble(v1, k) < 16) by {
            lemma_pow16_pos((31 - k) as nat);
        }
        assert(0 <= nibble(v2, k) < 16) by {
            lemma_pow16_pos((31 - k) as nat);
        }
        lemma_hex_digit_char_val(nibble(v1, k));
        lemma_hex_digit_char_val(nibble(v2, k));
        assert(nibble(v1, k) == nibble(v2, k));
        assert((31 - k) as nat == (32 - 1 - k) as nat);
    }
    assert((v1 as int) < pow16(32) && (v2 as int) < pow16(32)) by {
        lemma_pow16_values();
    }
    lemma_nibbles_unique(v1 as int, v2 as int, 32);
}

/// The lower-case digit text for a value below sixteen.
fn hex_digit_str(d: u8) -> (r: &'static str)
    requires
        d < 16,
    ensures
        r@ == seq![hex_digit_char(d as int)],
{
    proof {
        reveal_strlit("0");
        reveal_strlit("1");
        reveal_strlit("2");
        reveal_strlit("3");
        reveal_strlit("4");
        reveal_strlit("5");
        reveal_strlit("6");
        reveal_strlit("7");
        reveal_strlit("8");
        reveal_strlit("9");
        reveal_strlit("a");
        reveal_strlit("b");
        reveal_strlit("c");
        reveal_strlit("d");
        reveal_strlit("e");
        reveal_strlit("f");
    }
    let r = if d == 0 {
        "0"
    } else if d == 1 {
        "1"
    } else if d == 2 {
        "2"
    } else if d == 3 {
        "3"
    } else if d == 4 {
        "4"
    } else if d == 5 {
        "5"
    } else if d == 6 {
        "6"
    } else if d == 7 {
        "7"
    } else if d == 8 {
        "8"
    } else if d == 9 {
        "9"
    } else if d == 10 {
        "a"
    } else if d == 11 {
        "b"
    } else if d == 12 {
        "c"
    } else if d == 13 {
        "d"
    } else if d == 14 {
        "e"
    } else {
        "f"
    };
    proof {
        assert(r@ =~= seq![hex_digit_char(d as int)]);
    }
    r
}

/// The bits that hold of every version-4 identifier value: the
/// version nibble is 4 and the variant field is the standard one.
pub open spec fn v4_bits(v: u128) -> bool {
    &&& (v >> 76) & 0xf == 4
    &&& (v >> 62) & 0x3 == 2
}

/// Relies on `uuid::Uuid::new_v4` for a fresh, cryptographically
/// random identifier, taken as its big-endian 128-bit value. The
/// generator masks the version and variant bits into every draw;
/// nothing else is promised of the outcome.
#[verifier::external_body]
fn fresh_v4_value() -> (r: u128)
    ensures
        v4_bits(r),
{
    uuid::Uuid::new_v4().as_u128()
}

/// A unique identifier for a `User`, stable for the entity's lifetime.
#[derive(Debug, Clone, Copy, PartialEq, Eq, Structural, Hash)]
pub struct UserId {
    value: u128,
}

impl Default for UserId {
    /// A freshly generated random identifier.
    fn default() -> (r: Self)
        ensures
            v4_bits(r@),
    {
        Self::new()
    }
}

impl View for UserId {
    type V = u128;

    closed spec fn view(&self) -> u128 {
        self.value
    }
}

impl UserId {
    /// Two identifiers are equal exactly when their 128-bit values are.
    pub proof fn lemma_eq_view(a: UserId, b: UserId)
        ensures
            (a == b) <==> (a@ == b@),
    {
    }

    /// A freshly generated random identifier, carrying the version
    /// and variant bits of its kind.
    pub fn new() -> (r: Self)
        ensures
            v4_bits(r@),
    {
        UserId { value: fresh_v4_value() }
    }

    /// Parses the canonical text form; any other input is rejected.
    pub fn from_string(id: String) -> (r: Result<UserId, String>)
        ensures
            match r {
                Ok(u) => id@ == uuid_text(u@),
                Err(m) => {
                    &&& forall|v: u128| id@ != #[trigger] uuid_text(v)
                    &&& m@ == "Invalid UUID format"@
                },
            },
    {
        let s = id.as_str();
        let n = s.unicode_len();
        if n != 36 {
            proof {
                assert forall|v: u128| id@ != #[trigger] uuid_text(v) by {
                    lemma_uuid_text_char(v);
                }
            }
            return Err("Invalid UUID format".to_owned());
        }
        let mut acc: u128 = 0;
        let mut i: usize = 0;
        let ghost mut digits: Seq<char> = Seq::empty();
        while i < 36
            invariant
                s@ == id@,
                s@.len() == 36,
                i <= 36,
                digits.len() == digit_index(i as int),
                acc as int == hex_value(digits),
                (acc as int) < pow16(digits.len()),
                forall|j: int|
                    0 <= j < digits.len() ==> #[trigger] digits[j] == s@[char_pos(j)]
                        && is_hex_lower(digits[j]),
                forall|j: int| 0 <= j < i && dash_pos(j) ==> #[trigger] s@[j] == '-',
            decreases 36 - i,
        {
            let c = s.get_char(i);
            if i == 8 || i == 13 || i == 18 || i == 23 {
                if c != '-' {
                    proof {
                        assert forall|v: u128| id@ != #[trigger] uuid_text(v) by {
                            lemma_uuid_text_char(v);
                            assert(uuid_text(v)[i as int] == '-');
                        }
                    }
                    return Err("Invalid UUID format".to_owned());
                }
            } else {
                let u = c as u32;
                let d: u32 = if 48 <= u && u <= 57 {
                    u - 48
                } else if 97 <= u && u <= 102 {
                    u - 87
                } else {
                    proof {
                        assert(!is_hex_lower(c));
                        assert forall|v: u128| id@ != #[trigger] uuid_text(v) by {
                            lemma_uuid_text_char(v);
                            let k = digit_index(i as int);
                            assert(uuid_text(v)[i as int] == hex_digits(v)[k]);
                            assert(0 <= nibble(v, k) < 16) by {
                                lemma_pow16_pos((31 - k) as nat);
                            }
                            lemma_hex_digit_char_val(nibble(v, k));
                            assert(is_hex_lower(uuid_text(v)[i as int]));
                        }
                    }
                    return Err("Invalid UUID format".to_owned());
                };
                proof {
                    assert(is_hex_lower(c));
                    assert(d as int == hex_val(c));
                    let nd = digits.push(c);
                    assert(nd.drop_last() =~= digits);
                    assert(nd.last() == c);
                    assert(hex_value(nd) == 16 * hex_value(digits) + hex_val(c));
                    assert(pow16(nd.len()) == 16 * pow16(digits.len()));
                    assert(16 * (hex_value(digits) + 1) <= 16 * pow16(digits.len()))
                        by (nonlinear_arith)
                        requires
                            hex_value(digits) < pow16(digits.len()),
                    ;
                    lemma_pow16_le(nd.len(), 32);
                    lemma_pow16_values();
                }
                acc = acc * 16 + d as u128;
                proof {
                    digits = digits.push(c);
                }
            }
            i = i + 1;
        }
        proof {
            assert(digits.len() == 32);
            lemma_hex_value_digits(digits);
            lemma_uuid_text_char(acc);
            assert forall|ii: int| 0 <= ii < 36 implies id@[ii] == uuid_text(acc)[ii] by {
                if dash_pos(ii) {
                    assert(s@[ii] == '-');
                } else {
                    let k = digit_index(ii);
                    assert(0 <= k < 32);
                    assert(char_pos(k) == ii);
                    assert(digits[k] == s@[ii] && is_hex_lower(digits[k]));
                    assert((hex_value(digits) / pow16((32 - 1 - k) as nat)) % 16 == hex_val(
                        digits[k],
                    ));
                    assert((32 - 1 - k) as nat == (31 - k) as nat);
                    assert(nibble(acc, k) == hex_val(digits[k]));
                    lemma_hex_char_roundtrip(digits[k]);
                    assert(uuid_text(acc)[ii] == hex_digit_char(nibble(acc, k)));
                }
            }
            assert(id@ =~= uuid_text(acc));
        }
        Ok(UserId { value: acc })
    }

    /// The canonical text form, inverse of `from_string`.
    pub fn to_string(&self) -> (r: String)
        ensures
            r@ == uuid_text(self@),
    {
        let v = self.value;
        let mut digits = String::new();
        let mut p: u128 = 0x10000000000000000000000000000000;
        proof {
            lemma_pow16_values();
        }
        let mut k: usize = 0;
        while k < 32
            invariant
                k <= 32,
                digits@.len() == k,
                forall|j: int| 0 <= j < k ==> #[trigger] digits@[j] == hex_digits(v)[j],
                k < 32 ==> p as int == pow16((31 - k) as nat),
            decreases 32 - k,
        {
            proof {
                lemma_pow16_pos((31 - k) as nat);
            }
            let d = ((v / p) % 16) as u8;
            proof {
                assert(d as int == nibble(v, k as int));
                assert(hex_digits(v)[k as int] == hex_digit_char(d as int));
            }
            digits.append(hex_digit_str(d));
            if k < 31 {
                proof {
                    assert(pow16((31 - k) as nat) == 16 * pow16((30 - k) as nat));
                    lemma_pow16_pos((30 - k) as nat);
                    lemma_div_multiples_vanish(pow16((30 - k) as nat), 16);
                }
                p = p / 16;
            }
            k = k + 1;
        }
        proof {
            assert(digits@ =~= hex_digits(v));
        }
        let dstr = digits.as_str();
        let mut out = dstr.substring_char(0, 8).to_owned();
        out.append("-");
        out.append(dstr.substring_char(8, 12));
        out.append("-");
        out.append(dstr.substring_char(12, 16));
        out.append("-");
        out.append(dstr.substring_char(16, 20));
        out.append("-");
        out.append(dstr.substring_char(20, 32));
        proof {
            reveal_strlit("-");
            assert("-"@ =~= seq!['-']);
            assert(out@ =~= uuid_text(self@));
        }
        out
    }
}

} // verus!
