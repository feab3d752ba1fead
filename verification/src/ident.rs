//! Session identifiers, in the textual form of a version 4 UUID. They are
//! drawn at random; should a draw ever repeat an identifier, the serial
//! identifiers stand in: a family of the same form, one for every number.

use vstd::prelude::*;
use vstd::string::StringExecFns;

verus! {

/// A decimal digit or a lower-case letter from `a` to `f`.
pub open spec fn is_lower_hex(c: char) -> bool {
    ('0' <= c && c <= '9') || ('a' <= c && c <= 'f')
}

/// Whether `i` is the place of one of the four hyphens of an identifier.
pub open spec fn is_hyphen_place(i: int) -> bool {
    i == 8 || i == 13 || i == 18 || i == 23
}

/// The shape of every identifier: 36 characters, lower-case hexadecimal
/// digits in groups of 8, 4, 4, 4 and 12 with hyphens between them, the
/// version digit `4` and a variant digit from `8` to `b`.
pub open spec fn is_identifier(text: Seq<char>) -> bool {
    &&& text.len() == 36
    &&& forall|i: int|
        #![trigger text[i]]
        0 <= i < 36 ==> if is_hyphen_place(i) {
            text[i] == '-'
        } else {
            is_lower_hex(text[i])
        }
    &&& text[14] == '4'
    &&& (text[19] == '8' || text[19] == '9' || text[19] == 'a' || text[19] == 'b')
}

/// Calls `uuid::Uuid::new_v4` and renders the result with its `Display`
/// implementation. Trusted: the text has the hyphenated lower-case form of a
/// UUID with the version and variant digits of version 4. Nothing is claimed
/// of the random digits; in particular two calls may return the same text.
/// The call panics when the operating system gives no random bytes; no
/// argument of the caller can prevent that.
#[verifier::external_body]
pub(crate) fn random_identifier() -> (id: String)
    ensures
        is_identifier(id@),
{
    uuid::Uuid::new_v4().to_string()
}

/// The hexadecimal digit of a value below 16.
pub open spec fn hex_char(value: nat) -> char {
    if value == 0 {
        '0'
    } else if value == 1 {
        '1'
    } else if value == 2 {
        '2'
    } else if value == 3 {
        '3'
    } else if value == 4 {
        '4'
    } else if value == 5 {
        '5'
    } else if value == 6 {
        '6'
    } else if value == 7 {
        '7'
    } else if value == 8 {
        '8'
    } else if value == 9 {
        '9'
    } else if value == 10 {
        'a'
    } else if value == 11 {
        'b'
    } else if value == 12 {
        'c'
    } else if value == 13 {
        'd'
    } else if value == 14 {
        'e'
    } else {
        'f'
    }
}

/// The lowest `count` hexadecimal digits of `value`, lowest first.
pub open spec fn hex_digits(value: nat, count: nat) -> Seq<char>
    decreases count,
{
    if count == 0 {
        Seq::empty()
    } else {
        seq![hex_char(value % 16)] + hex_digits(value / 16, (count - 1) as nat)
    }
}

/// `value` without its lowest `count` hexadecimal digits.
pub open spec fn without_digits(value: nat, count: nat) -> nat
    decreases count,
{
    if count == 0 {
        value
    } else {
        without_digits(value / 16, (count - 1) as nat)
    }
}

/// The serial identifier of `serial`: the version digit `4`, the variant
/// digit `8`, and the digits of `serial`, lowest first, in the 18 places
/// after the version digit; zeros before it.
pub open spec fn serial_identifier(serial: nat) -> Seq<char> {
    "00000000-0000-4"@ + hex_digits(serial, 3) + "-8"@ + hex_digits(without_digits(serial, 3), 3)
        + "-"@ + hex_digits(without_digits(serial, 6), 12)
}

proof fn lemma_hex_digits_shape(value: nat, count: nat)
    ensures
        hex_digits(value, count).len() == count,
        forall|i: int| 0 <= i < count ==> is_lower_hex(#[trigger] hex_digits(value, count)[i]),
    decreases count,
{
    if count > 0 {
        lemma_hex_digits_shape(value / 16, (count - 1) as nat);
        let rest = hex_digits(value / 16, (count - 1) as nat);
        assert forall|i: int| 0 <= i < count implies is_lower_hex(
            #[trigger] hex_digits(value, count)[i],
        ) by {
            if i > 0 {
                assert(hex_digits(value, count)[i] == rest[i - 1]);
            }
        }
    }
}

proof fn lemma_hex_digits_split(value: nat, low: nat, high: nat)
    ensures
        hex_digits(value, low + high) == hex_digits(value, low) + hex_digits(
            without_digits(value, low),
            high,
        ),
        without_digits(value, low + high) == without_digits(without_digits(value, low), high),
    decreases low,
{
    if low == 0 {
        assert(hex_digits(value, 0) + hex_digits(value, high) =~= hex_digits(value, high));
    } else {
        lemma_hex_digits_split(value / 16, (low - 1) as nat, high);
        assert(hex_digits(value, low + high) =~= hex_digits(value, low) + hex_digits(
            without_digits(value, low),
            high,
        ));
    }
}

proof fn lemma_hex_digits_decide(a: nat, b: nat, count: nat)
    requires
        hex_digits(a, count) == hex_digits(b, count),
        without_digits(a, count) == without_digits(b, count),
    ensures
        a == b,
    decreases count,
{
    if count > 0 {
        let rest_a = hex_digits(a / 16, (count - 1) as nat);
        let rest_b = hex_digits(b / 16, (count - 1) as nat);
        assert(hex_digits(a, count) == seq![hex_char(a % 16)] + rest_a);
        assert(hex_digits(b, count) == seq![hex_char(b % 16)] + rest_b);
        assert((seq![hex_char(a % 16)] + rest_a)[0] == hex_char(a % 16));
        assert((seq![hex_char(b % 16)] + rest_b)[0] == hex_char(b % 16));
        assert(hex_char(a % 16) == hex_char(b % 16));
        assert(a % 16 == b % 16);
        assert(rest_a =~= (seq![hex_char(a % 16)] + rest_a).subrange(1, rest_a.len() as int + 1));
        assert(rest_b =~= (seq![hex_char(b % 16)] + rest_b).subrange(1, rest_b.len() as int + 1));
        lemma_hex_digits_shape(a / 16, (count - 1) as nat);
        lemma_hex_digits_shape(b / 16, (count - 1) as nat);
        lemma_hex_digits_decide(a / 16, b / 16, (count - 1) as nat);
    }
}

/// Every serial identifier has the shape of an identifier.
pub proof fn lemma_serial_is_identifier(serial: nat)
    ensures
        is_identifier(serial_identifier(serial)),
{
    reveal_strlit("00000000-0000-4");
    reveal_strlit("-8");
    reveal_strlit("-");
    lemma_hex_digits_shape(serial, 3);
    lemma_hex_digits_shape(without_digits(serial, 3), 3);
    lemma_hex_digits_shape(without_digits(serial, 6), 12);
    let text = serial_identifier(serial);
    let first = hex_digits(serial, 3);
    let second = hex_digits(without_digits(serial, 3), 3);
    let third = hex_digits(without_digits(serial, 6), 12);
    assert(text.len() == 36);
    assert forall|i: int| #![trigger text[i]] 0 <= i < 36 implies if is_hyphen_place(i) {
        text[i] == '-'
    } else {
        is_lower_hex(text[i])
    } by {
        if i < 15 {
            assert(text[i] == "00000000-0000-4"@[i]);
        } else if i < 18 {
            assert(text[i] == first[i - 15]);
        } else if i < 20 {
            assert(text[i] == "-8"@[i - 18]);
        } else if i < 23 {
            assert(text[i] == second[i - 20]);
        } else if i < 24 {
            assert(text[i] == "-"@[i - 23]);
        } else {
            assert(text[i] == third[i - 24]);
        }
    }
    assert(text[14] == "00000000-0000-4"@[14]);
    assert(text[19] == "-8"@[1]);
}

/// Different numbers below 2^64 have different serial identifiers.
pub proof fn lemma_serial_identifiers_differ(a: nat, b: nat)
    requires
        a < 0x1_0000_0000_0000_0000,
        b < 0x1_0000_0000_0000_0000,
        serial_identifier(a) == serial_identifier(b),
    ensures
        a == b,
{
    reveal_strlit("00000000-0000-4");
    reveal_strlit("-8");
    reveal_strlit("-");
    lemma_hex_digits_shape(a, 3);
    lemma_hex_digits_shape(without_digits(a, 3), 3);
    lemma_hex_digits_shape(without_digits(a, 6), 12);
    lemma_hex_digits_shape(b, 3);
    lemma_hex_digits_shape(without_digits(b, 3), 3);
    lemma_hex_digits_shape(without_digits(b, 6), 12);
    let text_a = serial_identifier(a);
    let text_b = serial_identifier(b);
    assert(hex_digits(a, 3) =~= text_a.subrange(15, 18));
    assert(hex_digits(b, 3) =~= text_b.subrange(15, 18));
    assert(hex_digits(without_digits(a, 3), 3) =~= text_a.subrange(20, 23));
    assert(hex_digits(without_digits(b, 3), 3) =~= text_b.subrange(20, 23));
    assert(hex_digits(without_digits(a, 6), 12) =~= text_a.subrange(24, 36));
    assert(hex_digits(without_digits(b, 6), 12) =~= text_b.subrange(24, 36));
    lemma_hex_digits_split(a, 3, 3);
    lemma_hex_digits_split(b, 3, 3);
    lemma_hex_digits_split(a, 6, 12);
    lemma_hex_digits_split(b, 6, 12);
    assert(hex_digits(a, 18) == hex_digits(b, 18));
    lemma_without_all_digits(a);
    lemma_without_all_digits(b);
    lemma_hex_digits_decide(a, b, 18);
}

proof fn lemma_without_all_digits(value: nat)
    requires
        value < 0x1_0000_0000_0000_0000,
    ensures
        without_digits(value, 18) == 0,
{
    lemma_hex_digits_split(value, 6, 12);
    lemma_hex_digits_split(without_digits(value, 6), 6, 6);
    let six = without_digits(value, 6);
    let twelve = without_digits(six, 6);
    assert(six == value / 0x100_0000) by {
        reveal_with_fuel(without_digits, 7);
    }
    assert(twelve == six / 0x100_0000) by {
        reveal_with_fuel(without_digits, 7);
    }
    assert(without_digits(twelve, 6) == twelve / 0x100_0000) by {
        reveal_with_fuel(without_digits, 7);
    }
}

/// The text of one hexadecimal digit.
fn hex_text(value: u64) -> (text: &'static str)
    requires
        value < 16,
    ensures
        text@ == seq![hex_char(value as nat)],
{
    proof {
        reveal_strlit("0");
        reveal_strlit("1");
        reveal_strlit("2");
        reveal_strlit("3");
        reveal_strlit("4");
        reveal_strlit("5");
        reveal_strlit("6");
        reveal_strlit("7");
        reveal_strlit("8");
        reveal_strlit("9");
        reveal_strlit("a");
        reveal_strlit("b");
        reveal_strlit("c");
        reveal_strlit("d");
        reveal_strlit("e");
        reveal_strlit("f");
    }
    let text = if value == 0 {
        "0"
    } else if value == 1 {
        "1"
    } else if value == 2 {
        "2"
    } else if value == 3 {
        "3"
    } else if value == 4 {
        "4"
    } else if value == 5 {
        "5"
    } else if value == 6 {
        "6"
    } else if value == 7 {
        "7"
    } else if value == 8 {
        "8"
    } else if value == 9 {
        "9"
    } else if value == 10 {
        "a"
    } else if value == 11 {
        "b"
    } else if value == 12 {
        "c"
    } else if value == 13 {
        "d"
    } else if value == 14 {
        "e"
    } else {
        "f"
    };
    assert(text@ =~= seq![hex_char(value as nat)]);
    text
}

/// Appends the lowest `count` hexadecimal digits of `value`, lowest first,
/// and returns what is left of `value`.
fn append_hex_digits(text: &mut String, value: u64, count: usize) -> (rest: u64)
    ensures
        final(text)@ == old(text)@ + hex_digits(value as nat, count as nat),
        rest as nat == without_digits(value as nat, count as nat),
    decreases count,
{
    if count == 0 {
        assert(text@ + hex_digits(value as nat, 0) =~= text@);
        value
    } else {
        let ghost before = text@;
        text.append(hex_text(value % 16));
        let rest = append_hex_digits(text, value / 16, count - 1);
        assert(text@ =~= before + hex_digits(value as nat, count as nat));
        rest
    }
}

/// Builds the serial identifier of `serial`.
pub fn serial_identifier_text(serial: u64) -> (id: String)
    ensures
        id@ == serial_identifier(serial as nat),
        is_identifier(id@),
{
    let mut id = String::from_str("00000000-0000-4");
    let rest = append_hex_digits(&mut id, serial, 3);
    id.append("-8");
    let rest = append_hex_digits(&mut id, rest, 3);
    id.append("-");
    let _ = append_hex_digits(&mut id, rest, 12);
    proof {
        lemma_hex_digits_split(serial as nat, 3, 3);
        lemma_serial_is_identifier(serial as nat);
    }
    id
}

} // verus!
