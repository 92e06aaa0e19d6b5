//! The canonical text form of a question id.
//!
//! A question id is a 128-bit value.  Its text form is the conventional
//! rendering of such ids: 32 lowercase hexadecimal digits in groups of
//! 8, 4, 4, 4 and 12, separated by `-`, most significant digit first.
//! The store keys records by this text form.

use vstd::prelude::*;
use vstd::string::StrSliceExecFns;
use vstd::string::StringExecFns;

verus! {

/// The lowercase hexadecimal digit for the low four bits of `n`;
/// values above 15 all map to the last digit.
pub open spec fn hex_digit(n: u128) -> char {
    if n == 0 {
        '0'
    } else if n == 1 {
        '1'
    } else if n == 2 {
        '2'
    } else if n == 3 {
        '3'
    } else if n == 4 {
        '4'
    } else if n == 5 {
        '5'
    } else if n == 6 {
        '6'
    } else if n == 7 {
        '7'
    } else if n == 8 {
        '8'
    } else if n == 9 {
        '9'
    } else if n == 10 {
        'a'
    } else if n == 11 {
        'b'
    } else if n == 12 {
        'c'
    } else if n == 13 {
        'd'
    } else if n == 14 {
        'e'
    } else {
        'f'
    }
}

/// The `k`-th hexadecimal digit of `qid`, most significant first.
pub open spec fn nibble(qid: u128, k: int) -> u128 {
    (qid >> ((124 - 4 * k) as u128)) & 0xf
}

/// The positions of the four separators in the text form.
pub open spec fn dash_pos(i: int) -> bool {
    i == 8 || i == 13 || i == 18 || i == 23
}

/// The digit index that character position `i` of the text form carries.
pub open spec fn digit_index(i: int) -> int {
    if i < 8 {
        i
    } else if i < 13 {
        i - 1
    } else if i < 18 {
        i - 2
    } else if i < 23 {
        i - 3
    } else {
        i - 4
    }
}

/// Character `i` of the text form of `qid`.
pub open spec fn uuid_char(qid: u128, i: int) -> char {
    if dash_pos(i) {
        '-'
    } else {
        hex_digit(nibble(qid, digit_index(i)))
    }
}

/// The full text form of `qid`: 36 characters.
pub open spec fn uuid_chars(qid: u128) -> Seq<char> {
    Seq::new(36, |i: int| uuid_char(qid, i))
}

/// Whether `c` is a lowercase hexadecimal digit.
pub open spec fn is_hex_char(c: char) -> bool {
    c == '0' || c == '1' || c == '2' || c == '3' || c == '4' || c == '5' || c == '6' || c == '7'
        || c == '8' || c == '9' || c == 'a' || c == 'b' || c == 'c' || c == 'd' || c == 'e'
        || c == 'f'
}

/// Whether `s` has exactly the shape of a canonical id text:
/// 36 characters, separators at their four positions, lowercase
/// hexadecimal digits everywhere else.
pub open spec fn is_uuid_text(s: Seq<char>) -> bool {
    &&& s.len() == 36
    &&& forall|i: int| 0 <= i < 36 && dash_pos(i) ==> s[i] == '-'
    &&& forall|i: int| 0 <= i < 36 && !dash_pos(i) ==> is_hex_char(#[trigger] s[i])
}

/// The text form of every id has the canonical shape.
pub proof fn lemma_uuid_chars_shape(qid: u128)
    ensures
        is_uuid_text(uuid_chars(qid)),
{
    assert forall|i: int| 0 <= i < 36 && !dash_pos(i) implies is_hex_char(
        #[trigger] uuid_chars(qid)[i],
    ) by {
        assert(is_hex_char(hex_digit(nibble(qid, digit_index(i)))));
    }
}

/// The lowercase hexadecimal digit character for `nib`.
fn hex_char(nib: u128) -> (r: &'static str)
    ensures
        r@ == seq![hex_digit(nib)],
{
    proof {
        reveal_strlit("0");
        reveal_strlit("1");
        reveal_strlit("2");
        reveal_strlit("3");
        reveal_strlit("4");
        reveal_strlit("5");
        reveal_strlit("6");
        reveal_strlit("7");
        reveal_strlit("8");
        reveal_strlit("9");
        reveal_strlit("a");
        reveal_strlit("b");
        reveal_strlit("c");
        reveal_strlit("d");
        reveal_strlit("e");
        reveal_strlit("f");
    }
    let r: &'static str = if nib == 0 {
        "0"
    } else if nib == 1 {
        "1"
    } else if nib == 2 {
        "2"
    } else if nib == 3 {
        "3"
    } else if nib == 4 {
        "4"
    } else if nib == 5 {
        "5"
    } else if nib == 6 {
        "6"
    } else if nib == 7 {
        "7"
    } else if nib == 8 {
        "8"
    } else if nib == 9 {
        "9"
    } else if nib == 10 {
        "a"
    } else if nib == 11 {
        "b"
    } else if nib == 12 {
        "c"
    } else if nib == 13 {
        "d"
    } else if nib == 14 {
        "e"
    } else {
        "f"
    };
    proof {
        assert(r@ =~= seq![hex_digit(nib)]);
    }
    r
}

/// The canonical text form of `qid`.
pub fn uuid_string(qid: u128) -> (r: String)
    ensures
        r@ == uuid_chars(qid),
{
    let mut s = String::new();
    let mut i: usize = 0;
    while i < 36
        invariant
            0 <= i <= 36,
            s@ == uuid_chars(qid).take(i as int),
        decreases 36 - i,
    {
        if i == 8 || i == 13 || i == 18 || i == 23 {
            proof {
                reveal_strlit("-");
            }
            s.append("-");
            proof {
                assert("-"@ =~= seq!['-']);
            }
        } else {
            let k: usize = if i < 8 {
                i
            } else if i < 13 {
                i - 1
            } else if i < 18 {
                i - 2
            } else if i < 23 {
                i - 3
            } else {
                i - 4
            };
            let shift: u128 = 124 - 4 * (k as u128);
            let nib: u128 = (qid >> shift) & 0xf;
            let piece = hex_char(nib);
            proof {
                assert(k as int == digit_index(i as int));
                assert(nib == nibble(qid, k as int));
            }
            s.append(piece);
        }
        proof {
            assert(s@ =~= uuid_chars(qid).take(i as int + 1));
        }
        i += 1;
    }
    proof {
        assert(uuid_chars(qid).take(36) =~= uuid_chars(qid));
    }
    s
}

/// Whether `s` is a canonical id text.
pub fn is_uuid_text_exec(s: &str) -> (b: bool)
    ensures
        b == is_uuid_text(s@),
{
    let n = s.unicode_len();
    if n != 36 {
        return false;
    }
    let mut i: usize = 0;
    while i < 36
        invariant
            0 <= i <= 36,
            s@.len() == 36,
            forall|j: int| 0 <= j < i && dash_pos(j) ==> s@[j] == '-',
            forall|j: int| 0 <= j < i && !dash_pos(j) ==> is_hex_char(#[trigger] s@[j]),
        decreases 36 - i,
    {
        let c = s.get_char(i);
        if i == 8 || i == 13 || i == 18 || i == 23 {
            if c != '-' {
                return false;
            }
        } else {
            let hex = c == '0' || c == '1' || c == '2' || c == '3' || c == '4' || c == '5' || c
                == '6' || c == '7' || c == '8' || c == '9' || c == 'a' || c == 'b' || c == 'c' || c
                == 'd' || c == 'e' || c == 'f';
            if !hex {
                return false;
            }
        }
        i += 1;
    }
    true
}

} // verus!
