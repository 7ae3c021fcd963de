//! Small helpers around the library: choosing an output image container
//! by extension, and decoding an HTML-style color code.

use vstd::prelude::*;
use vstd::string::StringSliceAdditionalSpecFns;

use crate::loaders::{ascii_lower, lower_byte};

verus! {

/// The output image containers the converter can hand its pixels to.
#[derive(Clone, Copy, PartialEq, Eq, Structural, Debug)]
pub enum ImageKind {
    Png,
    Jpeg,
    Gif,
    Ico,
    Bmp,
}

/// The container an extension selects, ASCII case-insensitive: `jpeg` or
/// `jpg`, `gif`, `ico`, `bmp`, and PNG for everything else.
pub open spec fn image_kind_of(s: Seq<u8>) -> ImageKind {
    let l = s.map_values(|b: u8| ascii_lower(b));
    if l == seq![106u8, 112u8, 101u8, 103u8] || l == seq![106u8, 112u8, 103u8] {
        ImageKind::Jpeg
    } else if l == seq![103u8, 105u8, 102u8] {
        ImageKind::Gif
    } else if l == seq![105u8, 99u8, 111u8] {
        ImageKind::Ico
    } else if l == seq![98u8, 109u8, 112u8] {
        ImageKind::Bmp
    } else {
        ImageKind::Png
    }
}

/// Match a file extension to an image container.
pub fn match_format(ext: &str) -> (r: ImageKind)
    ensures
        r == image_kind_of(ext.spec_bytes()),
{
    let b = ext.as_bytes();
    let ghost l = ext.spec_bytes().map_values(|c: u8| ascii_lower(c));
    proof {
        assert(l.len() == b@.len());
    }
    if b.len() == 4 {
        let b0 = lower_byte(b[0]);
        let b1 = lower_byte(b[1]);
        let b2 = lower_byte(b[2]);
        let b3 = lower_byte(b[3]);
        proof {
            assert(l[0] == ascii_lower(b@[0]) && l[1] == ascii_lower(b@[1]) && l[2]
                == ascii_lower(b@[2]) && l[3] == ascii_lower(b@[3]));
        }
        if b0 == 106 && b1 == 112 && b2 == 101 && b3 == 103 {
            proof {
                assert(l =~= seq![106u8, 112u8, 101u8, 103u8]);
            }
            ImageKind::Jpeg
        } else {
            proof {
                if l == seq![106u8, 112u8, 101u8, 103u8] {
                    assert(l[0] == 106u8 && l[1] == 112u8 && l[2] == 101u8 && l[3] == 103u8);
                }
            }
            ImageKind::Png
        }
    } else if b.len() == 3 {
        let b0 = lower_byte(b[0]);
        let b1 = lower_byte(b[1]);
        let b2 = lower_byte(b[2]);
        proof {
            assert(l[0] == ascii_lower(b@[0]) && l[1] == ascii_lower(b@[1]) && l[2]
                == ascii_lower(b@[2]));
        }
        if b0 == 106 && b1 == 112 && b2 == 103 {
            proof {
                assert(l =~= seq![106u8, 112u8, 103u8]);
            }
            ImageKind::Jpeg
        } else if b0 == 103 && b1 == 105 && b2 == 102 {
            proof {
                assert(l =~= seq![103u8, 105u8, 102u8]);
            }
            ImageKind::Gif
        } else if b0 == 105 && b1 == 99 && b2 == 111 {
            proof {
                assert(l =~= seq![105u8, 99u8, 111u8]);
            }
            ImageKind::Ico
        } else if b0 == 98 && b1 == 109 && b2 == 112 {
            proof {
                assert(l =~= seq![98u8, 109u8, 112u8]);
            }
            ImageKind::Bmp
        } else {
            proof {
                if l == seq![106u8, 112u8, 103u8] {
                    assert(l[0] == 106u8 && l[1] == 112u8 && l[2] == 103u8);
                }
                if l == seq![103u8, 105u8, 102u8] {
                    assert(l[0] == 103u8 && l[1] == 105u8 && l[2] == 102u8);
                }
                if l == seq![105u8, 99u8, 111u8] {
                    assert(l[0] == 105u8 && l[1] == 99u8 && l[2] == 111u8);
                }
                if l == seq![98u8, 109u8, 112u8] {
                    assert(l[0] == 98u8 && l[1] == 109u8 && l[2] == 112u8);
                }
            }
            ImageKind::Png
        }
    } else {
        ImageKind::Png
    }
}

/// An ASCII decimal digit.
pub open spec fn is_digit(b: u8) -> bool {
    48 <= b && b <= 57
}

/// Every byte is an ASCII decimal digit.
pub open spec fn all_digits(s: Seq<u8>) -> bool {
    forall|k: int| 0 <= k < s.len() ==> is_digit(#[trigger] s[k])
}

/// The value of a digit string, most significant first.
pub open spec fn digits_val(s: Seq<u8>) -> int
    decreases s.len(),
{
    if s.len() == 0 {
        0
    } else {
        10 * digits_val(s.drop_last()) + (s.last() - 48)
    }
}

/// A digit string's value is never negative.
pub proof fn lemma_digits_val_nonneg(s: Seq<u8>, i: int)
    requires
        0 <= i <= s.len(),
        all_digits(s),
    ensures
        digits_val(s.take(i)) >= 0,
    decreases i,
{
    if i > 0 {
        lemma_digits_val_nonneg(s, i - 1);
        assert(s.take(i).drop_last() =~= s.take(i - 1));
    }
}

/// Appending digits never decreases the value.
pub proof fn lemma_digits_val_grows(s: Seq<u8>, i: int, j: int)
    requires
        0 <= i <= j <= s.len(),
        all_digits(s),
    ensures
        digits_val(s.take(i)) <= digits_val(s.take(j)),
    decreases j - i,
{
    if i < j {
        lemma_digits_val_grows(s, i, j - 1);
        lemma_digits_val_nonneg(s, j - 1);
        assert(s.take(j).drop_last() =~= s.take(j - 1));
        assert(digits_val(s.take(j)) == 10 * digits_val(s.take(j - 1)) + (s.take(j).last() - 48));
    }
}

/// The digit part of a number string: everything after one optional
/// leading plus sign.
pub open spec fn number_digits(s: Seq<u8>) -> Seq<u8> {
    if s.len() > 0 && s[0] == 43 {
        s.skip(1)
    } else {
        s
    }
}

/// A string that denotes a `u16`: an optional `+`, then at least one
/// digit, with a value of at most 65535.
pub open spec fn is_u16_decimal(s: Seq<u8>) -> bool {
    let d = number_digits(s);
    d.len() > 0 && all_digits(d) && digits_val(d) <= 65535
}

/// Parse a decimal `u16` from bytes, exactly as the standard decimal
/// parser reads it: an optional leading `+`, then digits, value in range.
pub fn parse_u16(s: &[u8]) -> (r: Option<u16>)
    ensures
        is_u16_decimal(s@) ==> (r matches Some(v) && v == digits_val(number_digits(s@))),
        !is_u16_decimal(s@) ==> r matches None,
{
    let start: usize = if s.len() > 0 && s[0] == 43 {
        1
    } else {
        0
    };
    let ghost d = number_digits(s@);
    proof {
        assert(d =~= s@.skip(start as int));
    }
    let n = s.len();
    if n == start {
        return None;
    }
    let mut v: u32 = 0;
    let mut i: usize = start;
    while i < n
        invariant
            start <= i <= n,
            n == s@.len(),
            d == number_digits(s@),
            d == s@.skip(start as int),
            d.len() == n - start,
            forall|k: int| start <= k < i ==> is_digit(s@[k]),
            v == digits_val(d.take(i - start as int)),
            v <= 65535,
        decreases n - i,
    {
        let b = s[i];
        if b < 48 || b > 57 {
            proof {
                assert(d[i - start as int] == s@[i as int]);
                assert(!all_digits(d));
            }
            return None;
        }
        let next = 10 * v + (b - 48) as u32;
        proof {
            assert(d.take(i + 1 - start as int).drop_last() =~= d.take(i - start as int));
            assert(d.take(i + 1 - start as int).last() == s@[i as int]);
        }
        if next > 65535 {
            proof {
                if is_u16_decimal(s@) {
                    lemma_digits_val_grows(d, i + 1 - start as int, d.len() as int);
                    assert(d.take(d.len() as int) =~= d);
                }
            }
            return None;
        }
        v = next;
        i = i + 1;
    }
    proof {
        assert(d.take(d.len() as int) =~= d);
    }
    Some(v as u16)
}

/// Where the first `x` stands in a byte string, if anywhere.
pub open spec fn first_x(s: Seq<u8>) -> int
    decreases s.len(),
{
    if s.len() == 0 {
        -1
    } else if s[0] == 120 {
        0
    } else if first_x(s.drop_first()) == -1 {
        -1
    } else {
        1 + first_x(s.drop_first())
    }
}

/// `first_x` finds the first occurrence, or reports that none exists.
pub proof fn lemma_first_x(s: Seq<u8>)
    ensures
        -1 <= first_x(s) < s.len(),
        first_x(s) >= 0 ==> s[first_x(s)] == 120,
        forall|j: int| 0 <= j < first_x(s) ==> s[j] != 120,
        first_x(s) == -1 ==> forall|j: int| 0 <= j < s.len() ==> s[j] != 120,
    decreases s.len(),
{
    if s.len() > 0 && s[0] != 120 {
        lemma_first_x(s.drop_first());
        assert forall|j: int| 0 <= j < first_x(s) implies s[j] != 120 by {
            if j > 0 {
                assert(s.drop_first()[j - 1] == s[j]);
            }
        }
        if first_x(s) == -1 {
            assert forall|j: int| 0 <= j < s.len() implies s[j] != 120 by {
                if j > 0 {
                    assert(s.drop_first()[j - 1] == s[j]);
                }
            }
        }
    }
}

/// The thumbnail size a `--size` argument denotes: one number for a
/// square, or `<width>x<height>` split at the first `x`.
pub open spec fn size_of_arg(s: Seq<u8>) -> Option<(u16, u16)> {
    if is_u16_decimal(s) {
        Some((digits_val(number_digits(s)) as u16, digits_val(number_digits(s)) as u16))
    } else if first_x(s) >= 0 && is_u16_decimal(s.take(first_x(s))) && is_u16_decimal(
        s.skip(first_x(s) + 1),
    ) {
        Some(
            (
                digits_val(number_digits(s.take(first_x(s)))) as u16,
                digits_val(number_digits(s.skip(first_x(s) + 1))) as u16,
            ),
        )
    } else {
        None
    }
}

/// Parse a `--size` argument: a plain number means a square thumbnail,
/// `<width>x<height>` gives both dimensions, anything else is rejected.
pub fn parse_size(s: &str) -> (r: Option<(u16, u16)>)
    ensures
        r == size_of_arg(s.spec_bytes()),
{
    let b = s.as_bytes();
    if let Some(n) = parse_u16(b) {
        return Some((n, n));
    }
    let n = b.len();
    let mut i: usize = 0;
    while i < n
        invariant
            0 <= i <= n,
            n == b@.len(),
            b@ == s.spec_bytes(),
            !is_u16_decimal(s.spec_bytes()),
            forall|j: int| 0 <= j < i ==> b@[j] != 120,
        decreases n - i,
    {
        if b[i] == 120 {
            proof {
                lemma_first_x(b@);
                assert(first_x(b@) == i);
            }
            let (wpart, rest) = b.split_at(i);
            let (_, hpart) = rest.split_at(1);
            proof {
                assert(wpart@ =~= b@.take(i as int));
                assert(hpart@ =~= b@.skip(i as int + 1));
            }
            let w = parse_u16(wpart);
            let h = parse_u16(hpart);
            match (w, h) {
                (Some(w), Some(h)) => {
                    return Some((w, h));
                },
                _ => {
                    return None;
                },
            }
        }
        i = i + 1;
    }
    proof {
        lemma_first_x(b@);
    }
    None
}


/// A byte that is an ASCII hexadecimal digit.
pub open spec fn is_hex_digit(b: u8) -> bool {
    (48 <= b && b <= 57) || (97 <= b && b <= 102) || (65 <= b && b <= 70)
}

/// The value of one hexadecimal digit.
pub open spec fn hex_val(b: u8) -> int {
    if 48 <= b && b <= 57 {
        b - 48
    } else if 97 <= b && b <= 102 {
        b - 87
    } else if 65 <= b && b <= 70 {
        b - 55
    } else {
        0
    }
}

/// The value of the two-digit hexadecimal number at position `i`.
pub open spec fn hex_byte(s: Seq<u8>, i: int) -> int {
    16 * hex_val(s[i]) + hex_val(s[i + 1])
}

/// The value of one hexadecimal digit byte.
fn hex_digit(b: u8) -> (v: u8)
    requires
        is_hex_digit(b),
    ensures
        v == hex_val(b),
        v <= 15,
{
    if 48 <= b && b <= 57 {
        b - 48
    } else if 97 <= b && b <= 102 {
        b - 87
    } else {
        b - 55
    }
}

/// Decode an HTML-style color code of exactly eight hexadecimal digits
/// (`rrggbbaa`) into its four channel values.
pub fn html_to_rgba(color: &str) -> (r: (u8, u8, u8, u8))
    requires
        color.spec_bytes().len() == 8,
        forall|i: int| 0 <= i < 8 ==> is_hex_digit(color.spec_bytes()[i]),
    ensures
        r.0 == hex_byte(color.spec_bytes(), 0),
        r.1 == hex_byte(color.spec_bytes(), 2),
        r.2 == hex_byte(color.spec_bytes(), 4),
        r.3 == hex_byte(color.spec_bytes(), 6),
{
    let b = color.as_bytes();
    let red = 16 * hex_digit(b[0]) + hex_digit(b[1]);
    let green = 16 * hex_digit(b[2]) + hex_digit(b[3]);
    let blue = 16 * hex_digit(b[4]) + hex_digit(b[5]);
    let alpha = 16 * hex_digit(b[6]) + hex_digit(b[7]);
    (red, green, blue, alpha)
}

} // verus!
