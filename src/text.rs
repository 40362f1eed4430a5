//! Character classes shared by the trailer grammar and the text helpers.
use vstd::prelude::*;

verus! {

/// The Unicode `White_Space` property.
pub open spec fn is_white_space(c: char) -> bool {
    let u = c as u32;
    (0x09 <= u && u <= 0x0d) || u == 0x20 || u == 0x85 || u == 0xa0 || u == 0x1680 || (0x2000
        <= u && u <= 0x200a) || u == 0x2028 || u == 0x2029 || u == 0x202f || u == 0x205f || u
        == 0x3000
}

/// ASCII control characters: below U+0020, and U+007F.
pub open spec fn is_ascii_control(c: char) -> bool {
    (c as u32) < 0x20 || (c as u32) == 0x7f
}

/// The Unicode general category `Nd` (decimal number), by code point.
pub open spec fn is_decimal_digit_code(u: u32) -> bool {
    (0x30 <= u && u <= 0x39)
    || (0x660 <= u && u <= 0x669)
    || (0x6f0 <= u && u <= 0x6f9)
    || (0x7c0 <= u && u <= 0x7c9)
    || (0x966 <= u && u <= 0x96f)
    || (0x9e6 <= u && u <= 0x9ef)
    || (0xa66 <= u && u <= 0xa6f)
    || (0xae6 <= u && u <= 0xaef)
    || (0xb66 <= u && u <= 0xb6f)
    || (0xbe6 <= u && u <= 0xbef)
    || (0xc66 <= u && u <= 0xc6f)
    || (0xce6 <= u && u <= 0xcef)
    || (0xd66 <= u && u <= 0xd6f)
    || (0xde6 <= u && u <= 0xdef)
    || (0xe50 <= u && u <= 0xe59)
    || (0xed0 <= u && u <= 0xed9)
    || (0xf20 <= u && u <= 0xf29)
    || (0x1040 <= u && u <= 0x1049)
    || (0x1090 <= u && u <= 0x1099)
    || (0x17e0 <= u && u <= 0x17e9)
    || (0x1810 <= u && u <= 0x1819)
    || (0x1946 <= u && u <= 0x194f)
    || (0x19d0 <= u && u <= 0x19d9)
    || (0x1a80 <= u && u <= 0x1a89)
    || (0x1a90 <= u && u <= 0x1a99)
    || (0x1b50 <= u && u <= 0x1b59)
    || (0x1bb0 <= u && u <= 0x1bb9)
    || (0x1c40 <= u && u <= 0x1c49)
    || (0x1c50 <= u && u <= 0x1c59)
    || (0xa620 <= u && u <= 0xa629)
    || (0xa8d0 <= u && u <= 0xa8d9)
    || (0xa900 <= u && u <= 0xa909)
    || (0xa9d0 <= u && u <= 0xa9d9)
    || (0xa9f0 <= u && u <= 0xa9f9)
    || (0xaa50 <= u && u <= 0xaa59)
    || (0xabf0 <= u && u <= 0xabf9)
    || (0xff10 <= u && u <= 0xff19)
    || (0x104a0 <= u && u <= 0x104a9)
    || (0x10d30 <= u && u <= 0x10d39)
    || (0x10d40 <= u && u <= 0x10d49)
    || (0x11066 <= u && u <= 0x1106f)
    || (0x110f0 <= u && u <= 0x110f9)
    || (0x11136 <= u && u <= 0x1113f)
    || (0x111d0 <= u && u <= 0x111d9)
    || (0x112f0 <= u && u <= 0x112f9)
    || (0x11450 <= u && u <= 0x11459)
    || (0x114d0 <= u && u <= 0x114d9)
    || (0x11650 <= u && u <= 0x11659)
    || (0x116c0 <= u && u <= 0x116c9)
    || (0x116d0 <= u && u <= 0x116e3)
    || (0x11730 <= u && u <= 0x11739)
    || (0x118e0 <= u && u <= 0x118e9)
    || (0x11950 <= u && u <= 0x11959)
    || (0x11bf0 <= u && u <= 0x11bf9)
    || (0x11c50 <= u && u <= 0x11c59)
    || (0x11d50 <= u && u <= 0x11d59)
    || (0x11da0 <= u && u <= 0x11da9)
    || (0x11f50 <= u && u <= 0x11f59)
    || (0x16130 <= u && u <= 0x16139)
    || (0x16a60 <= u && u <= 0x16a69)
    || (0x16ac0 <= u && u <= 0x16ac9)
    || (0x16b50 <= u && u <= 0x16b59)
    || (0x16d70 <= u && u <= 0x16d79)
    || (0x1ccf0 <= u && u <= 0x1ccf9)
    || (0x1d7ce <= u && u <= 0x1d7ff)
    || (0x1e140 <= u && u <= 0x1e149)
    || (0x1e2f0 <= u && u <= 0x1e2f9)
    || (0x1e4f0 <= u && u <= 0x1e4f9)
    || (0x1e5f1 <= u && u <= 0x1e5fa)
    || (0x1e950 <= u && u <= 0x1e959)
    || (0x1fbf0 <= u && u <= 0x1fbf9)
}

pub open spec fn is_decimal_digit(c: char) -> bool {
    is_decimal_digit_code(c as u32)
}

/// Whether `c` has the Unicode `White_Space` property.
pub fn is_whitespace(c: char) -> (r: bool)
    ensures
        r == is_white_space(c),
{
    let u = c as u32;
    (0x09 <= u && u <= 0x0d) || u == 0x20 || u == 0x85 || u == 0xa0 || u == 0x1680 || (0x2000
        <= u && u <= 0x200a) || u == 0x2028 || u == 0x2029 || u == 0x202f || u == 0x205f || u
        == 0x3000
}

/// Whether `c` is a decimal digit of any script (category `Nd`).
pub fn is_decimal(c: char) -> (r: bool)
    ensures
        r == is_decimal_digit(c),
{
    let u = c as u32;
    (0x30 <= u && u <= 0x39)
    || (0x660 <= u && u <= 0x669)
    || (0x6f0 <= u && u <= 0x6f9)
    || (0x7c0 <= u && u <= 0x7c9)
    || (0x966 <= u && u <= 0x96f)
    || (0x9e6 <= u && u <= 0x9ef)
    || (0xa66 <= u && u <= 0xa6f)
    || (0xae6 <= u && u <= 0xaef)
    || (0xb66 <= u && u <= 0xb6f)
    || (0xbe6 <= u && u <= 0xbef)
    || (0xc66 <= u && u <= 0xc6f)
    || (0xce6 <= u && u <= 0xcef)
    || (0xd66 <= u && u <= 0xd6f)
    || (0xde6 <= u && u <= 0xdef)
    || (0xe50 <= u && u <= 0xe59)
    || (0xed0 <= u && u <= 0xed9)
    || (0xf20 <= u && u <= 0xf29)
    || (0x1040 <= u && u <= 0x1049)
    || (0x1090 <= u && u <= 0x1099)
    || (0x17e0 <= u && u <= 0x17e9)
    || (0x1810 <= u && u <= 0x1819)
    || (0x1946 <= u && u <= 0x194f)
    || (0x19d0 <= u && u <= 0x19d9)
    || (0x1a80 <= u && u <= 0x1a89)
    || (0x1a90 <= u && u <= 0x1a99)
    || (0x1b50 <= u && u <= 0x1b59)
    || (0x1bb0 <= u && u <= 0x1bb9)
    || (0x1c40 <= u && u <= 0x1c49)
    || (0x1c50 <= u && u <= 0x1c59)
    || (0xa620 <= u && u <= 0xa629)
    || (0xa8d0 <= u && u <= 0xa8d9)
    || (0xa900 <= u && u <= 0xa909)
    || (0xa9d0 <= u && u <= 0xa9d9)
    || (0xa9f0 <= u && u <= 0xa9f9)
    || (0xaa50 <= u && u <= 0xaa59)
    || (0xabf0 <= u && u <= 0xabf9)
    || (0xff10 <= u && u <= 0xff19)
    || (0x104a0 <= u && u <= 0x104a9)
    || (0x10d30 <= u && u <= 0x10d39)
    || (0x10d40 <= u && u <= 0x10d49)
    || (0x11066 <= u && u <= 0x1106f)
    || (0x110f0 <= u && u <= 0x110f9)
    || (0x11136 <= u && u <= 0x1113f)
    || (0x111d0 <= u && u <= 0x111d9)
    || (0x112f0 <= u && u <= 0x112f9)
    || (0x11450 <= u && u <= 0x11459)
    || (0x114d0 <= u && u <= 0x114d9)
    || (0x11650 <= u && u <= 0x11659)
    || (0x116c0 <= u && u <= 0x116c9)
    || (0x116d0 <= u && u <= 0x116e3)
    || (0x11730 <= u && u <= 0x11739)
    || (0x118e0 <= u && u <= 0x118e9)
    || (0x11950 <= u && u <= 0x11959)
    || (0x11bf0 <= u && u <= 0x11bf9)
    || (0x11c50 <= u && u <= 0x11c59)
    || (0x11d50 <= u && u <= 0x11d59)
    || (0x11da0 <= u && u <= 0x11da9)
    || (0x11f50 <= u && u <= 0x11f59)
    || (0x16130 <= u && u <= 0x16139)
    || (0x16a60 <= u && u <= 0x16a69)
    || (0x16ac0 <= u && u <= 0x16ac9)
    || (0x16b50 <= u && u <= 0x16b59)
    || (0x16d70 <= u && u <= 0x16d79)
    || (0x1ccf0 <= u && u <= 0x1ccf9)
    || (0x1d7ce <= u && u <= 0x1d7ff)
    || (0x1e140 <= u && u <= 0x1e149)
    || (0x1e2f0 <= u && u <= 0x1e2f9)
    || (0x1e4f0 <= u && u <= 0x1e4f9)
    || (0x1e5f1 <= u && u <= 0x1e5fa)
    || (0x1e950 <= u && u <= 0x1e959)
    || (0x1fbf0 <= u && u <= 0x1fbf9)
}

/// The texts of a sequence of strings.
pub open spec fn texts(v: Seq<String>) -> Seq<Seq<char>> {
    v.map_values(|s: String| s@)
}

/// Whether `s` is one of the strings of `v`.
pub fn contains_text(v: &Vec<String>, s: &str) -> (r: bool)
    ensures
        r == texts(v@).contains(s@),
{
    let target = String::from_str(s);
    let mut i: usize = 0;
    while i < v.len()
        invariant
            i <= v@.len(),
            target@ == s@,
            forall|j: int| 0 <= j < i ==> (#[trigger] v@[j])@ != s@,
        decreases v@.len() - i,
    {
        if v[i] == target {
            assert(texts(v@)[i as int] == s@);
            return true;
        }
        i = i + 1;
    }
    assert forall|j: int| 0 <= j < texts(v@).len() implies texts(v@)[j] != s@ by {
        assert(texts(v@)[j] == v@[j]@);
    }
    false
}

/// The characters of `s`, one by one.
pub fn chars_of(s: &str) -> (r: Vec<char>)
    ensures
        r@ == s@,
{
    let n = s.unicode_len();
    let mut r: Vec<char> = Vec::new();
    let mut i: usize = 0;
    while i < n
        invariant
            n == s@.len(),
            i <= n,
            r@ == s@.subrange(0, i as int),
        decreases n - i,
    {
        r.push(s.get_char(i));
        i = i + 1;
    }
    assert(r@ =~= s@);
    r
}

} // verus!
