//! Recognition of the file extensions the tool treats as images. The
//! comparison is ASCII-case-insensitive, which covers every supported
//! extension.

use vstd::prelude::*;

verus! {

/// ASCII lowercase of one byte.
pub open spec fn ascii_lower(b: u8) -> u8 {
    if 65 <= b <= 90 {
        (b + 32) as u8
    } else {
        b
    }
}

/// `s` equals `t` once ASCII-lowercased, where `t` is already lowercase.
pub open spec fn eq_ignore_ascii_case(s: Seq<u8>, t: Seq<u8>) -> bool {
    s.len() == t.len() && forall|i: int| 0 <= i < s.len() ==> ascii_lower(#[trigger] s[i]) == t[i]
}

/// Whether `ext` (a file extension, without the dot) names a supported
/// image format: jpg, jpeg, png, bmp, tif or tiff, in any letter case.
pub open spec fn is_supported_ext(ext: Seq<u8>) -> bool {
    ||| eq_ignore_ascii_case(ext, seq![106u8, 112u8, 103u8])
    ||| eq_ignore_ascii_case(ext, seq![106u8, 112u8, 101u8, 103u8])
    ||| eq_ignore_ascii_case(ext, seq![112u8, 110u8, 103u8])
    ||| eq_ignore_ascii_case(ext, seq![98u8, 109u8, 112u8])
    ||| eq_ignore_ascii_case(ext, seq![116u8, 105u8, 102u8])
    ||| eq_ignore_ascii_case(ext, seq![116u8, 105u8, 102u8, 102u8])
}

/// ASCII lowercase of one byte.
fn to_lower(b: u8) -> (r: u8)
    ensures
        r == ascii_lower(b),
{
    if 65 <= b && b <= 90 {
        b + 32
    } else {
        b
    }
}

/// Whether a file extension (without the dot, any letter case) is one the
/// tool reads as an image: jpg, jpeg, png, bmp, tif or tiff.
pub fn is_image_ext(ext: &[u8]) -> (r: bool)
    ensures
        r == is_supported_ext(ext@),
{
    let n = ext.len();
    if n == 3 {
        let a = to_lower(ext[0]);
        let b = to_lower(ext[1]);
        let c = to_lower(ext[2]);
        let hit = (a == 106u8 && b == 112u8 && c == 103u8) || (a == 112u8 && b == 110u8 && c == 103u8)
            || (a == 98u8 && b == 109u8 && c == 112u8) || (a == 116u8 && b == 105u8 && c == 102u8);
        proof {
            lemma_ext3(ext@, seq![106u8, 112u8, 103u8]);
            lemma_ext3(ext@, seq![112u8, 110u8, 103u8]);
            lemma_ext3(ext@, seq![98u8, 109u8, 112u8]);
            lemma_ext3(ext@, seq![116u8, 105u8, 102u8]);
        }
        hit
    } else if n == 4 {
        let a = to_lower(ext[0]);
        let b = to_lower(ext[1]);
        let c = to_lower(ext[2]);
        let d = to_lower(ext[3]);
        let hit = (a == 106u8 && b == 112u8 && c == 101u8 && d == 103u8) || (a == 116u8 && b == 105u8
            && c == 102u8 && d == 102u8);
        proof {
            lemma_ext4(ext@, seq![106u8, 112u8, 101u8, 103u8]);
            lemma_ext4(ext@, seq![116u8, 105u8, 102u8, 102u8]);
        }
        hit
    } else {
        false
    }
}

/// Element-wise lowercased equality over three bytes is the quantified one.
proof fn lemma_ext3(s: Seq<u8>, t: Seq<u8>)
    requires
        s.len() == 3,
        t.len() == 3,
    ensures
        eq_ignore_ascii_case(s, t) == (ascii_lower(s[0]) == t[0] && ascii_lower(s[1]) == t[1]
            && ascii_lower(s[2]) == t[2]),
{
    if ascii_lower(s[0]) == t[0] && ascii_lower(s[1]) == t[1] && ascii_lower(s[2]) == t[2] {
        assert forall|i: int| 0 <= i < s.len() implies ascii_lower(#[trigger] s[i]) == t[i] by {
            if i == 0 {
            } else if i == 1 {
            } else {
                assert(i == 2);
            }
        }
    }
}

/// Element-wise lowercased equality over four bytes is the quantified one.
proof fn lemma_ext4(s: Seq<u8>, t: Seq<u8>)
    requires
        s.len() == 4,
        t.len() == 4,
    ensures
        eq_ignore_ascii_case(s, t) == (ascii_lower(s[0]) == t[0] && ascii_lower(s[1]) == t[1]
            && ascii_lower(s[2]) == t[2] && ascii_lower(s[3]) == t[3]),
{
    if ascii_lower(s[0]) == t[0] && ascii_lower(s[1]) == t[1] && ascii_lower(s[2]) == t[2]
        && ascii_lower(s[3]) == t[3] {
        assert forall|i: int| 0 <= i < s.len() implies ascii_lower(#[trigger] s[i]) == t[i] by {
            if i == 0 {
            } else if i == 1 {
            } else if i == 2 {
            } else {
                assert(i == 3);
            }
        }
    }
}

} // verus!
