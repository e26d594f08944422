//! The suffixes of instance names: four lower-case letters or digits. There
//! are 36 to the power of 4 of them, and they can be counted through.

use crate::random::is_lower_alphanumeric;
use vstd::prelude::*;
use vstd::string::*;

verus! {

/// How many suffixes there are.
pub const SUFFIXES: u32 = 1679616;

/// A suffix: four lower-case letters or digits.
pub open spec fn is_suffix(s: Seq<char>) -> bool {
    s.len() == 4 && forall|k: int| 0 <= k < 4 ==> is_lower_alphanumeric(#[trigger] s[k])
}

/// The `v`-th of the 36 characters of a suffix: `0` to `9`, then `a` to `z`.
pub open spec fn suffix_char(v: int) -> char {
    if v < 10 {
        ((48 + v) as u8) as char
    } else {
        ((87 + v) as u8) as char
    }
}

/// Where a character stands among the 36 characters of a suffix.
pub open spec fn char_rank(c: char) -> int {
    if c <= '9' {
        (c as u8) - 48
    } else {
        (c as u8) - 87
    }
}

/// The `k`-th suffix, counting as in base 36 with four places.
pub open spec fn suffix_of(k: int) -> Seq<char> {
    seq![
        suffix_char(k / 46656),
        suffix_char((k / 1296) % 36),
        suffix_char((k / 36) % 36),
        suffix_char(k % 36),
    ]
}

/// The number of a suffix.
pub open spec fn suffix_rank(s: Seq<char>) -> int {
    ((char_rank(s[0]) * 36 + char_rank(s[1])) * 36 + char_rank(s[2])) * 36 + char_rank(s[3])
}

/// A character of a suffix is the one of its rank.
pub proof fn lemma_char_rank(c: char)
    requires
        is_lower_alphanumeric(c),
    ensures
        0 <= char_rank(c) < 36,
        suffix_char(char_rank(c)) == c,
{
    let b = c as u8;
    if c <= '9' {
        assert(48 <= b <= 57);
        assert(((48 + (b - 48)) as u8) == b);
        assert((b as char) == c);
    } else {
        assert(97 <= b <= 122);
        assert(((87 + (b - 87)) as u8) == b);
        assert((b as char) == c);
    }
}

/// The character of a rank is a lower-case letter or a digit.
pub proof fn lemma_suffix_char(v: int)
    requires
        0 <= v < 36,
    ensures
        is_lower_alphanumeric(suffix_char(v)),
{
    if v < 10 {
        let b = (48 + v) as u8;
        assert(48 <= b <= 57);
        assert((b as char) as u8 == b);
    } else {
        let b = (87 + v) as u8;
        assert(97 <= b <= 122);
        assert((b as char) as u8 == b);
    }
}

/// Counting from 0 up to `SUFFIXES` goes through every suffix: each suffix
/// is the one of its number.
pub proof fn lemma_suffixes_cover(s: Seq<char>)
    requires
        is_suffix(s),
    ensures
        0 <= suffix_rank(s) < SUFFIXES,
        suffix_of(suffix_rank(s)) == s,
{
    lemma_char_rank(s[0]);
    lemma_char_rank(s[1]);
    lemma_char_rank(s[2]);
    lemma_char_rank(s[3]);
    let a = char_rank(s[0]);
    let b = char_rank(s[1]);
    let c = char_rank(s[2]);
    let d = char_rank(s[3]);
    let k = suffix_rank(s);
    assert(k == a * 46656 + b * 1296 + c * 36 + d);
    assert(k / 46656 == a);
    assert((k / 1296) % 36 == b);
    assert((k / 36) % 36 == c);
    assert(k % 36 == d);
    assert(suffix_of(k) =~= s);
}

/// The character of a rank has that rank.
pub proof fn lemma_rank_of_char(v: int)
    requires
        0 <= v < 36,
    ensures
        char_rank(suffix_char(v)) == v,
{
    if v < 10 {
        let b = (48 + v) as u8;
        assert(48 <= b <= 57);
        assert((b as char) as u8 == b);
        assert((b as char) <= '9');
    } else {
        let b = (87 + v) as u8;
        assert(97 <= b <= 122);
        assert((b as char) as u8 == b);
        assert(!((b as char) <= '9'));
    }
}

/// No two numbers below `SUFFIXES` have the same suffix: the number of a
/// numbered suffix is that number.
pub proof fn lemma_suffix_rank_of(k: int)
    requires
        0 <= k < SUFFIXES,
    ensures
        suffix_rank(suffix_of(k)) == k,
{
    lemma_rank_of_char(k / 46656);
    lemma_rank_of_char((k / 1296) % 36);
    lemma_rank_of_char((k / 36) % 36);
    lemma_rank_of_char(k % 36);
}

/// Every numbered suffix is a suffix.
pub proof fn lemma_suffix_of(k: int)
    requires
        0 <= k < SUFFIXES,
    ensures
        is_suffix(suffix_of(k)),
{
    lemma_suffix_char(k / 46656);
    lemma_suffix_char((k / 1296) % 36);
    lemma_suffix_char((k / 36) % 36);
    lemma_suffix_char(k % 36);
}

fn rank_str(v: u32) -> (r: &'static str)
    requires
        v < 36,
    ensures
        r@ == seq![suffix_char(v as int)],
{
    let all = "0123456789abcdefghijklmnopqrstuvwxyz";
    proof {
        reveal_strlit("0123456789abcdefghijklmnopqrstuvwxyz");
    }
    let r = all.substring_char(v as usize, v as usize + 1);
    proof {
        assert(r@.len() == 1);
        assert(r@[0] == all@[v as int]);
        assert(all@[v as int] == suffix_char(v as int)) by {
            lemma_alphabet(v as int);
        }
        assert(r@ =~= seq![suffix_char(v as int)]);
    }
    r
}

proof fn lemma_alphabet(v: int)
    requires
        0 <= v < 36,
    ensures
        "0123456789abcdefghijklmnopqrstuvwxyz"@[v] == suffix_char(v),
{
    reveal_strlit("0123456789abcdefghijklmnopqrstuvwxyz");
    let all = "0123456789abcdefghijklmnopqrstuvwxyz"@;
    assert(all[0] == '0' && all[1] == '1' && all[2] == '2' && all[3] == '3' && all[4] == '4'
        && all[5] == '5' && all[6] == '6' && all[7] == '7' && all[8] == '8' && all[9] == '9');
    assert(all[10] == 'a' && all[11] == 'b' && all[12] == 'c' && all[13] == 'd' && all[14] == 'e'
        && all[15] == 'f' && all[16] == 'g' && all[17] == 'h' && all[18] == 'i' && all[19]
        == 'j');
    assert(all[20] == 'k' && all[21] == 'l' && all[22] == 'm' && all[23] == 'n' && all[24] == 'o'
        && all[25] == 'p' && all[26] == 'q' && all[27] == 'r' && all[28] == 's' && all[29]
        == 't');
    assert(all[30] == 'u' && all[31] == 'v' && all[32] == 'w' && all[33] == 'x' && all[34] == 'y'
        && all[35] == 'z');
    if v < 10 {
        let b = (48 + v) as u8;
        assert((b as char) as u8 == b);
    } else {
        let b = (87 + v) as u8;
        assert((b as char) as u8 == b);
    }
}

/// The `k`-th suffix.
pub fn suffix(k: u32) -> (r: String)
    requires
        k < SUFFIXES,
    ensures
        r@ == suffix_of(k as int),
{
    let mut out = String::from_str(rank_str(k / 46656));
    out.append(rank_str((k / 1296) % 36));
    out.append(rank_str((k / 36) % 36));
    out.append(rank_str(k % 36));
    assert(out@ =~= suffix_of(k as int));
    out
}

} // verus!
