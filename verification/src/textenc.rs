//! Verified text building blocks for the upload endpoint: decimal rendering
//! of integers, extraction of a path's base name, and percent-encoding of an
//! asset name for use as a URL query parameter.

use vstd::prelude::*;
use vstd::string::StrSliceExecFns;
use vstd::string::StringExecFns;
use vstd::string::StringSliceAdditionalSpecFns;
use vstd::utf8::encode_utf8;

verus! {

/// The character for one digit value below sixteen: `0`–`9`, then `a`–`f`.
pub open spec fn digit_char(d: int) -> char {
    seq!['0', '1', '2', '3', '4', '5', '6', '7', '8', '9', 'a', 'b', 'c', 'd', 'e', 'f'][d]
}

/// The decimal rendering of `n`, most significant digit first, no leading
/// zeros (a single `0` for zero).
pub open spec fn dec_chars(n: nat) -> Seq<char>
    decreases n,
{
    if n < 10 {
        seq![digit_char(n as int)]
    } else {
        dec_chars(n / 10) + seq![digit_char((n % 10) as int)]
    }
}

/// One digit value below sixteen as a string slice of one character.
pub fn digit_str(d: u8) -> (r: &'static str)
    requires
        d < 16,
    ensures
        r@ == seq![digit_char(d as int)],
{
    proof {
        reveal_strlit("0");
        reveal_strlit("1");
        reveal_strlit("2");
        reveal_strlit("3");
        reveal_strlit("4");
        reveal_strlit("5");
        reveal_strlit("6");
        reveal_strlit("7");
        reveal_strlit("8");
        reveal_strlit("9");
        reveal_strlit("a");
        reveal_strlit("b");
        reveal_strlit("c");
        reveal_strlit("d");
        reveal_strlit("e");
        reveal_strlit("f");
    }
    match d {
        0 => "0",
        1 => "1",
        2 => "2",
        3 => "3",
        4 => "4",
        5 => "5",
        6 => "6",
        7 => "7",
        8 => "8",
        9 => "9",
        10 => "a",
        11 => "b",
        12 => "c",
        13 => "d",
        14 => "e",
        _ => "f",
    }
}

/// Renders `n` in decimal, exactly as [`dec_chars`] states.
pub fn u64_to_dec(n: u64) -> (r: String)
    ensures
        r@ == dec_chars(n as nat),
    decreases n,
{
    if n < 10 {
        digit_str(n as u8).to_owned()
    } else {
        let mut r = u64_to_dec(n / 10);
        r.append(digit_str((n % 10) as u8));
        r
    }
}

/// The base name of a path: the longest suffix that contains no `/`.
/// A path that ends in `/` has an empty base name.
pub open spec fn base_name_of(s: Seq<char>) -> Seq<char>
    decreases s.len(),
{
    if s.len() == 0 {
        s
    } else if s.last() == '/' {
        Seq::empty()
    } else {
        base_name_of(s.drop_last()).push(s.last())
    }
}

/// Extracts the base name of `path`, exactly as [`base_name_of`] states.
pub fn base_name(path: &str) -> (r: String)
    ensures
        r@ == base_name_of(path@),
{
    let n = path.unicode_len();
    let mut k = n;
    proof {
        let s = path@;
        assert(s.subrange(0, n as int) =~= s);
        assert(base_name_of(s) + s.subrange(n as int, n as int) =~= base_name_of(s));
    }
    while k > 0 && path.get_char(k - 1) != '/'
        invariant
            k <= n,
            n == path@.len(),
            base_name_of(path@) == base_name_of(path@.subrange(0, k as int)) + path@.subrange(
                k as int,
                n as int,
            ),
        decreases k,
    {
        proof {
            let s = path@;
            let pre = s.subrange(0, k as int);
            assert(pre.drop_last() =~= s.subrange(0, k - 1));
            assert(pre.last() == s[k - 1]);
            assert(base_name_of(pre) == base_name_of(s.subrange(0, k - 1)).push(s[k - 1]));
            assert(base_name_of(s.subrange(0, k - 1)) + s.subrange(k - 1, n as int)
                =~= base_name_of(s.subrange(0, k - 1)).push(s[k - 1]) + s.subrange(
                k as int,
                n as int,
            ));
        }
        k = k - 1;
    }
    proof {
        let s = path@;
        if k == 0 {
            assert(s.subrange(0, 0) =~= Seq::<char>::empty());
            assert(base_name_of(Seq::<char>::empty()) + s.subrange(0, n as int) =~= s.subrange(
                0,
                n as int,
            ));
        } else {
            assert(s.subrange(0, k as int).last() == s[k - 1]);
            assert(base_name_of(s.subrange(0, k as int)) =~= Seq::<char>::empty());
        }
        assert(Seq::<char>::empty() + s.subrange(k as int, n as int) =~= s.subrange(
            k as int,
            n as int,
        ));
    }
    path.substring_char(k, n).to_owned()
}

/// A character that percent-encoding leaves as it is: an ASCII letter or
/// digit, or one of `-`, `_`, `.`, `~`.
pub open spec fn is_unreserved(c: char) -> bool {
    ||| ('a' as int <= c as int && c as int <= 'z' as int)
    ||| ('A' as int <= c as int && c as int <= 'Z' as int)
    ||| ('0' as int <= c as int && c as int <= '9' as int)
    ||| c == '-'
    ||| c == '_'
    ||| c == '.'
    ||| c == '~'
}

/// The three characters that stand for one escaped byte: `%` and two
/// lowercase hexadecimal digits.
pub open spec fn escape_byte(b: u8) -> Seq<char> {
    seq!['%', digit_char(b as int / 16), digit_char(b as int % 16)]
}

/// Every byte of `bs` escaped, in order.
pub open spec fn escape_bytes(bs: Seq<u8>) -> Seq<char>
    decreases bs.len(),
{
    if bs.len() == 0 {
        Seq::empty()
    } else {
        escape_bytes(bs.drop_last()) + escape_byte(bs.last())
    }
}

/// How one character appears in the encoded name: unreserved characters stand
/// for themselves, every other character as the escapes of its UTF-8 bytes.
pub open spec fn escaped_char(c: char) -> Seq<char> {
    if is_unreserved(c) {
        seq![c]
    } else {
        escape_bytes(encode_utf8(seq![c]))
    }
}

/// The percent-encoded form of a name, character by character.
pub open spec fn url_escaped(s: Seq<char>) -> Seq<char>
    decreases s.len(),
{
    if s.len() == 0 {
        Seq::empty()
    } else {
        url_escaped(s.drop_last()) + escaped_char(s.last())
    }
}

/// Decides [`is_unreserved`] for one character.
fn is_unreserved_char(c: char) -> (r: bool)
    ensures
        r == is_unreserved(c),
{
    let u = c as u32;
    (97 <= u && u <= 122) || (65 <= u && u <= 90) || (48 <= u && u <= 57) || u == 45 || u == 95
        || u == 46 || u == 126
}

/// Percent-encodes `s`, exactly as [`url_escaped`] states.
pub fn percent_encode(s: &str) -> (r: String)
    ensures
        r@ == url_escaped(s@),
{
    let n = s.unicode_len();
    let mut r = String::new();
    let mut i: usize = 0;
    proof {
        assert(s@.subrange(0, 0) =~= Seq::<char>::empty());
    }
    while i < n
        invariant
            i <= n,
            n == s@.len(),
            r@ == url_escaped(s@.subrange(0, i as int)),
        decreases n - i,
    {
        let piece = s.substring_char(i, i + 1);
        proof {
            assert(piece@ =~= seq![s@[i as int]]);
            assert(s@.subrange(0, i + 1).drop_last() =~= s@.subrange(0, i as int));
            assert(s@.subrange(0, i + 1).last() == s@[i as int]);
        }
        let c = piece.get_char(0);
        if is_unreserved_char(c) {
            r.append(piece);
        } else {
            let bs = piece.as_bytes_vec();
            let m = bs.len();
            let mut j: usize = 0;
            proof {
                assert(bs@.subrange(0, 0) =~= Seq::<u8>::empty());
                assert(r@ + escape_bytes(bs@.subrange(0, 0)) =~= r@);
            }
            let ghost r0 = r@;
            while j < m
                invariant
                    j <= m,
                    m == bs@.len(),
                    r@ == r0 + escape_bytes(bs@.subrange(0, j as int)),
                decreases m - j,
            {
                let b = bs[j];
                r.append("%");
                r.append(digit_str(b / 16));
                r.append(digit_str(b % 16));
                proof {
                    reveal_strlit("%");
                    assert(bs@.subrange(0, j + 1).drop_last() =~= bs@.subrange(0, j as int));
                    assert(bs@.subrange(0, j + 1).last() == bs@[j as int]);
                    assert(r@ =~= r0 + escape_bytes(bs@.subrange(0, j + 1)));
                }
                j = j + 1;
            }
            proof {
                assert(bs@.subrange(0, m as int) =~= bs@);
                assert(escape_bytes(bs@) == escaped_char(c));
            }
        }
        i = i + 1;
    }
    proof {
        assert(s@.subrange(0, n as int) =~= s@);
    }
    r
}

} // verus!
