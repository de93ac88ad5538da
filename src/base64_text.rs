//! Base64 (standard alphabet, with padding), the optional wrapping of an
//! action on the command line.

use vstd::prelude::*;
use crate::text::chars_of;

verus! {

/// The value of a base64 digit.
pub open spec fn digit_value(c: char) -> Option<nat> {
    if 'A' <= c <= 'Z' {
        Some((c as nat - 'A' as nat) as nat)
    } else if 'a' <= c <= 'z' {
        Some((c as nat - 'a' as nat + 26) as nat)
    } else if '0' <= c <= '9' {
        Some((c as nat - '0' as nat + 52) as nat)
    } else if c == '+' {
        Some(62)
    } else if c == '/' {
        Some(63)
    } else {
        None
    }
}

/// The three bytes of four digit values.
pub open spec fn quad_bytes(a: nat, b: nat, c: nat, d: nat) -> Seq<u8> {
    seq![((a * 4 + b / 16) % 256) as u8, ((b % 16) * 16 + c / 4) as u8, ((c % 4) * 64 + d) as u8]
}

/// The bytes a base64 text stands for, `None` if it is not base64: groups
/// of four digits, the last of which may end in `=` or `==`.
pub open spec fn decoded(s: Seq<char>) -> Option<Seq<u8>>
    decreases s.len(),
{
    if s.len() == 0 {
        Some(Seq::empty())
    } else if s.len() < 4 || digit_value(s[0]) is None || digit_value(s[1]) is None {
        None
    } else {
        let a = digit_value(s[0])->Some_0;
        let b = digit_value(s[1])->Some_0;
        if s.len() == 4 && s[2] == '=' && s[3] == '=' {
            Some(quad_bytes(a, b, 0, 0).subrange(0, 1))
        } else if digit_value(s[2]) is None {
            None
        } else if s.len() == 4 && s[3] == '=' {
            Some(quad_bytes(a, b, digit_value(s[2])->Some_0, 0).subrange(0, 2))
        } else if digit_value(s[3]) is None {
            None
        } else {
            match decoded(s.subrange(4, s.len() as int)) {
                Some(rest) => Some(
                    quad_bytes(a, b, digit_value(s[2])->Some_0, digit_value(s[3])->Some_0) + rest,
                ),
                None => None,
            }
        }
    }
}

fn digit(c: char) -> (r: Option<u32>)
    ensures
        match r {
            Some(v) => digit_value(c) == Some(v as nat) && v < 64,
            None => digit_value(c) is None,
        },
{
    if 'A' <= c && c <= 'Z' {
        Some(c as u32 - 'A' as u32)
    } else if 'a' <= c && c <= 'z' {
        Some(c as u32 - 'a' as u32 + 26)
    } else if '0' <= c && c <= '9' {
        Some(c as u32 - '0' as u32 + 52)
    } else if c == '+' {
        Some(62)
    } else if c == '/' {
        Some(63)
    } else {
        None
    }
}

fn push_quad(out: &mut Vec<u8>, a: u32, b: u32, c: u32, d: u32, n: usize)
    requires
        a < 64,
        b < 64,
        c < 64,
        d < 64,
        1 <= n <= 3,
    ensures
        final(out)@ == old(out)@ + quad_bytes(a as nat, b as nat, c as nat, d as nat).subrange(
            0,
            n as int,
        ),
{
    out.push(((a * 4 + b / 16) % 256) as u8);
    if n >= 2 {
        out.push(((b % 16) * 16 + c / 4) as u8);
    }
    if n >= 3 {
        out.push(((c % 4) * 64 + d) as u8);
    }
    assert(final(out)@ =~= old(out)@ + quad_bytes(a as nat, b as nat, c as nat, d as nat).subrange(
        0,
        n as int,
    ));
}

/// Decodes a base64 text.
pub fn decode_base64(text: &str) -> (r: Option<Vec<u8>>)
    ensures
        match r {
            Some(v) => decoded(text@) == Some(v@),
            None => decoded(text@) is None,
        },
{
    let s = chars_of(text);
    let mut out: Vec<u8> = Vec::new();
    let mut i: usize = 0;
    assert(s@.subrange(0, s@.len() as int) =~= s@);
    while i < s.len()
        invariant
            i <= s@.len(),
            s@ == text@,
            decoded(text@) == match decoded(s@.subrange(i as int, s@.len() as int)) {
                Some(rest) => Some(out@ + rest),
                None => None::<Seq<u8>>,
            },
        decreases s@.len() - i,
    {
        let ghost rest = s@.subrange(i as int, s@.len() as int);
        if s.len() - i < 4 {
            return None;
        }
        proof {
            assert(rest[0] == s@[i as int]);
            assert(rest[1] == s@[i + 1]);
            assert(rest[2] == s@[i + 2]);
            assert(rest[3] == s@[i + 3]);
        }
        let a = match digit(s[i]) {
            Some(v) => v,
            None => {
                return None;
            },
        };
        let b = match digit(s[i + 1]) {
            Some(v) => v,
            None => {
                return None;
            },
        };
        let last = s.len() - i == 4;
        if last && s[i + 2] == '=' && s[i + 3] == '=' {
            let ghost before = out@;
            push_quad(&mut out, a, b, 0, 0, 1);
            proof {
                assert(before + quad_bytes(a as nat, b as nat, 0, 0).subrange(0, 1) + Seq::<u8>::empty()
                    =~= out@);
                assert(s@.subrange(s@.len() as int, s@.len() as int) =~= Seq::<char>::empty());
            }
            i = s.len();
        } else {
            let c = match digit(s[i + 2]) {
                Some(v) => v,
                None => {
                    return None;
                },
            };
            if last && s[i + 3] == '=' {
                let ghost before = out@;
                push_quad(&mut out, a, b, c, 0, 2);
                proof {
                    assert(before + quad_bytes(a as nat, b as nat, c as nat, 0).subrange(0, 2)
                        + Seq::<u8>::empty() =~= out@);
                    assert(s@.subrange(s@.len() as int, s@.len() as int) =~= Seq::<char>::empty());
                }
                i = s.len();
            } else {
                let d = match digit(s[i + 3]) {
                    Some(v) => v,
                    None => {
                        return None;
                    },
                };
                let ghost before = out@;
                push_quad(&mut out, a, b, c, d, 3);
                proof {
                    assert(rest.subrange(4, rest.len() as int) =~= s@.subrange(
                        i + 4,
                        s@.len() as int,
                    ));
                    assert(quad_bytes(a as nat, b as nat, c as nat, d as nat).subrange(0, 3)
                        =~= quad_bytes(a as nat, b as nat, c as nat, d as nat));
                    match decoded(s@.subrange(i + 4, s@.len() as int)) {
                        Some(r2) => {
                            assert(before + (quad_bytes(a as nat, b as nat, c as nat, d as nat) + r2)
                                =~= out@ + r2);
                        },
                        None => {},
                    }
                }
                i = i + 4;
            }
        }
    }
    proof {
        assert(s@.subrange(i as int, s@.len() as int) =~= Seq::<char>::empty());
        assert(out@ + Seq::<u8>::empty() =~= out@);
    }
    Some(out)
}

} // verus!
