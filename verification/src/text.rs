use vstd::prelude::*;

verus! {

/// Byte length of the UTF-8 character introduced by first byte `b`, or 0
/// when `b` can introduce none: continuation bytes, the overlong starters
/// 0xC0 and 0xC1, and starters beyond U+10FFFF are excluded.
pub open spec fn utf8_char_len(b: u8) -> int {
    if b < 0x80 {
        1
    } else if 0xC2 <= b && b < 0xE0 {
        2
    } else if 0xE0 <= b && b < 0xF0 {
        3
    } else if 0xF0 <= b && b < 0xF5 {
        4
    } else {
        0
    }
}

/// Whether `b` is a UTF-8 continuation byte.
pub open spec fn utf8_cont(b: u8) -> bool {
    0x80 <= b && b < 0xC0
}

/// Whether `b1` may follow first byte `b0` of a three- or four-byte
/// character: the narrowed second-byte ranges exclude overlong forms,
/// surrogates, and code points beyond U+10FFFF.
pub open spec fn utf8_second_ok(b0: u8, b1: u8) -> bool {
    if b0 == 0xE0 {
        0xA0 <= b1 && b1 < 0xC0
    } else if b0 == 0xED {
        0x80 <= b1 && b1 < 0xA0
    } else if b0 == 0xF0 {
        0x90 <= b1 && b1 < 0xC0
    } else if b0 == 0xF4 {
        0x80 <= b1 && b1 < 0x90
    } else {
        utf8_cont(b1)
    }
}

/// Whether `s` is a well-formed UTF-8 byte string: a sequence of
/// well-formed characters with no trailing truncated character.
pub open spec fn is_utf8(s: Seq<u8>) -> bool
    decreases s.len(),
{
    if s.len() == 0 {
        true
    } else {
        let k = utf8_char_len(s[0]);
        if k == 1 {
            is_utf8(s.skip(1))
        } else if k == 2 {
            s.len() >= 2 && utf8_cont(s[1]) && is_utf8(s.skip(2))
        } else if k == 3 {
            s.len() >= 3 && utf8_second_ok(s[0], s[1]) && utf8_cont(s[2]) && is_utf8(s.skip(3))
        } else if k == 4 {
            s.len() >= 4 && utf8_second_ok(s[0], s[1]) && utf8_cont(s[2]) && utf8_cont(s[3])
                && is_utf8(s.skip(4))
        } else {
            false
        }
    }
}

proof fn lemma_skip_skip(s: Seq<u8>, a: int, b: int)
    requires
        0 <= a,
        0 <= b,
        a + b <= s.len(),
    ensures
        s.skip(a).skip(b) == s.skip(a + b),
{
    assert(s.skip(a).skip(b) =~= s.skip(a + b));
}

fn cont_exec(b: u8) -> (r: bool)
    ensures
        r == utf8_cont(b),
{
    0x80 <= b && b < 0xC0
}

fn second_ok_exec(b0: u8, b1: u8) -> (r: bool)
    ensures
        r == utf8_second_ok(b0, b1),
{
    if b0 == 0xE0 {
        0xA0 <= b1 && b1 < 0xC0
    } else if b0 == 0xED {
        0x80 <= b1 && b1 < 0xA0
    } else if b0 == 0xF0 {
        0x90 <= b1 && b1 < 0xC0
    } else if b0 == 0xF4 {
        0x80 <= b1 && b1 < 0x90
    } else {
        cont_exec(b1)
    }
}

/// Decides UTF-8 well-formedness of a byte string, as the lookup entry
/// point requires of a host name.
pub fn validate_utf8(s: &[u8]) -> (r: bool)
    ensures
        r == is_utf8(s@),
{
    let n = s.len();
    let mut i: usize = 0;
    proof {
        assert(s@.skip(0) =~= s@);
    }
    while i < n
        invariant
            i <= n,
            n == s@.len(),
            is_utf8(s@) == is_utf8(s@.skip(i as int)),
        decreases n - i,
    {
        let rem = n - i;
        let b0 = s[i];
        proof {
            let t = s@.skip(i as int);
            assert(t.len() == n - i);
            assert(t[0] == s@[i as int]);
        }
        if b0 < 0x80 {
            proof {
                lemma_skip_skip(s@, i as int, 1);
            }
            i = i + 1;
        } else if 0xC2 <= b0 && b0 < 0xE0 {
            if rem < 2 || !cont_exec(s[i + 1]) {
                proof {
                    let t = s@.skip(i as int);
                    if t.len() >= 2 {
                        assert(t[1] == s@[i + 1]);
                    }
                    assert(!is_utf8(t));
                }
                return false;
            }
            proof {
                let t = s@.skip(i as int);
                assert(t[1] == s@[i + 1]);
                lemma_skip_skip(s@, i as int, 2);
            }
            i = i + 2;
        } else if 0xE0 <= b0 && b0 < 0xF0 {
            if rem < 3 || !second_ok_exec(b0, s[i + 1]) || !cont_exec(s[i + 2]) {
                proof {
                    let t = s@.skip(i as int);
                    if t.len() >= 2 {
                        assert(t[1] == s@[i + 1]);
                    }
                    if t.len() >= 3 {
                        assert(t[2] == s@[i + 2]);
                    }
                    assert(!is_utf8(t));
                }
                return false;
            }
            proof {
                let t = s@.skip(i as int);
                assert(t[1] == s@[i + 1] && t[2] == s@[i + 2]);
                lemma_skip_skip(s@, i as int, 3);
            }
            i = i + 3;
        } else if 0xF0 <= b0 && b0 < 0xF5 {
            if rem < 4 || !second_ok_exec(b0, s[i + 1]) || !cont_exec(s[i + 2])
                || !cont_exec(s[i + 3]) {
                proof {
                    let t = s@.skip(i as int);
                    if t.len() >= 2 {
                        assert(t[1] == s@[i + 1]);
                    }
                    if t.len() >= 3 {
                        assert(t[2] == s@[i + 2]);
                    }
                    if t.len() >= 4 {
                        assert(t[3] == s@[i + 3]);
                    }
                    assert(!is_utf8(t));
                }
                return false;
            }
            proof {
                let t = s@.skip(i as int);
                assert(t[1] == s@[i + 1] && t[2] == s@[i + 2] && t[3] == s@[i + 3]);
                lemma_skip_skip(s@, i as int, 4);
            }
            i = i + 4;
        } else {
            proof {
                assert(!is_utf8(s@.skip(i as int)));
            }
            return false;
        }
    }
    proof {
        assert(s@.skip(n as int) =~= Seq::<u8>::empty());
    }
    true
}

} // verus!
