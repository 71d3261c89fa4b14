//! The byte stream of the shell, cut into reads: how much of what has been
//! read is whole characters, so that a character that a read cuts in two is
//! decoded only when its rest has arrived.

use vstd::prelude::*;

verus! {

/// The byte continues a character of several bytes.
pub open spec fn is_continuation(b: u8) -> bool {
    0x80 <= b <= 0xBF
}

/// How many bytes the character has that begins with the byte `lead`; 1 for
/// a byte that begins no character of several bytes.
pub open spec fn sequence_len(lead: u8) -> int {
    if 0xF0 <= lead <= 0xF7 {
        4
    } else if 0xE0 <= lead <= 0xEF {
        3
    } else if 0xC0 <= lead <= 0xDF {
        2
    } else {
        1
    }
}

/// At index `k` of `bytes` a character begins that `bytes` does not hold to
/// its end: its first byte asks for more bytes than follow, and what follows
/// continues it.
pub open spec fn is_cut_character(bytes: Seq<u8>, k: int) -> bool {
    &&& 0 <= k < bytes.len()
    &&& sequence_len(bytes[k]) > bytes.len() - k
    &&& forall|j: int| k < j < bytes.len() ==> is_continuation(#[trigger] bytes[j])
}

/// How many bytes at the start of `bytes` can be decoded now: all up to the
/// character that is cut off at the end, or all where none is cut off.
pub fn whole_prefix(bytes: &[u8]) -> (n: usize)
    ensures
        n <= bytes@.len(),
        bytes@.len() - n <= 3,
        n < bytes@.len() ==> is_cut_character(bytes@, n as int),
        n == bytes@.len() ==> forall|k: int| !is_cut_character(bytes@, k),
{
    let len: usize = bytes.len();
    let mut back: usize = 1;
    while back <= 3 && back <= len
        invariant
            len == bytes@.len(),
            1 <= back <= 4,
            back <= len + 1,
            forall|j: int| len - back < j < len ==> is_continuation(#[trigger] bytes@[j]),
        decreases 4 - back,
    {
        let at: usize = len - back;
        let b: u8 = bytes[at];
        if b >= 0xC0 {
            let need: usize = if b >= 0xF0 && b <= 0xF7 {
                4
            } else if b >= 0xE0 && b <= 0xEF {
                3
            } else if b <= 0xDF {
                2
            } else {
                1
            };
            if need > back {
                return at;
            }
            assert forall|k: int| !is_cut_character(bytes@, k) by {
                if is_cut_character(bytes@, k) {
                    if k > at {
                        assert(is_continuation(bytes@[k]));
                    } else if k < at {
                        assert(is_continuation(bytes@[at as int]));
                    }
                }
            }
            return len;
        }
        if b < 0x80 {
            assert forall|k: int| !is_cut_character(bytes@, k) by {
                if is_cut_character(bytes@, k) {
                    if k > at {
                        assert(is_continuation(bytes@[k]));
                    } else if k < at {
                        assert(is_continuation(bytes@[at as int]));
                    }
                }
            }
            return len;
        }
        back += 1;
    }
    assert forall|k: int| !is_cut_character(bytes@, k) by {
        if is_cut_character(bytes@, k) {
            if k > len - back {
                assert(is_continuation(bytes@[k]));
            }
        }
    }
    len
}

} // verus!
