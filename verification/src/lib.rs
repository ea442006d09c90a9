//! Codec for third-generation handheld-RPG save files.
//!
//! The library reads and writes the 128 KiB save image: dual save slots with
//! rotated 4 KiB sections, per-section checksums, box slots that may straddle
//! a section boundary, and 80-byte creature records whose data region is
//! permuted by the personality value and masked by an XOR stream. On top of
//! the codec sit an in-memory model of the roam store and the transfer
//! protocol that keeps every creature in at most one home.

use vstd::prelude::*;
use vstd::string::StringExecFns;

pub mod bytes;
pub mod pokemon;
pub mod save;
pub mod session;
pub mod store;
pub mod transfer;
pub mod types;

verus! {

/// The surfaced error conditions of the codec and its callers.
#[derive(Clone, Copy, Debug, PartialEq, Eq, Structural)]
pub enum SaveError {
    /// The save image is shorter than the 131072 bytes the format requires.
    BadLength,
    /// The section ids of the current slot are not a rotation of 0..13.
    BadRotation,
    /// A section's stored checksum does not match its data.
    BadChecksum,
    /// A creature record could not be decoded.
    MalformedCreature,
    /// The trainer-info section holds an invalid field.
    MalformedTrainerInfo,
    /// A caller-supplied (box, slot) pair lies outside 1..14 x 1..30.
    SlotOutOfRange,
}

/// The identity of a trainer: the public half and the secret half of the
/// 32-bit trainer id.
#[derive(Clone, Copy, Debug, PartialEq, Eq, Structural)]
pub struct TrainerId {
    pub public_id: u16,
    pub secret_id: u16,
}

/// The number of text bytes before the first terminator (a byte of 0xFA or
/// above), or the whole length when no terminator occurs.
pub open spec fn spec_text_len(data: Seq<u8>) -> int
    decreases data.len(),
{
    if data.len() == 0 {
        0
    } else if data[0] >= 0xfa {
        0
    } else {
        1 + spec_text_len(data.skip(1))
    }
}

/// The character that a single in-game text byte denotes.
pub open spec fn spec_decode_char(b: u8) -> char {
    if 0xbb <= b <= 0xd4 {
        ((b - 0xbb + 0x41) as u8) as char
    } else if 0xd5 <= b <= 0xee {
        ((b - 0xd5 + 0x61) as u8) as char
    } else {
        '*'
    }
}

/// The text that a run of in-game text bytes denotes: every byte before the
/// first terminator, each mapped through `spec_decode_char`.
pub open spec fn spec_decode_text(data: Seq<u8>) -> Seq<char> {
    Seq::new(spec_text_len(data) as nat, |i: int| spec_decode_char(data[i]))
}

proof fn lemma_text_len_bounds(data: Seq<u8>)
    ensures
        0 <= spec_text_len(data) <= data.len(),
        forall|i: int| 0 <= i < spec_text_len(data) ==> data[i] < 0xfa,
        spec_text_len(data) < data.len() ==> data[spec_text_len(data)] >= 0xfa,
    decreases data.len(),
{
    if data.len() == 0 || data[0] >= 0xfa {
    } else {
        lemma_text_len_bounds(data.skip(1));
        assert forall|i: int| 0 <= i < spec_text_len(data) implies data[i] < 0xfa by {
            if i > 0 {
                assert(data.skip(1)[i - 1] == data[i]);
            }
        }
        if spec_text_len(data) < data.len() {
            assert(data.skip(1)[spec_text_len(data) - 1] == data[spec_text_len(data)]);
        }
    }
}

proof fn lemma_text_len_step(data: Seq<u8>, i: int)
    requires
        0 <= i <= data.len(),
        forall|j: int| 0 <= j < i ==> data[j] < 0xfa,
    ensures
        i < data.len() && data[i] >= 0xfa ==> spec_text_len(data) == i,
        i == data.len() ==> spec_text_len(data) == i,
    decreases data.len(),
{
    if data.len() == 0 {
    } else if data[0] >= 0xfa {
    } else if i > 0 {
        lemma_text_len_step(data.skip(1), i - 1);
        if i < data.len() {
            assert(data.skip(1)[i - 1] == data[i]);
        }
    }
}

/// Decode in-game text: consume bytes until the first terminator, mapping the
/// letter ranges to ASCII and every other byte to `'*'`.
pub fn decode_text(text_data: &[u8]) -> (out: String)
    ensures
        out@ == spec_decode_text(text_data@),
{
    let ghost data = text_data@;
    proof {
        lemma_text_len_bounds(data);
    }
    let mut out_text = String::new();
    let mut idx: usize = 0;
    while idx < text_data.len()
        invariant
            0 <= idx <= data.len(),
            data == text_data@,
            0 <= spec_text_len(data) <= data.len(),
            idx <= spec_text_len(data) ==> out_text@ == spec_decode_text(data).take(idx as int),
            idx > spec_text_len(data) ==> idx == data.len() && out_text@ == spec_decode_text(
                data,
            ),
        decreases data.len() - idx,
    {
        proof {
            lemma_text_len_bounds(data);
        }
        let byte = text_data[idx];
        if byte >= 0xfa {
            proof {
                assert(idx <= spec_text_len(data));
                lemma_text_len_step(data, idx as int);
                assert(spec_text_len(data) == idx);
                assert(out_text@ =~= spec_decode_text(data));
            }
            idx = text_data.len();
        } else {
            let piece: &str = if 0xbb <= byte && byte <= 0xd4 {
                match byte {
                    0xbb => "A", 0xbc => "B", 0xbd => "C", 0xbe => "D", 0xbf => "E",
                    0xc0 => "F", 0xc1 => "G", 0xc2 => "H", 0xc3 => "I", 0xc4 => "J",
                    0xc5 => "K", 0xc6 => "L", 0xc7 => "M", 0xc8 => "N", 0xc9 => "O",
                    0xca => "P", 0xcb => "Q", 0xcc => "R", 0xcd => "S", 0xce => "T",
                    0xcf => "U", 0xd0 => "V", 0xd1 => "W", 0xd2 => "X", 0xd3 => "Y",
                    _ => "Z",
                }
            } else if 0xd5 <= byte && byte <= 0xee {
                match byte {
                    0xd5 => "a", 0xd6 => "b", 0xd7 => "c", 0xd8 => "d", 0xd9 => "e",
                    0xda => "f", 0xdb => "g", 0xdc => "h", 0xdd => "i", 0xde => "j",
                    0xdf => "k", 0xe0 => "l", 0xe1 => "m", 0xe2 => "n", 0xe3 => "o",
                    0xe4 => "p", 0xe5 => "q", 0xe6 => "r", 0xe7 => "s", 0xe8 => "t",
                    0xe9 => "u", 0xea => "v", 0xeb => "w", 0xec => "x", 0xed => "y",
                    _ => "z",
                }
            } else {
                "*"
            };
            proof {
                reveal_strlit("A"); reveal_strlit("B"); reveal_strlit("C");
                reveal_strlit("D"); reveal_strlit("E"); reveal_strlit("F");
                reveal_strlit("G"); reveal_strlit("H"); reveal_strlit("I");
                reveal_strlit("J"); reveal_strlit("K"); reveal_strlit("L");
                reveal_strlit("M"); reveal_strlit("N"); reveal_strlit("O");
                reveal_strlit("P"); reveal_strlit("Q"); reveal_strlit("R");
                reveal_strlit("S"); reveal_strlit("T"); reveal_strlit("U");
                reveal_strlit("V"); reveal_strlit("W"); reveal_strlit("X");
                reveal_strlit("Y"); reveal_strlit("Z");
                reveal_strlit("a"); reveal_strlit("b"); reveal_strlit("c");
                reveal_strlit("d"); reveal_strlit("e"); reveal_strlit("f");
                reveal_strlit("g"); reveal_strlit("h"); reveal_strlit("i");
                reveal_strlit("j"); reveal_strlit("k"); reveal_strlit("l");
                reveal_strlit("m"); reveal_strlit("n"); reveal_strlit("o");
                reveal_strlit("p"); reveal_strlit("q"); reveal_strlit("r");
                reveal_strlit("s"); reveal_strlit("t"); reveal_strlit("u");
                reveal_strlit("v"); reveal_strlit("w"); reveal_strlit("x");
                reveal_strlit("y"); reveal_strlit("z"); reveal_strlit("*");
                assert(piece@ =~= seq![spec_decode_char(byte)]);
                lemma_text_len_bounds(data);
                assert(idx < spec_text_len(data));
            }
            out_text.append(piece);
            proof {
                assert(out_text@ =~= spec_decode_text(data).take(idx + 1));
            }
            idx = idx + 1;
        }
    }
    proof {
        if idx <= spec_text_len(data) {
            lemma_text_len_step(data, idx as int);
            assert(out_text@ =~= spec_decode_text(data));
        }
    }
    out_text
}

} // verus!
