//! The entry decoder: one string field arrives obfuscated with a
//! run-length plus XOR scheme. A control byte opens each run: its top
//! three bits (plus a floor of two) give the run's length, its low bits
//! (shifted by 33) give the XOR mask for the run's data bytes.

use vstd::prelude::*;
use crate::json::{Json, JsonValue, render};

verus! {

/// The number of data bytes that follow a control byte: at least two.
pub open spec fn ctrl_len(b: u8) -> nat {
    (b >> 5) as nat + 2
}

/// The XOR mask a control byte sets for its run.
pub open spec fn ctrl_mask(b: u8) -> u8 {
    (((b as u16 + 33) as u16) & 0x1f) as u8
}

/// Law: the run length derived from a control byte never falls under
/// two, whatever the byte's value.
pub proof fn lemma_control_run_floor(b: u8)
    ensures
        ctrl_len(b) >= 2,
{
}

/// Decodes the characters of `s`, each taken as a single byte, with
/// `rem` data bytes left in the current run under mask `mask`.
pub open spec fn xor_decode(s: Seq<char>, rem: nat, mask: u8) -> Seq<char>
    decreases s.len(),
{
    if s.len() == 0 {
        Seq::empty()
    } else {
        let b = s.first() as u8;
        if rem == 0 {
            xor_decode(s.drop_first(), ctrl_len(b), ctrl_mask(b))
        } else {
            seq![((b ^ mask) as char)] + xor_decode(s.drop_first(), (rem - 1) as nat, mask)
        }
    }
}

/// The decoded form of an encoded string: decoding starts outside any
/// run, so the first character is a control byte.
pub open spec fn decode_str(s: Seq<char>) -> Seq<char> {
    xor_decode(s, 0, 0)
}

/// Law: the decoder is a pure function of the character sequence alone;
/// equal inputs decode to equal outputs.
pub proof fn lemma_decode_deterministic(a: Seq<char>, b: Seq<char>)
    requires
        a == b,
    ensures
        decode_str(a) == decode_str(b),
{
}

/// What decoding one array element yields: strings run through the XOR
/// scheme; anything else passes through as its literal text.
pub open spec fn decode_entry(j: Json) -> Seq<char> {
    match j {
        Json::Str(s) => decode_str(s),
        _ => render(j),
    }
}

/// Decodes one element of the encoded-entries array.
pub fn decode_entries_encoded_in_e1(encoded: &JsonValue) -> (r: String)
    ensures
        r@ == decode_entry(encoded@),
{
    match encoded {
        JsonValue::Str(s) => {
            let cs = crate::chars::str_to_chars(s.as_str());
            let mut out: Vec<char> = Vec::new();
            let mut rem: u8 = 0;
            let mut mask: u8 = 0;
            let mut i: usize = 0;
            proof {
                assert(cs@.skip(0) =~= cs@);
                assert(Seq::<char>::empty() + xor_decode(cs@, 0, 0) =~= xor_decode(cs@, 0, 0));
            }
            #[verifier::loop_isolation(false)]
            while i < cs.len()
                invariant
                    i <= cs@.len(),
                    rem <= 9,
                    out@ + xor_decode(cs@.skip(i as int), rem as nat, mask) == decode_str(cs@),
                decreases cs@.len() - i,
            {
                let c = cs[i];
                let b: u8 = #[verifier::truncate] (c as u8);
                proof {
                    assert(cs@.skip(i as int).first() == cs@[i as int]);
                    assert(cs@.skip(i as int).drop_first() =~= cs@.skip(i + 1));
                    assert((b >> 5) <= 7) by (bit_vector);
                }
                if rem == 0 {
                    rem = (b >> 5) + 2;
                    mask = #[verifier::truncate] (((b as u16 + 33) & 0x1f) as u8);
                } else {
                    rem = rem - 1;
                    out.push((b ^ mask) as char);
                    proof {
                        assert(out@ + xor_decode(cs@.skip(i + 1), rem as nat, mask) =~= decode_str(
                            cs@,
                        ));
                    }
                }
                i = i + 1;
            }
            proof {
                assert(cs@.skip(cs@.len() as int) =~= Seq::<char>::empty());
                assert(out@ =~= decode_str(cs@));
            }
            crate::chars::chars_to_string(out.as_slice())
        },
        _ => crate::json::render_value(encoded),
    }
}

} // verus!
