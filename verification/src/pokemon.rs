//! The creature-record codec: the XOR stream cipher over the 48-byte data
//! region, the four 12-byte substructures whose order is chosen by the
//! personality value, and the record checksum.

use vstd::prelude::*;

use crate::bytes::{read_u16_le, read_u32_le, sub_bytes, u16_at, u32_at, write_u16_le};
use crate::{decode_text, spec_decode_text, SaveError, TrainerId};

verus! {

/// Length of a creature record in party form: the box form plus 20 bytes of
/// runtime stats.
pub const PK3_SIZE_PARTY: usize = 100;

/// Length of a creature record in box form.
pub const PK3_SIZE_BOX: usize = 80;

const SUBSTRUCTURE_OFFSET: usize = 32;

/// The language a creature originates from, as stored in its record.
#[derive(Clone, Copy, Debug, PartialEq, Eq, Structural)]
pub enum Language {
    Japanese,
    English,
    French,
    Italian,
    German,
    Spanish,
}

/// The language denoted by a record's language byte, or `None` for a byte
/// that denotes no language.
pub open spec fn spec_language(b: u8) -> Option<Language> {
    match b {
        1u8 => Some(Language::Japanese),
        2u8 => Some(Language::English),
        3u8 => Some(Language::French),
        4u8 => Some(Language::Italian),
        5u8 => Some(Language::German),
        7u8 => Some(Language::Spanish),
        _ => None,
    }
}

/// Decode a record's language byte.
pub fn language_from_byte(b: u8) -> (r: Option<Language>)
    ensures
        r == spec_language(b),
{
    match b {
        1u8 => Some(Language::Japanese),
        2u8 => Some(Language::English),
        3u8 => Some(Language::French),
        4u8 => Some(Language::Italian),
        5u8 => Some(Language::German),
        7u8 => Some(Language::Spanish),
        _ => None,
    }
}

/// The egg-data bitfield of a creature record.
#[derive(Clone, Copy, Debug, PartialEq, Eq, Structural)]
pub struct EggData {
    pub is_bad_egg: bool,
    pub has_species: bool,
    pub use_egg_name: bool,
}

impl EggData {
    /// Split the egg-data byte into its three flags.
    pub fn from_byte(value: u8) -> (r: EggData)
        ensures
            r.is_bad_egg == ((value & 1) != 0),
            r.has_species == ((value & 2) != 0),
            r.use_egg_name == ((value & 4) != 0),
    {
        EggData {
            is_bad_egg: (value & 0b1) != 0,
            has_species: (value & 0b10) != 0,
            use_egg_name: (value & 0b100) != 0,
        }
    }
}

/// One of the four 12-byte substructures of a record's data region.
#[derive(Clone, Copy, Debug, PartialEq, Eq, Structural)]
pub enum Component {
    Growth,
    Attacks,
    EvsConditions,
    Miscellaneous,
}

/// The offset, within the 48-byte data region, of the given substructure for
/// a record whose personality value is `pv`. The 24 rows of this table are
/// fixed by the game and are not derivable from `pv`.
pub open spec fn spec_substructure_offset(pv: u32, component: Component) -> int {
    let p = pv % 24;
    match component {
        Component::Growth => if p <= 5 {
            0
        } else if p == 6 || p == 7 || p == 12 || p == 13 || p == 18 || p == 19 {
            12
        } else if p == 8 || p == 10 || p == 14 || p == 16 || p == 20 || p == 22 {
            24
        } else {
            36
        },
        Component::Attacks => if 6 <= p <= 11 {
            0
        } else if p == 0 || p == 1 || p == 14 || p == 15 || p == 20 || p == 21 {
            12
        } else if p == 2 || p == 4 || p == 12 || p == 17 || p == 18 || p == 23 {
            24
        } else {
            36
        },
        Component::EvsConditions => if 12 <= p <= 17 {
            0
        } else if p == 2 || p == 3 || p == 8 || p == 9 || p == 22 || p == 23 {
            12
        } else if p == 0 || p == 5 || p == 6 || p == 11 || p == 19 || p == 21 {
            24
        } else {
            36
        },
        Component::Miscellaneous => if 18 <= p <= 23 {
            0
        } else if p == 4 || p == 5 || p == 10 || p == 11 || p == 16 || p == 17 {
            12
        } else if p == 1 || p == 3 || p == 7 || p == 9 || p == 13 || p == 15 {
            24
        } else {
            36
        },
    }
}

/// Look up the substructure offset for `personality_value` in the fixed
/// 24-row permutation table.
pub fn get_offset_for_substructure(personality_value: u32, component: Component) -> (r: usize)
    ensures
        r == spec_substructure_offset(personality_value, component),
        r == 0 || r == 12 || r == 24 || r == 36,
{
    let p = personality_value % 24;
    match component {
        Component::Growth => {
            if p <= 5 {
                0
            } else if p == 6 || p == 7 || p == 12 || p == 13 || p == 18 || p == 19 {
                12
            } else if p == 8 || p == 10 || p == 14 || p == 16 || p == 20 || p == 22 {
                24
            } else {
                36
            }
        },
        Component::Attacks => {
            if 6 <= p && p <= 11 {
                0
            } else if p == 0 || p == 1 || p == 14 || p == 15 || p == 20 || p == 21 {
                12
            } else if p == 2 || p == 4 || p == 12 || p == 17 || p == 18 || p == 23 {
                24
            } else {
                36
            }
        },
        Component::EvsConditions => {
            if 12 <= p && p <= 17 {
                0
            } else if p == 2 || p == 3 || p == 8 || p == 9 || p == 22 || p == 23 {
                12
            } else if p == 0 || p == 5 || p == 6 || p == 11 || p == 19 || p == 21 {
                24
            } else {
                36
            }
        },
        Component::Miscellaneous => {
            if 18 <= p && p <= 23 {
                0
            } else if p == 4 || p == 5 || p == 10 || p == 11 || p == 16 || p == 17 {
                12
            } else if p == 1 || p == 3 || p == 7 || p == 9 || p == 13 || p == 15 {
                24
            } else {
                36
            }
        },
    }
}

/// For every personality value, the four substructure offsets are pairwise
/// distinct and each is one of 0, 12, 24 and 36: the table row is a
/// permutation of the four slots.
pub proof fn lemma_permutation_totality(pv: u32)
    ensures
        forall|c: Component| #[trigger] spec_substructure_offset(pv, c) == 0
            || spec_substructure_offset(pv, c) == 12 || spec_substructure_offset(pv, c) == 24
            || spec_substructure_offset(pv, c) == 36,
        forall|c1: Component, c2: Component|
            c1 != c2 ==> #[trigger] spec_substructure_offset(pv, c1)
                != #[trigger] spec_substructure_offset(pv, c2),
{
    assert(0 <= pv % 24 < 24);
    assert forall|c1: Component, c2: Component| c1 != c2 implies #[trigger] spec_substructure_offset(
        pv,
        c1,
    ) != #[trigger] spec_substructure_offset(pv, c2) by {
        assert(spec_substructure_offset(pv, Component::Growth) != spec_substructure_offset(
            pv,
            Component::Attacks,
        ));
        assert(spec_substructure_offset(pv, Component::Growth) != spec_substructure_offset(
            pv,
            Component::EvsConditions,
        ));
        assert(spec_substructure_offset(pv, Component::Growth) != spec_substructure_offset(
            pv,
            Component::Miscellaneous,
        ));
        assert(spec_substructure_offset(pv, Component::Attacks) != spec_substructure_offset(
            pv,
            Component::EvsConditions,
        ));
        assert(spec_substructure_offset(pv, Component::Attacks) != spec_substructure_offset(
            pv,
            Component::Miscellaneous,
        ));
        assert(spec_substructure_offset(pv, Component::EvsConditions) != spec_substructure_offset(
            pv,
            Component::Miscellaneous,
        ));
    }
}

/// The record with its 48-byte data region XOR-masked by the stream key: byte
/// `i` of the key stream is byte `i mod 4` of `P ^ OT`, which is the XOR of
/// bytes `i mod 4` and `4 + i mod 4` of the record itself. The transform is
/// its own inverse.
pub open spec fn spec_crypt(s: Seq<u8>) -> Seq<u8> {
    Seq::new(
        s.len(),
        |i: int|
            if 32 <= i < 80 {
                s[i] ^ s[i % 4] ^ s[4 + i % 4]
            } else {
                s[i]
            },
    )
}

/// Masking a record twice restores it: the key bytes live in the header,
/// which the mask leaves unchanged, so the same stream is applied both times
/// and the XOR cancels. Together with the contracts of `Pokemon::from_pk3`
/// and `Pokemon::to_pk3` this is the creature round trip: decoding any blob
/// and encoding the result yields the blob unchanged.
pub proof fn lemma_crypt_involutive(s: Seq<u8>)
    requires
        s.len() >= 80,
    ensures
        spec_crypt(spec_crypt(s)) =~= s,
{
    let c = spec_crypt(s);
    assert forall|i: int| 0 <= i < s.len() implies spec_crypt(c)[i] == s[i] by {
        if 32 <= i < 80 {
            assert(c[i % 4] == s[i % 4]);
            assert(c[4 + i % 4] == s[4 + i % 4]);
            let x = s[i];
            let a = s[i % 4];
            let b = s[4 + i % 4];
            assert((x ^ a ^ b) ^ a ^ b == x) by (bit_vector);
        }
    }
}

/// The creature round trip: a record decoded from any blob re-encodes to
/// that blob, bit for bit. `from_pk3` leaves the unmasked bytes in
/// `source_data` and `to_pk3` returns `spec_crypt(source_data)`, which by
/// the involution is the original blob.
pub proof fn lemma_creature_round_trip(p: Pokemon, b: Seq<u8>)
    requires
        b.len() == 80 || b.len() == 100,
        p.decodes_from(spec_crypt(b)),
    ensures
        spec_crypt(p.source_data@) == b,
{
    reveal(Pokemon::decodes_from);
    lemma_crypt_involutive(b);
}

/// Apply the XOR stream mask to the 48-byte data region in place. The same
/// call both encrypts and decrypts.
pub fn encrypt_decrypt_pk3(pk3_data: &mut Vec<u8>)
    requires
        old(pk3_data).len() >= 80,
    ensures
        final(pk3_data)@ == spec_crypt(old(pk3_data)@),
{
    let k0 = pk3_data[0] ^ pk3_data[4];
    let k1 = pk3_data[1] ^ pk3_data[5];
    let k2 = pk3_data[2] ^ pk3_data[6];
    let k3 = pk3_data[3] ^ pk3_data[7];
    let mut idx: usize = 32;
    while idx < 80
        invariant
            32 <= idx <= 80,
            pk3_data.len() == old(pk3_data).len() >= 80,
            k0 == old(pk3_data)@[0] ^ old(pk3_data)@[4],
            k1 == old(pk3_data)@[1] ^ old(pk3_data)@[5],
            k2 == old(pk3_data)@[2] ^ old(pk3_data)@[6],
            k3 == old(pk3_data)@[3] ^ old(pk3_data)@[7],
            forall|i: int| 0 <= i < pk3_data.len() && !(32 <= i < idx) ==> pk3_data@[i] == old(
                pk3_data,
            )@[i],
            forall|i: int| 32 <= i < idx ==> pk3_data@[i] == spec_crypt(old(pk3_data)@)[i],
        decreases 80 - idx,
    {
        let key = if idx % 4 == 0 {
            k0
        } else if idx % 4 == 1 {
            k1
        } else if idx % 4 == 2 {
            k2
        } else {
            k3
        };
        let b = pk3_data[idx] ^ key;
        proof {
            let x = old(pk3_data)@[idx as int];
            let a = old(pk3_data)@[(idx as int) % 4];
            let c = old(pk3_data)@[4 + (idx as int) % 4];
            assert(x ^ (a ^ c) == (x ^ a) ^ c) by (bit_vector);
        }
        pk3_data[idx] = b;
        idx = idx + 1;
    }
    proof {
        assert(pk3_data@ =~= spec_crypt(old(pk3_data)@));
    }
}

/// The checksum of the first `n` 16-bit words of a 48-byte data region:
/// a 16-bit sum that wraps after each addition.
pub open spec fn spec_checksum_words(region: Seq<u8>, n: int) -> int
    decreases n,
{
    if n <= 0 {
        0
    } else {
        (spec_checksum_words(region, n - 1) + u16_at(region, 2 * (n - 1))) % 0x10000
    }
}

/// The checksum stored in a record's header: the wrapping 16-bit sum of the
/// 24 words of its decrypted data region.
pub open spec fn spec_creature_checksum(d: Seq<u8>) -> int {
    spec_checksum_words(d.subrange(32, 80), 24)
}

/// Sum the 24 little-endian words of a decrypted 48-byte data region, with
/// 16-bit wrap-around.
pub fn compute_checksum(pk3_unencrypted_data_region: &[u8]) -> (r: u16)
    requires
        pk3_unencrypted_data_region.len() == 48,
    ensures
        r == spec_checksum_words(pk3_unencrypted_data_region@, 24),
{
    let mut checksum: u16 = 0;
    let mut k: usize = 0;
    while k < 24
        invariant
            0 <= k <= 24,
            pk3_unencrypted_data_region.len() == 48,
            checksum == spec_checksum_words(pk3_unencrypted_data_region@, k as int),
        decreases 24 - k,
    {
        let word = read_u16_le(pk3_unencrypted_data_region, 2 * k);
        checksum = checksum.wrapping_add(word);
        k = k + 1;
    }
    checksum
}

/// The species word a blob decodes to: the first word of the Growth
/// substructure of the unmasked data region.
pub open spec fn spec_blob_species(pk3: Seq<u8>) -> int {
    let d = spec_crypt(pk3);
    u16_at(d, 32 + spec_substructure_offset(u32_at(d, 0) as u32, Component::Growth))
}

/// A decoded creature record. `source_data` holds the decrypted bytes of the
/// record; the remaining fields are parsed out of it.
#[derive(Clone, Debug)]
pub struct Pokemon {
    pub source_data: Vec<u8>,
    pub personality_value: u32,
    pub original_trainer_id: TrainerId,
    pub nickname: String,
    pub origin_language: Language,
    pub original_trainer_name: String,
    pub species: u16,
    pub experience: u32,
    pub moves: [u16; 4],
    pub evs: [u8; 6],
    pub ivs: [u8; 6],
    pub is_egg: bool,
    pub ability: u8,
    pub checksum_ok: bool,
}

impl Pokemon {
    /// A well-formed record holds a decrypted blob of box or party size.
    pub open spec fn wf(self) -> bool {
        self.source_data@.len() == 80 || self.source_data@.len() == 100
    }

    /// The fields of `p` are exactly those parsed from the decrypted record
    /// bytes `d`.
    #[verifier::opaque]
    pub open spec fn decodes_from(self, d: Seq<u8>) -> bool {
        let pv = u32_at(d, 0) as u32;
        let growth = 32 + spec_substructure_offset(pv, Component::Growth);
        let attacks = 32 + spec_substructure_offset(pv, Component::Attacks);
        let evs = 32 + spec_substructure_offset(pv, Component::EvsConditions);
        let misc = 32 + spec_substructure_offset(pv, Component::Miscellaneous);
        let iv_blob = u32_at(d, misc + 4) as u32;
        &&& self.source_data@ == d
        &&& self.personality_value == pv
        &&& self.original_trainer_id.public_id == u16_at(d, 4)
        &&& self.original_trainer_id.secret_id == u16_at(d, 6)
        &&& self.nickname@ == spec_decode_text(d.subrange(8, 18))
        &&& Some(self.origin_language) == spec_language(d[0x12])
        &&& self.original_trainer_name@ == spec_decode_text(d.subrange(0x14, 0x1b))
        &&& self.species == u16_at(d, growth)
        &&& self.experience == u32_at(d, growth + 4)
        &&& forall|j: int| 0 <= j < 4 ==> self.moves@[j] == u16_at(d, attacks + 2 * j)
        &&& forall|j: int| 0 <= j < 6 ==> self.evs@[j] == d[evs + j]
        &&& self.ivs@[0] == (iv_blob & 0x1f) as u8
        &&& self.ivs@[1] == ((iv_blob >> 5) & 0x1f) as u8
        &&& self.ivs@[2] == ((iv_blob >> 10) & 0x1f) as u8
        &&& self.ivs@[3] == ((iv_blob >> 15) & 0x1f) as u8
        &&& self.ivs@[4] == ((iv_blob >> 20) & 0x1f) as u8
        &&& self.ivs@[5] == ((iv_blob >> 25) & 0x1f) as u8
        &&& self.is_egg == (((iv_blob >> 30) & 1) != 0)
        &&& self.ability == ((iv_blob >> 31) & 1) as u8
        &&& self.checksum_ok == (u16_at(d, 0x1c) == spec_creature_checksum(d))
    }

    /// Whether a blob decodes at all: it must be of box or party size and
    /// carry a valid language byte. The language byte sits in the clear
    /// header, so it reads the same before and after the mask.
    pub open spec fn spec_decodable(pk3: Seq<u8>) -> bool {
        &&& pk3.len() == 80 || pk3.len() == 100
        &&& spec_language(pk3[0x12]) is Some
    }

    /// Decode a creature record: unmask the data region, locate the four
    /// substructures from the personality value, parse the fields, and check
    /// the stored checksum. A checksum mismatch is recorded in `checksum_ok`
    /// but does not fail the decode; a blob of the wrong size or with an
    /// invalid language byte fails with `MalformedCreature`.
    pub fn from_pk3(pk3: &[u8]) -> (r: Result<Pokemon, SaveError>)
        ensures
            r is Ok <==> Self::spec_decodable(pk3@),
            r is Err ==> r == Result::<Pokemon, SaveError>::Err(SaveError::MalformedCreature),
            r matches Ok(p) ==> p.wf() && p.decodes_from(spec_crypt(pk3@)),
    {
        if pk3.len() != PK3_SIZE_BOX && pk3.len() != PK3_SIZE_PARTY {
            return Err(SaveError::MalformedCreature);
        }
        let mut source_data = sub_bytes(pk3, 0, pk3.len());
        encrypt_decrypt_pk3(&mut source_data);
        let ghost d = source_data@;
        proof {
            assert(d =~= spec_crypt(pk3@));
        }

        let sd = source_data.as_slice();
        let personality_value = read_u32_le(sd, 0);
        let public_id = read_u16_le(sd, 4);
        let secret_id = read_u16_le(sd, 6);
        let nickname_bytes = sub_bytes(sd, 8, 10);
        let nickname = decode_text(nickname_bytes.as_slice());
        let language = match language_from_byte(sd[0x12]) {
            Some(language) => language,
            None => {
                return Err(SaveError::MalformedCreature);
            },
        };
        let trainer_name_bytes = sub_bytes(sd, 0x14, 7);
        let original_trainer_name = decode_text(trainer_name_bytes.as_slice());
        let stored_checksum = read_u16_le(sd, 0x1c);

        let growth = SUBSTRUCTURE_OFFSET + get_offset_for_substructure(
            personality_value,
            Component::Growth,
        );
        let species = read_u16_le(sd, growth);
        let experience = read_u32_le(sd, growth + 4);

        let attacks = SUBSTRUCTURE_OFFSET + get_offset_for_substructure(
            personality_value,
            Component::Attacks,
        );
        let moves: [u16; 4] = [
            read_u16_le(sd, attacks),
            read_u16_le(sd, attacks + 2),
            read_u16_le(sd, attacks + 4),
            read_u16_le(sd, attacks + 6),
        ];

        let evs_off = SUBSTRUCTURE_OFFSET + get_offset_for_substructure(
            personality_value,
            Component::EvsConditions,
        );
        let evs: [u8; 6] = [
            sd[evs_off],
            sd[evs_off + 1],
            sd[evs_off + 2],
            sd[evs_off + 3],
            sd[evs_off + 4],
            sd[evs_off + 5],
        ];

        let misc = SUBSTRUCTURE_OFFSET + get_offset_for_substructure(
            personality_value,
            Component::Miscellaneous,
        );
        let iv_blob = read_u32_le(sd, misc + 4);
        let ivs: [u8; 6] = [
            (iv_blob & 0x1f) as u8,
            ((iv_blob >> 5) & 0x1f) as u8,
            ((iv_blob >> 10) & 0x1f) as u8,
            ((iv_blob >> 15) & 0x1f) as u8,
            ((iv_blob >> 20) & 0x1f) as u8,
            ((iv_blob >> 25) & 0x1f) as u8,
        ];
        let is_egg = ((iv_blob >> 30) & 1) != 0;
        let ability = ((iv_blob >> 31) & 1) as u8;

        let data_region = sub_bytes(sd, 32, 48);
        let computed_checksum = compute_checksum(data_region.as_slice());
        let checksum_ok = computed_checksum == stored_checksum;
        proof {
            reveal(Pokemon::decodes_from);
            assert(d.subrange(32, 80) =~= data_region@);
        }

        Ok(
            Pokemon {
                source_data,
                personality_value,
                original_trainer_id: TrainerId { public_id, secret_id },
                nickname,
                origin_language: language,
                original_trainer_name,
                species,
                experience,
                moves,
                evs,
                ivs,
                is_egg,
                ability,
                checksum_ok,
            },
        )
    }

    /// Re-encode the record: apply the XOR stream mask to the decrypted bytes
    /// and hand them back.
    pub fn to_pk3(self) -> (r: Vec<u8>)
        requires
            self.wf(),
        ensures
            r@ == spec_crypt(self.source_data@),
    {
        let mut data = self.source_data;
        encrypt_decrypt_pk3(&mut data);
        data
    }

    /// Zero the six effort values both in the parsed field and in the raw
    /// bytes — at the offset the personality value's permutation gives the
    /// EVs substructure — and write a freshly computed checksum into the
    /// header.
    pub fn clear_evs(&mut self)
        requires
            old(self).wf(),
        ensures
            final(self).wf(),
            final(self).source_data@.len() == old(self).source_data@.len(),
            forall|j: int| 0 <= j < 6 ==> final(self).evs@[j] == 0,
            ({
                let evs_off = 32 + spec_substructure_offset(
                    old(self).personality_value,
                    Component::EvsConditions,
                );
                &&& (forall|i: int|
                    evs_off <= i < evs_off + 6 ==> final(self).source_data@[i] == 0)
                &&& (forall|i: int|
                    0 <= i < old(self).source_data@.len() && !(evs_off <= i < evs_off + 6) && i
                        != 28 && i != 29 ==> final(self).source_data@[i] == old(
                        self,
                    ).source_data@[i])
            }),
            u16_at(final(self).source_data@, 28) == spec_creature_checksum(
                final(self).source_data@,
            ),
            final(self).personality_value == old(self).personality_value,
            final(self).original_trainer_id == old(self).original_trainer_id,
            final(self).species == old(self).species,
    {
        self.evs = [0, 0, 0, 0, 0, 0];
        let zero_evs: Vec<u8> = vec![0, 0, 0, 0, 0, 0];
        let evs_off = SUBSTRUCTURE_OFFSET + get_offset_for_substructure(
            self.personality_value,
            Component::EvsConditions,
        );
        crate::bytes::copy_bytes(&mut self.source_data, evs_off, zero_evs.as_slice(), 0, 6);
        let data_region = sub_bytes(self.source_data.as_slice(), 32, 48);
        let new_checksum = compute_checksum(data_region.as_slice());
        write_u16_le(&mut self.source_data, 28, new_checksum);
        proof {
            assert(self.source_data@.subrange(32, 80) =~= data_region@);
            assert(spec_creature_checksum(self.source_data@) == spec_checksum_words(
                data_region@,
                24,
            ));
        }
    }
}

} // verus!
