//! Per-block salt used to randomize the ordering of ready transactions.
//!
//! The salt is 32 bytes, kept as four 64-bit lanes; lane `j` holds bytes
//! `8 * j .. 8 * j + 8` of the salt in little-endian order.
use vstd::prelude::*;

verus! {

/// Byte `i` (0 = least significant) of `x`.
pub open spec fn le_byte(x: u64, i: int) -> u8 {
    ((x >> ((8 * i) as u64)) & 0xff) as u8
}

/// The 64-bit little-endian value of the eight bytes of `b` starting at `start`.
pub open spec fn pack_le(b: Seq<u8>, start: int) -> u64 {
    (b[start] as u64) | ((b[start + 1] as u64) << 8u64) | ((b[start + 2] as u64) << 16u64) | ((
    b[start + 3] as u64) << 24u64) | ((b[start + 4] as u64) << 32u64) | ((b[start + 5] as u64)
        << 40u64) | ((b[start + 6] as u64) << 48u64) | ((b[start + 7] as u64) << 56u64)
}

/// The four lanes that a 32-byte salt is stored as.
pub open spec fn salt_to_lanes(salt: Seq<u8>) -> Seq<u64> {
    Seq::new(4, |j: int| pack_le(salt, 8 * j))
}

/// The 32 bytes that four lanes stand for.
pub open spec fn lanes_to_salt(lanes: Seq<u64>) -> Seq<u8> {
    Seq::new(32, |k: int| le_byte(lanes[k / 8], k % 8))
}

/// Storage of the current transaction ordering salt.
pub struct TxOrderSalt {
    pub lanes: [u64; 4],
}

impl TxOrderSalt {
    /// A salt store that holds the all-zero salt.
    pub fn new() -> (s: TxOrderSalt)
        ensures
            s.lanes@ == seq![0u64, 0u64, 0u64, 0u64],
            lanes_to_salt(s.lanes@) == Seq::new(32, |k: int| 0u8),
    {
        let s = TxOrderSalt { lanes: [0u64, 0u64, 0u64, 0u64] };
        proof {
            assert forall|k: int| 0 <= k < 32 implies #[trigger] lanes_to_salt(s.lanes@)[k]
                == 0u8 by {
                let x: u64 = 0;
                let sh: u64 = (8 * (k % 8)) as u64;
                assert(((x >> sh) & 0xff) == 0) by (bit_vector)
                    requires
                        x == 0,
                ;
            }
            assert(lanes_to_salt(s.lanes@) =~= Seq::new(32, |k: int| 0u8));
        }
        s
    }
}

/// Eight bytes read as a little-endian 64-bit value.
fn lane_from_le_bytes(salt: &[u8; 32], start: usize) -> (r: u64)
    requires
        start + 8 <= 32,
    ensures
        r == pack_le(salt@, start as int),
{
    (salt[start] as u64) | ((salt[start + 1] as u64) << 8u64) | ((salt[start + 2] as u64) << 16u64)
        | ((salt[start + 3] as u64) << 24u64) | ((salt[start + 4] as u64) << 32u64) | ((salt[start
        + 5] as u64) << 40u64) | ((salt[start + 6] as u64) << 48u64) | ((salt[start + 7] as u64)
        << 56u64)
}

/// Set the per-block salt used to randomize the ordering of ready transactions.
///
/// `salt` is a 32-byte value (typically `blake2_256(seed || parent_hash)`).
pub fn set_tx_ordering_salt(store: &mut TxOrderSalt, salt: [u8; 32])
    ensures
        final(store).lanes@ == salt_to_lanes(salt@),
        lanes_to_salt(final(store).lanes@) == salt@,
{
    let mut j: usize = 0;
    while j < 4
        invariant
            j <= 4,
            forall|i: int| 0 <= i < j ==> store.lanes@[i] == #[trigger] pack_le(salt@, 8 * i),
        decreases 4 - j,
    {
        let lane = lane_from_le_bytes(&salt, 8 * j);
        store.lanes[j] = lane;
        j = j + 1;
    }
    proof {
        assert(store.lanes@ =~= salt_to_lanes(salt@));
        lemma_salt_lanes_round_trip(salt@);
    }
}

/// The current per-block transaction ordering salt.
pub fn current_tx_order_salt(store: &TxOrderSalt) -> (out: [u8; 32])
    ensures
        out@ == lanes_to_salt(store.lanes@),
{
    let mut out = [0u8; 32];
    let mut k: usize = 0;
    while k < 32
        invariant
            k <= 32,
            out@.len() == 32,
            forall|i: int| 0 <= i < k ==> out@[i] == #[trigger] lanes_to_salt(store.lanes@)[i],
        decreases 32 - k,
    {
        let lane = store.lanes[k / 8];
        let shift: u64 = (8 * (k % 8)) as u64;
        out[k] = ((lane >> shift) & 0xff) as u8;
        k = k + 1;
    }
    proof {
        assert(out@ =~= lanes_to_salt(store.lanes@));
    }
    out
}

/// The BLAKE2b-256 digest of `data`.
pub uninterp spec fn spec_blake2_256(data: Seq<u8>) -> Seq<u8>;

/// `sp_crypto_hashing::blake2_256`, the hash function that `sp_core` hashes with: the contract
/// names the 32-byte BLAKE2b digest of the input.
#[verifier::external_body]
fn blake2_256(data: &[u8]) -> (r: [u8; 32])
    ensures
        r@ == spec_blake2_256(data@),
{
    sp_crypto_hashing::blake2_256(data)
}

/// The key by which a ready transaction is ordered: the BLAKE2b-256 hash of the current salt
/// followed by the SCALE encoding of the transaction hash.
pub fn salted_key_from_tx_hash(store: &TxOrderSalt, encoded_tx_hash: &[u8]) -> (r: [u8; 32])
    ensures
        r@ == spec_blake2_256(lanes_to_salt(store.lanes@) + encoded_tx_hash@),
{
    let salt = current_tx_order_salt(store);
    let mut data: Vec<u8> = Vec::new();
    let mut i: usize = 0;
    while i < 32
        invariant
            i <= 32,
            salt@.len() == 32,
            data@ == salt@.take(i as int),
        decreases 32 - i,
    {
        data.push(salt[i]);
        i = i + 1;
        proof {
            assert(data@ =~= salt@.take(i as int));
        }
    }
    let mut j: usize = 0;
    while j < encoded_tx_hash.len()
        invariant
            j <= encoded_tx_hash@.len(),
            salt@.len() == 32,
            data@ == salt@ + encoded_tx_hash@.take(j as int),
        decreases encoded_tx_hash@.len() - j,
    {
        proof {
            assert(salt@.take(32) =~= salt@);
        }
        data.push(encoded_tx_hash[j]);
        j = j + 1;
        proof {
            assert(data@ =~= salt@ + encoded_tx_hash@.take(j as int));
        }
    }
    proof {
        assert(encoded_tx_hash@.take(j as int) =~= encoded_tx_hash@);
    }
    blake2_256(data.as_slice())
}

/// Each byte of a packed lane is the byte that was packed.
proof fn lemma_unpack_packed(b0: u8, b1: u8, b2: u8, b3: u8, b4: u8, b5: u8, b6: u8, b7: u8)
    ensures
        ({
            let x: u64 = (b0 as u64) | ((b1 as u64) << 8u64) | ((b2 as u64) << 16u64) | ((
            b3 as u64) << 24u64) | ((b4 as u64) << 32u64) | ((b5 as u64) << 40u64) | ((
            b6 as u64) << 48u64) | ((b7 as u64) << 56u64);
            &&& ((x >> 0u64) & 0xff) as u8 == b0
            &&& ((x >> 8u64) & 0xff) as u8 == b1
            &&& ((x >> 16u64) & 0xff) as u8 == b2
            &&& ((x >> 24u64) & 0xff) as u8 == b3
            &&& ((x >> 32u64) & 0xff) as u8 == b4
            &&& ((x >> 40u64) & 0xff) as u8 == b5
            &&& ((x >> 48u64) & 0xff) as u8 == b6
            &&& ((x >> 56u64) & 0xff) as u8 == b7
        }),
{
    assert({
        let x: u64 = (b0 as u64) | ((b1 as u64) << 8u64) | ((b2 as u64) << 16u64) | ((b3 as u64)
            << 24u64) | ((b4 as u64) << 32u64) | ((b5 as u64) << 40u64) | ((b6 as u64) << 48u64)
            | ((b7 as u64) << 56u64);
        &&& ((x >> 0u64) & 0xff) as u8 == b0
        &&& ((x >> 8u64) & 0xff) as u8 == b1
        &&& ((x >> 16u64) & 0xff) as u8 == b2
        &&& ((x >> 24u64) & 0xff) as u8 == b3
        &&& ((x >> 32u64) & 0xff) as u8 == b4
        &&& ((x >> 40u64) & 0xff) as u8 == b5
        &&& ((x >> 48u64) & 0xff) as u8 == b6
        &&& ((x >> 56u64) & 0xff) as u8 == b7
    }) by (bit_vector);
}

/// Packing the bytes of a lane gives the lane back.
proof fn lemma_pack_unpacked(x: u64)
    ensures
        (((x >> 0u64) & 0xff) as u8 as u64) | ((((x >> 8u64) & 0xff) as u8 as u64) << 8u64) | ((((x
            >> 16u64) & 0xff) as u8 as u64) << 16u64) | ((((x >> 24u64) & 0xff) as u8 as u64)
            << 24u64) | ((((x >> 32u64) & 0xff) as u8 as u64) << 32u64) | ((((x >> 40u64) & 0xff)
            as u8 as u64) << 40u64) | ((((x >> 48u64) & 0xff) as u8 as u64) << 48u64) | ((((x
            >> 56u64) & 0xff) as u8 as u64) << 56u64) == x,
{
    assert((((x >> 0u64) & 0xff) as u8 as u64) | ((((x >> 8u64) & 0xff) as u8 as u64) << 8u64) | ((
    ((x >> 16u64) & 0xff) as u8 as u64) << 16u64) | ((((x >> 24u64) & 0xff) as u8 as u64)
        << 24u64) | ((((x >> 32u64) & 0xff) as u8 as u64) << 32u64) | ((((x >> 40u64) & 0xff)
        as u8 as u64) << 40u64) | ((((x >> 48u64) & 0xff) as u8 as u64) << 48u64) | ((((x
        >> 56u64) & 0xff) as u8 as u64) << 56u64) == x) by (bit_vector);
}

/// Reading back a salt that was stored gives the same salt.
pub proof fn lemma_salt_lanes_round_trip(salt: Seq<u8>)
    requires
        salt.len() == 32,
    ensures
        lanes_to_salt(salt_to_lanes(salt)) == salt,
{
    let lanes = salt_to_lanes(salt);
    assert forall|k: int| 0 <= k < 32 implies #[trigger] lanes_to_salt(lanes)[k] == salt[k] by {
        let j = k / 8;
        let s = 8 * j;
        lemma_unpack_packed(
            salt[s],
            salt[s + 1],
            salt[s + 2],
            salt[s + 3],
            salt[s + 4],
            salt[s + 5],
            salt[s + 6],
            salt[s + 7],
        );
        assert(k == s + k % 8);
    }
    assert(lanes_to_salt(lanes) =~= salt);
}

/// Storing the salt that was read back leaves the lanes as they were.
pub proof fn lemma_lanes_salt_round_trip(lanes: Seq<u64>)
    requires
        lanes.len() == 4,
    ensures
        salt_to_lanes(lanes_to_salt(lanes)) == lanes,
{
    let salt = lanes_to_salt(lanes);
    assert forall|j: int| 0 <= j < 4 implies #[trigger] salt_to_lanes(salt)[j] == lanes[j] by {
        let x = lanes[j];
        lemma_pack_unpacked(x);
        assert(salt[8 * j] == le_byte(x, 0));
        assert(salt[8 * j + 1] == le_byte(x, 1));
        assert(salt[8 * j + 2] == le_byte(x, 2));
        assert(salt[8 * j + 3] == le_byte(x, 3));
        assert(salt[8 * j + 4] == le_byte(x, 4));
        assert(salt[8 * j + 5] == le_byte(x, 5));
        assert(salt[8 * j + 6] == le_byte(x, 6));
        assert(salt[8 * j + 7] == le_byte(x, 7));
    }
    assert(salt_to_lanes(salt) =~= lanes);
}

} // verus!
