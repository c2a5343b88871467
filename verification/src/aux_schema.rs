//! The schema of what GRANDPA keeps in the auxiliary database: its keys, the version record,
//! which migration a stored version calls for, and the voter set state that the migrations
//! write.
use vstd::prelude::*;
use parity_scale_codec::{Decode, Encode};
use crate::decimal::{append_decimal, decimal_text};
use crate::warp_sync::BlockRef;

verus! {

/// The schema version that this code writes.
pub const CURRENT_VERSION: u32 = 3;

/// The bytes of an ASCII text, one per character.
pub open spec fn ascii_bytes(s: Seq<char>) -> Seq<u8> {
    Seq::new(s.len(), |i: int| s[i] as u8)
}

/// The `n` little-endian bytes of `v`.
pub open spec fn le_bytes(v: nat, n: nat) -> Seq<u8>
    decreases n,
{
    if n == 0 {
        Seq::empty()
    } else {
        seq![(v % 256) as u8] + le_bytes(v / 256, (n - 1) as nat)
    }
}

/// The number whose little-endian bytes are `b`.
pub open spec fn le_value(b: Seq<u8>) -> nat
    decreases b.len(),
{
    if b.len() == 0 {
        0
    } else {
        b[0] as nat + 256 * le_value(b.drop_first())
    }
}

/// The message of the codec error for input that ends too early.
pub open spec fn short_input_message() -> Seq<char> {
    "Not enough data to fill buffer"@
}

/// `Encode::encode` of parity-scale-codec on a `u32`: its four bytes, least significant first.
#[verifier::external_body]
fn encode_u32(v: u32) -> (r: Vec<u8>)
    ensures
        r@ == le_bytes(v as nat, 4),
{
    v.encode()
}

/// `Encode::encode` of parity-scale-codec on a `u64`: its eight bytes, least significant first.
#[verifier::external_body]
fn encode_u64(v: u64) -> (r: Vec<u8>)
    ensures
        r@ == le_bytes(v as nat, 8),
{
    v.encode()
}

/// `Decode::decode` of parity-scale-codec for a `u32` read from the start of `bytes`: the first
/// four bytes, least significant first, with the rest left unread; where fewer than four bytes
/// are given, the codec's error, shown as text.
#[verifier::external_body]
fn decode_u32(bytes: &[u8]) -> (r: Result<u32, String>)
    ensures
        r is Ok <==> bytes@.len() >= 4,
        r is Ok ==> r->Ok_0 == le_value(bytes@.take(4)),
        r is Err ==> r->Err_0@ == short_input_message(),
{
    match u32::decode(&mut &bytes[..]) {
        Ok(v) => Ok(v),
        Err(e) => Err(e.to_string()),
    }
}

/// The bytes of an ASCII text.
fn ascii_key(s: &str) -> (k: Vec<u8>)
    requires
        vstd::string::is_ascii(s),
    ensures
        k@ == ascii_bytes(s@),
{
    proof {
        vstd::string::is_ascii_spec_bytes(s);
    }
    let k = vstd::slice::slice_to_vec(s.as_bytes());
    proof {
        assert(k@ =~= ascii_bytes(s@));
    }
    k
}

/// The key of the schema version record.
pub fn version_key() -> (k: Vec<u8>)
    ensures
        k@ == ascii_bytes("grandpa_schema_version"@),
{
    proof {
        reveal_strlit("grandpa_schema_version");
    }
    ascii_key("grandpa_schema_version")
}

/// The key of the voter set state.
pub fn set_state_key() -> (k: Vec<u8>)
    ensures
        k@ == ascii_bytes("grandpa_completed_round"@),
{
    proof {
        reveal_strlit("grandpa_completed_round");
    }
    ascii_key("grandpa_completed_round")
}

/// The prefix of the keys of concluded rounds.
pub fn concluded_rounds_key() -> (k: Vec<u8>)
    ensures
        k@ == ascii_bytes("grandpa_concluded_rounds"@),
{
    proof {
        reveal_strlit("grandpa_concluded_rounds");
    }
    ascii_key("grandpa_concluded_rounds")
}

/// The key of the authority set.
pub fn authority_set_key() -> (k: Vec<u8>)
    ensures
        k@ == ascii_bytes("grandpa_voters"@),
{
    proof {
        reveal_strlit("grandpa_voters");
    }
    ascii_key("grandpa_voters")
}

/// The key of the justification of the best finalized block.
pub fn best_justification_key() -> (k: Vec<u8>)
    ensures
        k@ == ascii_bytes("grandpa_best_justification"@),
{
    proof {
        reveal_strlit("grandpa_best_justification");
    }
    ascii_key("grandpa_best_justification")
}

/// The prefix of the message for stored data that does not decode.
pub open spec fn corrupted_prefix() -> Seq<char> {
    "GRANDPA DB is corrupted: "@
}

/// Reads the schema version record, as stored: none where nothing is stored; its value where
/// it decodes; else an error that the database is corrupted.
pub fn load_version(stored: Option<Vec<u8>>) -> (r: Result<Option<u32>, String>)
    ensures
        match stored {
            None => r == Ok::<Option<u32>, String>(None),
            Some(b) => if b@.len() >= 4 {
                r == Ok::<Option<u32>, String>(Some(le_value(b@.take(4)) as u32))
            } else {
                r matches Err(m) && m@ == corrupted_prefix() + short_input_message()
            },
        },
{
    match stored {
        None => Ok(None),
        Some(b) => match decode_u32(b.as_slice()) {
            Ok(v) => Ok(Some(v)),
            Err(e) => Err(String::from_str("GRANDPA DB is corrupted: ").concat(e.as_str())),
        },
    }
}

/// How stored data is loaded, by the schema version found.
#[derive(PartialEq, Eq, Structural, Clone, Copy, Debug)]
pub enum LoadRoute {
    /// No version record: migrate from the first schema.
    FromVersion0,
    /// Migrate from version 1.
    FromVersion1,
    /// Migrate from version 2.
    FromVersion2,
    /// The current version: load as stored.
    Current,
}

/// The message for a schema version that this code does not know.
pub open spec fn unsupported_message(version: u32) -> Seq<char> {
    "Unsupported GRANDPA DB version: "@ + decimal_text(version as nat)
}

/// The route that loading takes for a stored schema version; a version above the current one is
/// refused.
pub fn load_route(version: Option<u32>) -> (r: Result<LoadRoute, String>)
    ensures
        match version {
            None => r == Ok::<LoadRoute, String>(LoadRoute::FromVersion0),
            Some(1) => r == Ok::<LoadRoute, String>(LoadRoute::FromVersion1),
            Some(2) => r == Ok::<LoadRoute, String>(LoadRoute::FromVersion2),
            Some(3) => r == Ok::<LoadRoute, String>(LoadRoute::Current),
            Some(other) => r matches Err(m) && m@ == unsupported_message(other),
        },
{
    match version {
        None => Ok(LoadRoute::FromVersion0),
        Some(1) => Ok(LoadRoute::FromVersion1),
        Some(2) => Ok(LoadRoute::FromVersion2),
        Some(3) => Ok(LoadRoute::Current),
        Some(other) => {
            let mut m = String::from_str("Unsupported GRANDPA DB version: ");
            append_decimal(&mut m, other as u64);
            Err(m)
        },
    }
}

/// The version record that every migration writes first: the current version under the version
/// key.
pub fn version_record() -> (r: (Vec<u8>, Vec<u8>))
    ensures
        r.0@ == ascii_bytes("grandpa_schema_version"@),
        r.1@ == le_bytes(CURRENT_VERSION as nat, 4),
{
    (version_key(), encode_u32(CURRENT_VERSION))
}

/// The key under which a concluded round is kept: the prefix of concluded rounds, then the
/// round's number in eight little-endian bytes.
pub fn concluded_round_key(number: u64) -> (k: Vec<u8>)
    ensures
        k@ == ascii_bytes("grandpa_concluded_rounds"@) + le_bytes(number as nat, 8),
{
    let mut k = concluded_rounds_key();
    let mut n = encode_u64(number);
    k.append(&mut n);
    k
}

/// The bound below which a number fits in `n` bytes.
pub open spec fn byte_bound(n: nat) -> nat
    decreases n,
{
    if n == 0 {
        1
    } else {
        256 * byte_bound((n - 1) as nat)
    }
}

/// Reading back little-endian bytes gives the number written, where it fits.
pub proof fn lemma_le_bytes_read_back(v: nat, n: nat)
    requires
        v < byte_bound(n),
    ensures
        le_bytes(v, n).len() == n,
        le_value(le_bytes(v, n)) == v,
    decreases n,
{
    if n > 0 {
        lemma_le_bytes_read_back(v / 256, (n - 1) as nat);
        let b = le_bytes(v, n);
        assert(b.drop_first() =~= le_bytes(v / 256, (n - 1) as nat));
    }
}

/// A version record, as encoded, reads back as the version written: `load_version` of the
/// encoding of `v` gives `v`.
pub proof fn lemma_version_record_reads_back(v: u32, record: Seq<u8>)
    requires
        record == le_bytes(v as nat, 4),
    ensures
        record.len() == 4,
        le_value(record.take(4)) == v,
{
    reveal_with_fuel(byte_bound, 5);
    lemma_le_bytes_read_back(v as nat, 4);
    assert(record.take(4) =~= record);
}

/// The state of a GRANDPA voting round: its prevote-GHOST, finalized block and estimate, and
/// whether it is completable.
#[derive(PartialEq, Eq, Structural, Clone, Copy, Debug)]
pub struct RoundState {
    pub prevote_ghost: Option<BlockRef>,
    pub finalized: Option<BlockRef>,
    pub estimate: Option<BlockRef>,
    pub completable: bool,
}

impl RoundState {
    /// The state of the genesis round: everything at the genesis block, completable.
    pub fn genesis(genesis: BlockRef) -> (r: RoundState)
        ensures
            r == (RoundState {
                prevote_ghost: Some(genesis),
                finalized: Some(genesis),
                estimate: Some(genesis),
                completable: true,
            }),
    {
        RoundState {
            prevote_ghost: Some(genesis),
            finalized: Some(genesis),
            estimate: Some(genesis),
            completable: true,
        }
    }
}

/// The voter set state as schema version 1 stored it.
#[derive(PartialEq, Eq, Structural, Clone, Copy, Debug)]
pub enum V1VoterSetState {
    /// The voter set state, currently paused.
    Paused(u64, RoundState),
    /// The voter set state, currently live.
    Live(u64, RoundState),
}

/// A completed round as the voter set state records it: its number, its state, and the block
/// it was based on.
#[derive(PartialEq, Eq, Structural, Clone, Copy, Debug)]
pub struct CompletedRoundRecord {
    pub number: u64,
    pub state: RoundState,
    pub base: BlockRef,
}

/// The voter set state that a migration writes, for the authority set with id `set_id`.
#[derive(PartialEq, Eq, Structural, Clone, Copy, Debug)]
pub enum MigratedSetState {
    /// Paused after the completed round.
    Paused { set_id: u64, completed: CompletedRoundRecord },
    /// Live after the completed round, with the next round current and not yet voted in.
    Live { set_id: u64, completed: CompletedRoundRecord, current_round: u64 },
    /// A fresh live state of the set, based on the given block.
    Fresh { set_id: u64, base: BlockRef },
}

/// A stored round can be migrated: it has a prevote-GHOST (a completed round always has one),
/// and, where the voter is live, a next round number.
pub open spec fn round_migratable(number: u64, state: RoundState, live: bool) -> bool {
    &&& state.prevote_ghost is Some
    &&& live ==> number < u64::MAX
}

/// The completed round that a stored round becomes.
pub open spec fn completed_record(number: u64, state: RoundState) -> CompletedRoundRecord {
    CompletedRoundRecord { number, state, base: state.prevote_ghost->0 }
}

/// The voter set state that migrating from version 0 writes: live after the stored round, or,
/// where none is stored, after the genesis round 0.
pub open spec fn v0_migrated(stored: Option<(u64, RoundState)>, set_id: u64, genesis: BlockRef) -> MigratedSetState {
    let (number, state) = match stored {
        Some(last) => last,
        None => (0u64, RoundState { prevote_ghost: Some(genesis), finalized: Some(genesis), estimate: Some(genesis), completable: true }),
    };
    MigratedSetState::Live { set_id, completed: completed_record(number, state), current_round: (number + 1) as u64 }
}

/// The voter set state that migrating from version 1 writes: paused or live as stored, or,
/// where none is stored, a fresh live state based on the genesis block.
pub open spec fn v1_migrated(stored: Option<V1VoterSetState>, set_id: u64, genesis: BlockRef) -> MigratedSetState {
    match stored {
        Some(V1VoterSetState::Paused(number, state)) => MigratedSetState::Paused { set_id, completed: completed_record(number, state) },
        Some(V1VoterSetState::Live(number, state)) => MigratedSetState::Live {
            set_id,
            completed: completed_record(number, state),
            current_round: (number + 1) as u64,
        },
        None => MigratedSetState::Fresh { set_id, base: genesis },
    }
}

/// The completed round that a stored round becomes.
fn completed_round(number: u64, state: RoundState) -> (r: CompletedRoundRecord)
    requires
        state.prevote_ghost is Some,
    ensures
        r == completed_record(number, state),
{
    CompletedRoundRecord { number, state, base: state.prevote_ghost.unwrap() }
}

/// Migrates the voter set state stored by version 0 (see `v0_migrated`).
pub fn migrate_v0_set_state(stored: Option<(u64, RoundState)>, set_id: u64, genesis: BlockRef) -> (r: MigratedSetState)
    requires
        stored matches Some((number, state)) ==> round_migratable(number, state, true),
    ensures
        r == v0_migrated(stored, set_id, genesis),
{
    let (number, state) = match stored {
        Some(last) => last,
        None => (0u64, RoundState::genesis(genesis)),
    };
    MigratedSetState::Live { set_id, completed: completed_round(number, state), current_round: number + 1 }
}

/// Migrates the voter set state stored by version 1 (see `v1_migrated`).
pub fn migrate_v1_set_state(stored: Option<V1VoterSetState>, set_id: u64, genesis: BlockRef) -> (r: MigratedSetState)
    requires
        stored matches Some(V1VoterSetState::Paused(number, state)) ==> round_migratable(number, state, false),
        stored matches Some(V1VoterSetState::Live(number, state)) ==> round_migratable(number, state, true),
    ensures
        r == v1_migrated(stored, set_id, genesis),
{
    match stored {
        Some(V1VoterSetState::Paused(number, state)) => MigratedSetState::Paused { set_id, completed: completed_round(number, state) },
        Some(V1VoterSetState::Live(number, state)) => MigratedSetState::Live {
            set_id,
            completed: completed_round(number, state),
            current_round: number + 1,
        },
        None => MigratedSetState::Fresh { set_id, base: genesis },
    }
}

/// Database entries, each a key and a value, as byte sequences.
pub open spec fn entries_view(e: Seq<(Vec<u8>, Vec<u8>)>) -> Seq<(Seq<u8>, Seq<u8>)> {
    e.map_values(|p: (Vec<u8>, Vec<u8>)| (p.0@, p.1@))
}

/// What is written after a change of the authority set: the encoded set, and, where there was a
/// handoff to a new set, the voter set state reset for it.
pub open spec fn authority_set_entries(encoded_set: Seq<u8>, encoded_state: Option<Seq<u8>>) -> Seq<(Seq<u8>, Seq<u8>)> {
    match encoded_state {
        Some(state) => seq![
            (ascii_bytes("grandpa_voters"@), encoded_set),
            (ascii_bytes("grandpa_completed_round"@), state),
        ],
        None => seq![(ascii_bytes("grandpa_voters"@), encoded_set)],
    }
}

/// Writes the authority set after a change, through `write_aux` (see `authority_set_entries`).
/// `encoded_new_state` is the encoded fresh voter set state where there was a handoff.
pub fn update_authority_set<R, F: FnOnce(Vec<(Vec<u8>, Vec<u8>)>) -> R>(
    encoded_set: Vec<u8>,
    encoded_new_state: Option<Vec<u8>>,
    write_aux: F,
) -> (r: R)
    requires
        forall|e: Vec<(Vec<u8>, Vec<u8>)>| call_requires(write_aux, (e,)),
    ensures
        exists|e: Vec<(Vec<u8>, Vec<u8>)>| {
            &&& entries_view(e@) == authority_set_entries(
                encoded_set@,
                match encoded_new_state {
                    Some(v) => Some(v@),
                    None => None,
                },
            )
            &&& call_ensures(write_aux, (e,), r)
        },
{
    let ghost set_view = encoded_set@;
    let mut entries: Vec<(Vec<u8>, Vec<u8>)> = Vec::new();
    entries.push((authority_set_key(), encoded_set));
    match encoded_new_state {
        Some(state) => {
            entries.push((set_state_key(), state));
        },
        None => {},
    }
    proof {
        assert(entries_view(entries@) =~= authority_set_entries(
            set_view,
            match encoded_new_state {
                Some(v) => Some(v@),
                None => None,
            },
        ));
    }
    write_aux(entries)
}

/// Writes the justification of the best finalized block, through `write_aux`.
pub fn update_best_justification<R, F: FnOnce(Vec<(Vec<u8>, Vec<u8>)>) -> R>(
    encoded_justification: Vec<u8>,
    write_aux: F,
) -> (r: R)
    requires
        forall|e: Vec<(Vec<u8>, Vec<u8>)>| call_requires(write_aux, (e,)),
    ensures
        exists|e: Vec<(Vec<u8>, Vec<u8>)>| {
            &&& entries_view(e@) == seq![(ascii_bytes("grandpa_best_justification"@), encoded_justification@)]
            &&& call_ensures(write_aux, (e,), r)
        },
{
    let ghost value = encoded_justification@;
    let mut entries: Vec<(Vec<u8>, Vec<u8>)> = Vec::new();
    entries.push((best_justification_key(), encoded_justification));
    proof {
        assert(entries_view(entries@) =~= seq![(ascii_bytes("grandpa_best_justification"@), value)]);
    }
    write_aux(entries)
}

/// Writes a concluded round and the voter set state together, through `insert_aux`: the round
/// under its own key (see `concluded_round_key`), the state under the voter set state key.
pub fn write_concluded_round_and_voter_set_state<R, F: FnOnce(Vec<(Vec<u8>, Vec<u8>)>) -> R>(
    round_number: u64,
    encoded_round: Vec<u8>,
    encoded_state: Vec<u8>,
    insert_aux: F,
) -> (r: R)
    requires
        forall|e: Vec<(Vec<u8>, Vec<u8>)>| call_requires(insert_aux, (e,)),
    ensures
        exists|e: Vec<(Vec<u8>, Vec<u8>)>| {
            &&& entries_view(e@) == seq![
                (ascii_bytes("grandpa_concluded_rounds"@) + le_bytes(round_number as nat, 8), encoded_round@),
                (ascii_bytes("grandpa_completed_round"@), encoded_state@),
            ]
            &&& call_ensures(insert_aux, (e,), r)
        },
{
    let ghost round_view = encoded_round@;
    let ghost state_view = encoded_state@;
    let mut entries: Vec<(Vec<u8>, Vec<u8>)> = Vec::new();
    entries.push((concluded_round_key(round_number), encoded_round));
    entries.push((set_state_key(), encoded_state));
    proof {
        assert(entries_view(entries@) =~= seq![
            (ascii_bytes("grandpa_concluded_rounds"@) + le_bytes(round_number as nat, 8), round_view),
            (ascii_bytes("grandpa_completed_round"@), state_view),
        ]);
    }
    insert_aux(entries)
}

/// What loading a stored value gives: none where nothing is stored, the decoded value, or an
/// error that the database is corrupted, with the decoder's message.
pub open spec fn loaded<T>(stored: Option<Seq<u8>>, decoded: Result<T, String>, r: Result<Option<T>, String>) -> bool {
    match stored {
        None => r == Ok::<Option<T>, String>(None),
        Some(_) => match decoded {
            Ok(v) => r == Ok::<Option<T>, String>(Some(v)),
            Err(m) => r matches Err(rm) && rm@ == corrupted_prefix() + m@,
        },
    }
}

/// Decodes a stored value with `decode` (see `loaded`).
pub fn load_decode<T, D: Fn(&Vec<u8>) -> Result<T, String>>(stored: Option<Vec<u8>>, decode: &D) -> (r: Result<Option<T>, String>)
    requires
        forall|b: &Vec<u8>| call_requires(*decode, (b,)),
    ensures
        stored is None ==> r == Ok::<Option<T>, String>(None),
        stored matches Some(b) ==> exists|d: Result<T, String>| call_ensures(*decode, (&b,), d) && loaded(Some(b@), d, r),
{
    match stored {
        None => Ok(None),
        Some(b) => {
            let d = decode(&b);
            let ghost dd = d;
            assert(call_ensures(*decode, (&b,), dd));
            let r = match d {
                Ok(v) => Ok(Some(v)),
                Err(m) => Err(String::from_str("GRANDPA DB is corrupted: ").concat(m.as_str())),
            };
            assert(loaded(Some(b@), dd, r));
            r
        },
    }
}

/// What reading the best justification gives: `get_aux` is asked for the best justification key;
/// its error is returned, nothing stored gives none, and what is stored is decoded with
/// `decode` (see `loaded`).
pub open spec fn best_justification_read<T, G, D>(get_aux: G, decode: D, r: Result<Option<T>, String>) -> bool where
    G: FnOnce(Vec<u8>) -> Result<Option<Vec<u8>>, String>,
    D: Fn(&Vec<u8>) -> Result<T, String>,
 {
    exists|k: Vec<u8>, stored: Result<Option<Vec<u8>>, String>| {
        &&& k@ == ascii_bytes("grandpa_best_justification"@)
        &&& call_ensures(get_aux, (k,), stored)
        &&& match stored {
            Err(e) => r == Err::<Option<T>, String>(e),
            Ok(None) => r == Ok::<Option<T>, String>(None),
            Ok(Some(b)) => exists|d: Result<T, String>| call_ensures(decode, (&b,), d) && loaded(Some(b@), d, r),
        }
    }
}

/// Fetches the justification for the latest block finalized by GRANDPA, if any: reads the best
/// justification key through `get_aux` and decodes what is stored there with `decode`.
pub fn best_justification<T, G, D>(get_aux: G, decode: &D) -> (r: Result<Option<T>, String>) where
    G: FnOnce(Vec<u8>) -> Result<Option<Vec<u8>>, String>,
    D: Fn(&Vec<u8>) -> Result<T, String>,

    requires
        forall|k: Vec<u8>| call_requires(get_aux, (k,)),
        forall|b: &Vec<u8>| call_requires(*decode, (b,)),
    ensures
        best_justification_read(get_aux, *decode, r),
{
    let key = best_justification_key();
    let ghost k = key;
    let stored = get_aux(key);
    let ghost s = stored;
    match stored {
        Err(e) => Err(e),
        Ok(found) => {
            let r = load_decode(found, decode);
            assert(call_ensures(get_aux, (k,), s));
            r
        },
    }
}

/// Read after write: where `entries` is what `update_best_justification` handed to the store for
/// the encoded justification `encoded`, the store gives back under each key written the value
/// written there, and `decode` reads `encoded` as `j`, then `best_justification` gives `j`.
pub proof fn lemma_best_justification_reads_back<T, G, D>(
    encoded: Seq<u8>,
    entries: Vec<(Vec<u8>, Vec<u8>)>,
    j: T,
    get_aux: G,
    decode: D,
    r: Result<Option<T>, String>,
) where
    G: FnOnce(Vec<u8>) -> Result<Option<Vec<u8>>, String>,
    D: Fn(&Vec<u8>) -> Result<T, String>,

    requires
        entries_view(entries@) == seq![(ascii_bytes("grandpa_best_justification"@), encoded)],
        forall|i: int, k: Vec<u8>, stored: Result<Option<Vec<u8>>, String>|
            #![trigger entries@[i], call_ensures(get_aux, (k,), stored)]
            0 <= i < entries@.len() && k@ == entries@[i].0@ && call_ensures(get_aux, (k,), stored)
                ==> (stored matches Ok(Some(b)) && b@ == entries@[i].1@),
        forall|b: &Vec<u8>, d: Result<T, String>|
            b@ == encoded && #[trigger] call_ensures(decode, (b,), d) ==> d == Ok::<T, String>(j),
        best_justification_read(get_aux, decode, r),
    ensures
        r == Ok::<Option<T>, String>(Some(j)),
{
    let (k, stored) = choose|k: Vec<u8>, stored: Result<Option<Vec<u8>>, String>| {
        &&& k@ == ascii_bytes("grandpa_best_justification"@)
        &&& call_ensures(get_aux, (k,), stored)
        &&& match stored {
            Err(e) => r == Err::<Option<T>, String>(e),
            Ok(None) => r == Ok::<Option<T>, String>(None),
            Ok(Some(b)) => exists|d: Result<T, String>| call_ensures(decode, (&b,), d) && loaded(Some(b@), d, r),
        }
    };
    assert(entries_view(entries@).len() == 1);
    assert(entries@.len() == 1);
    assert(entries_view(entries@)[0] == (entries@[0].0@, entries@[0].1@));
    assert(entries@[0].0@ == ascii_bytes("grandpa_best_justification"@));
    assert(k@ == entries@[0].0@);
    assert(stored matches Ok(Some(b)) && b@ == entries@[0].1@);
}

/// Batches of database writes, each a list of entries written together, by their byte views.
pub open spec fn batches_view(b: Seq<Vec<(Vec<u8>, Vec<u8>)>>) -> Seq<Seq<(Seq<u8>, Seq<u8>)>> {
    b.map_values(|e: Vec<(Vec<u8>, Vec<u8>)>| entries_view(e@))
}

/// The version record as a batch.
pub open spec fn version_batch() -> Seq<(Seq<u8>, Seq<u8>)> {
    seq![(ascii_bytes("grandpa_schema_version"@), le_bytes(CURRENT_VERSION as nat, 4))]
}

/// What loading writes on a migration route, in order: every migration first writes the
/// version record; where the old authority set was found, migrating from version 0 then writes
/// the converted set and the new voter set state, from version 1 the new voter set state, and
/// from version 2 the converted set. Loading the current version writes nothing.
/// `migrated` holds the encoded authority set and voter set state the migration produced, where
/// the old set was found.
pub open spec fn migration_batches(route: LoadRoute, migrated: Option<(Seq<u8>, Seq<u8>)>) -> Seq<Seq<(Seq<u8>, Seq<u8>)>> {
    let set_key = ascii_bytes("grandpa_voters"@);
    let state_key = ascii_bytes("grandpa_completed_round"@);
    match route {
        LoadRoute::Current => Seq::empty(),
        LoadRoute::FromVersion0 => match migrated {
            Some((set, state)) => seq![version_batch(), seq![(set_key, set)], seq![(state_key, state)]],
            None => seq![version_batch()],
        },
        LoadRoute::FromVersion1 => match migrated {
            Some((_, state)) => seq![version_batch(), seq![(state_key, state)]],
            None => seq![version_batch()],
        },
        LoadRoute::FromVersion2 => match migrated {
            Some((set, _)) => seq![version_batch(), seq![(set_key, set)]],
            None => seq![version_batch()],
        },
    }
}

/// Every migration records the schema version first: on every route but the current one, the
/// first batch written is the current version, 3 as four little-endian bytes, alone under the
/// version key, whether or not an old authority set was found; the later batches each write one
/// entry, at most one for the authority set and one for the voter set state. Loading the current
/// version writes nothing.
pub proof fn lemma_migration_writes_version_first(route: LoadRoute, migrated: Option<(Seq<u8>, Seq<u8>)>)
    ensures
        route == LoadRoute::Current ==> migration_batches(route, migrated).len() == 0,
        route != LoadRoute::Current ==> {
            &&& 1 <= migration_batches(route, migrated).len() <= 3
            &&& migration_batches(route, migrated)[0] == seq![
                (ascii_bytes("grandpa_schema_version"@), seq![3u8, 0u8, 0u8, 0u8]),
            ]
            &&& migrated is None ==> migration_batches(route, migrated).len() == 1
            &&& forall|i: int|
                1 <= i < migration_batches(route, migrated).len() ==> (#[trigger] migration_batches(
                    route,
                    migrated,
                )[i]).len() == 1 && (migration_batches(route, migrated)[i][0].0 == ascii_bytes(
                    "grandpa_voters"@,
                ) || migration_batches(route, migrated)[i][0].0 == ascii_bytes("grandpa_completed_round"@))
        },
{
    reveal_with_fuel(le_bytes, 5);
    assert(le_bytes(3, 4) =~= seq![3u8, 0u8, 0u8, 0u8]);
}

fn single_batch(key: Vec<u8>, value: Vec<u8>) -> (b: Vec<(Vec<u8>, Vec<u8>)>)
    ensures
        entries_view(b@) == seq![(key@, value@)],
{
    let ghost k = key@;
    let ghost v = value@;
    let mut b: Vec<(Vec<u8>, Vec<u8>)> = Vec::new();
    b.push((key, value));
    proof {
        assert(entries_view(b@) =~= seq![(k, v)]);
    }
    b
}

/// An optional pair of byte vectors, by their views.
pub open spec fn pair_view(p: Option<(Vec<u8>, Vec<u8>)>) -> Option<(Seq<u8>, Seq<u8>)> {
    match p {
        Some((a, b)) => Some((a@, b@)),
        None => None,
    }
}

/// The writes that loading makes on a migration route (see `migration_batches`).
pub fn migration_writes(route: LoadRoute, migrated: Option<(Vec<u8>, Vec<u8>)>) -> (r: Vec<Vec<(Vec<u8>, Vec<u8>)>>)
    ensures
        batches_view(r@) == migration_batches(route, pair_view(migrated)),
{
    let ghost mig = pair_view(migrated);
    let mut r: Vec<Vec<(Vec<u8>, Vec<u8>)>> = Vec::new();
    if route == LoadRoute::Current {
        proof {
            assert(batches_view(r@) =~= migration_batches(route, mig));
        }
        return r;
    }
    let (vk, vv) = version_record();
    r.push(single_batch(vk, vv));
    match migrated {
        Some((set, state)) => {
            match route {
                LoadRoute::FromVersion0 => {
                    r.push(single_batch(authority_set_key(), set));
                    r.push(single_batch(set_state_key(), state));
                },
                LoadRoute::FromVersion1 => {
                    r.push(single_batch(set_state_key(), state));
                },
                _ => {
                    r.push(single_batch(authority_set_key(), set));
                },
            }
        },
        None => {},
    }
    proof {
        assert(batches_view(r@) =~= migration_batches(route, mig));
    }
    r
}

/// What loading writes on first startup, in one batch: the genesis authority set and its
/// initial voter set state, both encoded.
pub fn genesis_writes(encoded_set: Vec<u8>, encoded_state: Vec<u8>) -> (r: Vec<(Vec<u8>, Vec<u8>)>)
    ensures
        entries_view(r@) == seq![
            (ascii_bytes("grandpa_voters"@), encoded_set@),
            (ascii_bytes("grandpa_completed_round"@), encoded_state@),
        ],
{
    let ghost s = encoded_set@;
    let ghost st = encoded_state@;
    let mut r: Vec<(Vec<u8>, Vec<u8>)> = Vec::new();
    r.push((authority_set_key(), encoded_set));
    r.push((set_state_key(), encoded_state));
    proof {
        assert(entries_view(r@) =~= seq![
            (ascii_bytes("grandpa_voters"@), s),
            (ascii_bytes("grandpa_completed_round"@), st),
        ]);
    }
    r
}

/// What preparing the loaded data writes: the voter set state, where stale unvoted rounds were
/// removed from it; nothing otherwise.
pub fn stale_round_writes(removed: usize, encoded_state: Vec<u8>) -> (r: Option<Vec<(Vec<u8>, Vec<u8>)>>)
    ensures
        removed > 0 ==> (r matches Some(b) && entries_view(b@) == seq![(ascii_bytes("grandpa_completed_round"@), encoded_state@)]),
        removed == 0 ==> r is None,
{
    if removed > 0 {
        Some(single_batch(set_state_key(), encoded_state))
    } else {
        None
    }
}

/// The schema version that a stored version record gives: `Some(None)` where none is stored,
/// `Some(Some(v))` where it decodes to `v`, `None` where it is corrupted.
pub open spec fn stored_version(stored: Option<Vec<u8>>) -> Option<Option<u32>> {
    match stored {
        None => Some(None),
        Some(b) => if b@.len() >= 4 {
            Some(Some(le_value(b@.take(4)) as u32))
        } else {
            None
        },
    }
}

/// The route that loading takes for a schema version, or `None` for a version it refuses.
pub open spec fn route_of(version: Option<u32>) -> Option<LoadRoute> {
    match version {
        None => Some(LoadRoute::FromVersion0),
        Some(1) => Some(LoadRoute::FromVersion1),
        Some(2) => Some(LoadRoute::FromVersion2),
        Some(3) => Some(LoadRoute::Current),
        Some(_) => None,
    }
}

/// The route that loading takes for a stored version record, or `None` where loading fails on
/// it.
pub open spec fn loading_route(stored: Option<Vec<u8>>) -> Option<LoadRoute> {
    match stored_version(stored) {
        None => None,
        Some(v) => route_of(v),
    }
}

/// The message with which loading fails on a stored version record that gives no route.
pub open spec fn loading_error(stored: Option<Vec<u8>>) -> Seq<char> {
    match stored_version(stored) {
        Some(Some(v)) => unsupported_message(v),
        _ => corrupted_prefix() + short_input_message(),
    }
}

/// Loads the persistent GRANDPA data, from what is stored under the version key: reads the
/// schema version and picks the route (a corrupted record or an unknown version fails); then
/// `migrate` loads the data on that route, migrating it where it is stored in an older schema,
/// and gives `None` where no authority set is stored; then, and only then, `genesis` makes and
/// writes the data of first startup. An error of either is returned as it is.
pub fn load_persistent<T, M, G>(stored_version: Option<Vec<u8>>, migrate: M, genesis: G) -> (r: Result<T, String>) where
    M: FnOnce(LoadRoute) -> Result<Option<T>, String>,
    G: FnOnce() -> Result<T, String>,

    requires
        forall|route: LoadRoute| call_requires(migrate, (route,)),
        call_requires(genesis, ()),
    ensures
        match loading_route(stored_version) {
            None => r matches Err(m) && m@ == loading_error(stored_version),
            Some(route) => exists|migrated: Result<Option<T>, String>| {
                &&& call_ensures(migrate, (route,), migrated)
                &&& match migrated {
                    Err(e) => r == Err::<T, String>(e),
                    Ok(Some(data)) => r == Ok::<T, String>(data),
                    Ok(None) => exists|made: Result<T, String>| call_ensures(genesis, (), made) && r == made,
                }
            },
        },
{
    let version = match load_version(stored_version) {
        Ok(v) => v,
        Err(e) => return Err(e),
    };
    let route = match load_route(version) {
        Ok(route) => route,
        Err(e) => return Err(e),
    };
    let migrated = migrate(route);
    let ghost mg = migrated;
    match migrated {
        Err(e) => Err(e),
        Ok(Some(data)) => Ok(data),
        Ok(None) => {
            let made = genesis();
            assert(call_ensures(migrate, (route,), mg));
            made
        },
    }
}

} // verus!
