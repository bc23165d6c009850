//! Shielded notes: the commitment that a deposit must open, and the accumulator of leaves that
//! holds the commitments.
//!
//! The accumulator lives in the contract's persistent storage: its size under
//! `TREE_SIZE_KEY`, and leaf `i` under `(LEAF_KEY, i)`. What to write there for a deposit, and
//! what event to publish, is decided here.

use vstd::prelude::*;
use crate::bytes;

verus! {

/// The storage key of the number of leaves.
pub const TREE_SIZE_KEY: &'static str = "MerkleTreeSize";

/// The first part of the storage key of a leaf; the second is its index.
pub const LEAF_KEY: &'static str = "MerkleLeaf";

/// The topic of the event that announces a deposit.
pub const DEPOSIT_TOPIC: &'static str = "NoteDeposited";

/// The opening of a note.
#[derive(Clone, Copy, Debug, PartialEq, Eq)]
pub struct NoteCommitment {
    pub secret: [u8; 32],
    pub nullifier: [u8; 32],
    pub amount: i128,
    pub blinding_factor: [u8; 32],
}

/// Why a deposit is refused.
#[derive(Clone, Copy, Debug, PartialEq, Eq, Structural)]
pub enum ZkError {
    InvalidCommitment,
    TreeFull,
    AlreadySpent,
}

/// What a deposit changes: the leaf at `leaf_index` becomes `commitment`, the number of leaves
/// becomes `tree_size`, and an event with the leaf index and the commitment is published.
#[derive(Clone, Copy, Debug, PartialEq, Eq)]
pub struct Deposit {
    pub leaf_index: u32,
    pub commitment: [u8; 32],
    pub tree_size: u32,
}

/// Checks deposits against their commitments and places them in the accumulator.
#[derive(Clone, Copy, Debug, PartialEq, Eq)]
pub struct ZkNoteVerifier;

/// The contents of the accumulator: the stored size, if one is stored, and the leaves.
pub struct Accumulator {
    pub stored_size: Option<u32>,
    pub leaves: Map<u32, Seq<u8>>,
}

impl Accumulator {
    /// Exactly the leaves below the size are there.
    pub open spec fn wf(self) -> bool {
        forall|i: u32| self.leaves.dom().contains(i) <==> i < tree_size(self.stored_size)
    }

    /// The accumulator after a deposit has been written to it.
    pub open spec fn after(self, deposit: Deposit) -> Accumulator {
        Accumulator {
            stored_size: Some(deposit.tree_size),
            leaves: self.leaves.insert(deposit.leaf_index, deposit.commitment@),
        }
    }
}

/// The number of leaves: none where no size has been stored yet.
pub open spec fn tree_size(stored_size: Option<u32>) -> u32 {
    match stored_size {
        Some(size) => size,
        None => 0,
    }
}

/// `deposit` takes `commitment` into an accumulator of the given size: the commitment becomes the
/// leaf after the last one, and there is one leaf more.
pub open spec fn deposits(stored_size: Option<u32>, commitment: Seq<u8>, deposit: Deposit) -> bool {
    &&& deposit.leaf_index == tree_size(stored_size)
    &&& deposit.commitment@ == commitment
    &&& deposit.tree_size == tree_size(stored_size) + 1
}

/// An amount as a 128-bit two's complement number.
pub open spec fn twos_complement(amount: i128) -> nat {
    if amount >= 0 {
        amount as nat
    } else {
        (amount + 0x1_0000_0000_0000_0000_0000_0000_0000_0000int) as nat
    }
}

/// The 16 bytes of an amount in two's complement, least significant byte first.
pub open spec fn amount_bytes(amount: i128) -> Seq<u8> {
    bytes::be_bytes(twos_complement(amount), 16).reverse()
}

/// The commitment to a note: the byte-wise exclusive or of the secret, the nullifier, the
/// blinding factor and the amount, which covers the first 16 bytes.
pub open spec fn commitment_of(
    secret: Seq<u8>,
    nullifier: Seq<u8>,
    amount: i128,
    blinding_factor: Seq<u8>,
) -> Seq<u8> {
    Seq::new(
        32,
        |i: int|
            if i < 16 {
                secret[i] ^ nullifier[i] ^ blinding_factor[i] ^ amount_bytes(amount)[i]
            } else {
                secret[i] ^ nullifier[i] ^ blinding_factor[i]
            },
    )
}

impl NoteCommitment {
    /// The commitment to this note.
    pub open spec fn commitment(self) -> Seq<u8> {
        commitment_of(self.secret@, self.nullifier@, self.amount, self.blinding_factor@)
    }
}

impl ZkError {
    /// The number under which the error is known outside.
    pub fn code(&self) -> (code: u32)
        ensures
            code == (match *self {
                ZkError::InvalidCommitment => 1u32,
                ZkError::TreeFull => 2u32,
                ZkError::AlreadySpent => 3u32,
            }),
    {
        match self {
            ZkError::InvalidCommitment => 1,
            ZkError::TreeFull => 2,
            ZkError::AlreadySpent => 3,
        }
    }
}

proof fn lemma_amount_bytes(amount: i128)
    ensures
        twos_complement(amount) < bytes::byte_range(16),
        amount_bytes(amount).len() == 16,
{
    reveal_with_fuel(bytes::byte_range, 17);
    bytes::lemma_be_bytes_len(twos_complement(amount), 16);
}

/// The bytes of an amount in two's complement, least significant byte first.
fn amount_to_le_bytes(amount: i128) -> (le: [u8; 16])
    ensures
        le@ == amount_bytes(amount),
{
    let unsigned: u128 = if amount >= 0 {
        amount as u128
    } else {
        (amount - i128::MIN) as u128 + 0x8000_0000_0000_0000_0000_0000_0000_0000u128
    };
    let ghost digits = bytes::be_bytes(unsigned as nat, 16);
    proof {
        lemma_amount_bytes(amount);
        assert(unsigned == twos_complement(amount));
    }
    let mut le: [u8; 16] = [0u8; 16];
    let mut rest: u128 = unsigned;
    let mut i: usize = 0;
    while i < 16
        invariant
            i <= 16,
            digits.len() == 16,
            bytes::be_bytes(rest as nat, (16 - i) as nat).len() == 16 - i,
            forall|j: int|
                0 <= j < 16 - i ==> digits[j] == bytes::be_bytes(rest as nat, (16 - i) as nat)[j],
            forall|j: int| 0 <= j < i ==> le@[j] == digits[15 - j],
        decreases 16 - i,
    {
        let ghost longer = bytes::be_bytes(rest as nat, (16 - i) as nat);
        let ghost shorter = bytes::be_bytes(rest as nat / 256, (15 - i) as nat);
        assert(longer == shorter.push((rest as nat % 256) as u8));
        assert(digits[15 - i] == longer[15 - i]);
        le[i] = (rest % 256) as u8;
        rest = rest / 256;
        i += 1;
    }
    assert(le@ =~= digits.reverse());
    le
}

impl ZkNoteVerifier {
    /// Combines the components of a note into its commitment, by exclusive or. This is no
    /// Poseidon hash, in spite of the name: it binds each component given the other three, and
    /// nothing more is claimed of it.
    pub fn poseidon_hash(
        secret: &[u8; 32],
        nullifier: &[u8; 32],
        amount: i128,
        blinding_factor: &[u8; 32],
    ) -> (combined: [u8; 32])
        ensures
            combined@ == commitment_of(secret@, nullifier@, amount, blinding_factor@),
    {
        let mut combined: [u8; 32] = [0u8; 32];
        let mut i: usize = 0;
        while i < 32
            invariant
                i <= 32,
                forall|j: int|
                    0 <= j < i ==> combined@[j] == secret@[j] ^ nullifier@[j] ^ blinding_factor@[j],
            decreases 32 - i,
        {
            combined[i] = secret[i] ^ nullifier[i] ^ blinding_factor[i];
            i += 1;
        }
        let amount_le: [u8; 16] = amount_to_le_bytes(amount);
        let mut k: usize = 0;
        while k < 16
            invariant
                k <= 16,
                amount_le@ == amount_bytes(amount),
                forall|j: int|
                    0 <= j < 32 ==> combined@[j] == (if j < k {
                        secret@[j] ^ nullifier@[j] ^ blinding_factor@[j] ^ amount_le@[j]
                    } else {
                        secret@[j] ^ nullifier@[j] ^ blinding_factor@[j]
                    }),
            decreases 16 - k,
        {
            combined[k] = combined[k] ^ amount_le[k];
            k += 1;
        }
        assert(combined@ =~= commitment_of(secret@, nullifier@, amount, blinding_factor@));
        combined
    }

    /// Whether a deposit can be made, and the index that its leaf would get. A deposit that does
    /// not open its commitment is refused, and so is one for which there is no index left.
    pub fn check_deposit(
        secret: &[u8; 32],
        nullifier: &[u8; 32],
        amount: i128,
        blinding_factor: &[u8; 32],
        expected_commitment: &[u8; 32],
        stored_size: Option<u32>,
    ) -> (result: Result<u32, ZkError>)
        ensures
            result == (if commitment_of(secret@, nullifier@, amount, blinding_factor@)
                != expected_commitment@ {
                Err::<u32, ZkError>(ZkError::InvalidCommitment)
            } else if tree_size(stored_size) == u32::MAX {
                Err::<u32, ZkError>(ZkError::TreeFull)
            } else {
                Ok::<u32, ZkError>(tree_size(stored_size))
            }),
    {
        let calculated = Self::poseidon_hash(secret, nullifier, amount, blinding_factor);
        if !bytes::is_same(&calculated, expected_commitment) {
            return Err(ZkError::InvalidCommitment);
        }
        let leaf_index: u32 = match stored_size {
            Some(size) => size,
            None => 0,
        };
        if leaf_index == u32::MAX {
            return Err(ZkError::TreeFull);
        }
        Ok(leaf_index)
    }

    /// Takes a note whose commitment is `expected_commitment` into an accumulator whose size is
    /// stored as `stored_size`. The commitment becomes the leaf after the last one.
    pub fn verify_and_deposit(
        secret: &[u8; 32],
        nullifier: &[u8; 32],
        amount: i128,
        blinding_factor: &[u8; 32],
        expected_commitment: &[u8; 32],
        stored_size: Option<u32>,
    ) -> (deposit: Deposit)
        requires
            commitment_of(secret@, nullifier@, amount, blinding_factor@) == expected_commitment@,
            tree_size(stored_size) < u32::MAX,
        ensures
            deposits(
                stored_size,
                commitment_of(secret@, nullifier@, amount, blinding_factor@),
                deposit,
            ),
    {
        let commitment = Self::poseidon_hash(secret, nullifier, amount, blinding_factor);
        let leaf_index: u32 = match stored_size {
            Some(size) => size,
            None => 0,
        };
        Deposit { leaf_index, commitment, tree_size: leaf_index + 1 }
    }

    /// Takes a note into the accumulator if its commitment is `expected_commitment` and there is
    /// an index left for it, and refuses it otherwise.
    pub fn try_deposit(
        secret: &[u8; 32],
        nullifier: &[u8; 32],
        amount: i128,
        blinding_factor: &[u8; 32],
        expected_commitment: &[u8; 32],
        stored_size: Option<u32>,
    ) -> (result: Result<Deposit, ZkError>)
        ensures
            ({
                let commitment = commitment_of(secret@, nullifier@, amount, blinding_factor@);
                if commitment != expected_commitment@ {
                    result == Err::<Deposit, ZkError>(ZkError::InvalidCommitment)
                } else if tree_size(stored_size) == u32::MAX {
                    result == Err::<Deposit, ZkError>(ZkError::TreeFull)
                } else {
                    result is Ok && deposits(stored_size, commitment, result->Ok_0)
                }
            }),
    {
        if let Err(error) = Self::check_deposit(
            secret,
            nullifier,
            amount,
            blinding_factor,
            expected_commitment,
            stored_size,
        ) {
            return Err(error);
        }
        Ok(
            Self::verify_and_deposit(
                secret,
                nullifier,
                amount,
                blinding_factor,
                expected_commitment,
                stored_size,
            ),
        )
    }
}

/// A deposit appends: the accumulator stays well formed and grows by one leaf, which reads back
/// as the deposited commitment, and no leaf that was there before changes.
pub proof fn law_deposit_appends(before: Accumulator, commitment: Seq<u8>, deposit: Deposit)
    requires
        before.wf(),
        deposits(before.stored_size, commitment, deposit),
    ensures
        before.after(deposit).wf(),
        tree_size(before.after(deposit).stored_size) == tree_size(before.stored_size) + 1,
        !before.leaves.dom().contains(deposit.leaf_index),
        before.after(deposit).leaves[deposit.leaf_index] == commitment,
        forall|i: u32| #[trigger]
            before.leaves.dom().contains(i) ==> before.after(deposit).leaves.dom().contains(i)
                && before.after(deposit).leaves[i] == before.leaves[i],
{
}

/// Deposits get consecutive leaf indices, and the first deposit ever gets index zero.
pub proof fn law_leaf_indices_are_consecutive(
    before: Accumulator,
    first_commitment: Seq<u8>,
    first: Deposit,
    second_commitment: Seq<u8>,
    second: Deposit,
)
    requires
        deposits(before.stored_size, first_commitment, first),
        deposits(before.after(first).stored_size, second_commitment, second),
    ensures
        second.leaf_index == first.leaf_index + 1,
        before.stored_size is None ==> first.leaf_index == 0,
{
}

/// The bytes of an amount spell it in base 256, the least significant byte first: as it is where
/// it is not negative, and with `2^128` added where it is.
pub proof fn law_amount_bytes_spell_the_amount(amount: i128)
    ensures
        ({
            let b = amount_bytes(amount);
            let spelled = b[0] + b[1] * 0x100 + b[2] * 0x1_0000 + b[3] * 0x100_0000 + b[4]
                * 0x1_0000_0000 + b[5] * 0x100_0000_0000 + b[6] * 0x1_0000_0000_0000 + b[7]
                * 0x100_0000_0000_0000 + b[8] * 0x1_0000_0000_0000_0000int + b[9]
                * 0x100_0000_0000_0000_0000int + b[10] * 0x1_0000_0000_0000_0000_0000int + b[11]
                * 0x100_0000_0000_0000_0000_0000int + b[12]
                * 0x1_0000_0000_0000_0000_0000_0000int + b[13]
                * 0x100_0000_0000_0000_0000_0000_0000int + b[14]
                * 0x1_0000_0000_0000_0000_0000_0000_0000int + b[15]
                * 0x100_0000_0000_0000_0000_0000_0000_0000int;
            &&& b.len() == 16
            &&& amount >= 0 ==> spelled == amount
            &&& amount < 0 ==> spelled == amount + 0x1_0000_0000_0000_0000_0000_0000_0000_0000int
        }),
{
    lemma_amount_bytes(amount);
    let digits = bytes::be_bytes(twos_complement(amount), 16);
    bytes::lemma_be_value_of_bytes(twos_complement(amount), 16);
    reveal_with_fuel(bytes::be_prefix, 17);
    assert(forall|i: int| 0 <= i < 16 ==> amount_bytes(amount)[i] == digits[15 - i]);
}

/// The commitment is 32 bytes long. Taking the secret, the nullifier and the blinding factor out
/// of it again leaves the amount in the first 16 bytes and nothing in the others.
pub proof fn law_commitment_holds_its_components(note: NoteCommitment, i: int)
    requires
        0 <= i < 32,
    ensures
        note.commitment().len() == 32,
        commitment_of(note.secret@, note.nullifier@, note.amount, note.blinding_factor@)
            == note.commitment(),
        note.commitment()[i] ^ note.secret@[i] ^ note.nullifier@[i] ^ note.blinding_factor@[i]
            == if i < 16 {
            amount_bytes(note.amount)[i]
        } else {
            0u8
        },
{
    lemma_commitment_byte(note, i);
    let s: u8 = note.secret@[i];
    let n: u8 = note.nullifier@[i];
    let b: u8 = note.blinding_factor@[i];
    let a: u8 = amount_part(note.amount, i);
    assert((s ^ n ^ b ^ a) ^ s ^ n ^ b == a) by (bit_vector);
}

/// Where `n` leaves are stored, or none has been, a deposit goes to index `n`, or zero, and the
/// number of leaves that is stored next is one more.
pub proof fn law_deposit_goes_to_the_end(
    stored_size: Option<u32>,
    commitment: Seq<u8>,
    deposit: Deposit,
)
    requires
        deposits(stored_size, commitment, deposit),
    ensures
        stored_size matches Some(n) ==> deposit.leaf_index == n && deposit.tree_size == n + 1,
        stored_size is None ==> deposit.leaf_index == 0 && deposit.tree_size == 1,
        deposit.commitment@ == commitment,
{
}

/// A stored size is the number of leaves, and there are none where no size is stored.
pub proof fn law_tree_size_is_what_is_stored(n: u32)
    ensures
        tree_size(Some(n)) == n,
        tree_size(None) == 0,
{
}

/// The accumulator is kept under `MerkleTreeSize` and `MerkleLeaf`, and deposits are announced as
/// `NoteDeposited`.
pub proof fn law_storage_names()
    ensures
        TREE_SIZE_KEY@ == "MerkleTreeSize"@,
        LEAF_KEY@ == "MerkleLeaf"@,
        DEPOSIT_TOPIC@ == "NoteDeposited"@,
{
}

/// The commitment binds each component given the others: two notes with one commitment that
/// agree in three of the four components agree in the fourth.
pub proof fn law_commitment_binds_each_component(left: NoteCommitment, right: NoteCommitment)
    requires
        left.commitment() == right.commitment(),
    ensures
        left.nullifier@ == right.nullifier@ && left.amount == right.amount
            && left.blinding_factor@ == right.blinding_factor@ ==> left.secret@ == right.secret@,
        left.secret@ == right.secret@ && left.amount == right.amount && left.blinding_factor@
            == right.blinding_factor@ ==> left.nullifier@ == right.nullifier@,
        left.secret@ == right.secret@ && left.nullifier@ == right.nullifier@ && left.amount
            == right.amount ==> left.blinding_factor@ == right.blinding_factor@,
        left.secret@ == right.secret@ && left.nullifier@ == right.nullifier@
            && left.blinding_factor@ == right.blinding_factor@ ==> left.amount == right.amount,
{
    if left.nullifier@ == right.nullifier@ && left.amount == right.amount && left.blinding_factor@
        == right.blinding_factor@ {
        assert forall|i: int| 0 <= i < 32 implies left.secret@[i] == right.secret@[i] by {
            lemma_commitments_agree_at(left, right, i);
        }
        assert(left.secret@ =~= right.secret@);
    }
    if left.secret@ == right.secret@ && left.amount == right.amount && left.blinding_factor@
        == right.blinding_factor@ {
        assert forall|i: int| 0 <= i < 32 implies left.nullifier@[i] == right.nullifier@[i] by {
            lemma_commitments_agree_at(left, right, i);
        }
        assert(left.nullifier@ =~= right.nullifier@);
    }
    if left.secret@ == right.secret@ && left.nullifier@ == right.nullifier@ && left.amount
        == right.amount {
        assert forall|i: int| 0 <= i < 32 implies left.blinding_factor@[i]
            == right.blinding_factor@[i] by {
            lemma_commitments_agree_at(left, right, i);
        }
        assert(left.blinding_factor@ =~= right.blinding_factor@);
    }
    if left.secret@ == right.secret@ && left.nullifier@ == right.nullifier@ && left.blinding_factor@
        == right.blinding_factor@ {
        let l = amount_bytes(left.amount);
        let r = amount_bytes(right.amount);
        lemma_amount_bytes(left.amount);
        lemma_amount_bytes(right.amount);
        assert forall|i: int| 0 <= i < 16 implies l[i] == r[i] by {
            lemma_commitments_agree_at(left, right, i);
        }
        assert(l =~= r);
        assert(l.reverse() =~= bytes::be_bytes(twos_complement(left.amount), 16));
        assert(r.reverse() =~= bytes::be_bytes(twos_complement(right.amount), 16));
        bytes::lemma_be_value_of_bytes(twos_complement(left.amount), 16);
        bytes::lemma_be_value_of_bytes(twos_complement(right.amount), 16);
    }
}

/// The part of an amount in byte `i` of a commitment.
spec fn amount_part(amount: i128, i: int) -> u8 {
    if i < 16 {
        amount_bytes(amount)[i]
    } else {
        0
    }
}

/// Byte `i` of a commitment is the exclusive or of the four parts there.
proof fn lemma_commitment_byte(note: NoteCommitment, i: int)
    requires
        0 <= i < 32,
    ensures
        note.commitment()[i] == note.secret@[i] ^ note.nullifier@[i] ^ note.blinding_factor@[i]
            ^ amount_part(note.amount, i),
{
    let three: u8 = note.secret@[i] ^ note.nullifier@[i] ^ note.blinding_factor@[i];
    assert(three ^ 0 == three) by (bit_vector);
}

/// Byte `i` of two equal commitments: where three components agree in it, so does the fourth.
proof fn lemma_commitments_agree_at(left: NoteCommitment, right: NoteCommitment, i: int)
    requires
        left.commitment() == right.commitment(),
        0 <= i < 32,
    ensures
        ({
            let same_secret = left.secret@[i] == right.secret@[i];
            let same_nullifier = left.nullifier@[i] == right.nullifier@[i];
            let same_blinding = left.blinding_factor@[i] == right.blinding_factor@[i];
            let same_amount = amount_part(left.amount, i) == amount_part(right.amount, i);
            &&& same_nullifier && same_blinding && same_amount ==> same_secret
            &&& same_secret && same_blinding && same_amount ==> same_nullifier
            &&& same_secret && same_nullifier && same_amount ==> same_blinding
            &&& same_secret && same_nullifier && same_blinding ==> same_amount
        }),
{
    lemma_commitment_byte(left, i);
    lemma_commitment_byte(right, i);
    lemma_xor_cancels(
        left.secret@[i],
        left.nullifier@[i],
        left.blinding_factor@[i],
        amount_part(left.amount, i),
        right.secret@[i],
        right.nullifier@[i],
        right.blinding_factor@[i],
        amount_part(right.amount, i),
    );
}

/// Equal exclusive ors that agree in three of four parts agree in the fourth.
proof fn lemma_xor_cancels(a: u8, b: u8, c: u8, d: u8, w: u8, x: u8, y: u8, z: u8)
    ensures
        a ^ b ^ c ^ d == w ^ x ^ y ^ z && b == x && c == y && d == z ==> a == w,
        a ^ b ^ c ^ d == w ^ x ^ y ^ z && a == w && c == y && d == z ==> b == x,
        a ^ b ^ c ^ d == w ^ x ^ y ^ z && a == w && b == x && d == z ==> c == y,
        a ^ b ^ c ^ d == w ^ x ^ y ^ z && a == w && b == x && c == y ==> d == z,
{
    assert(a ^ b ^ c ^ d == w ^ x ^ y ^ z && b == x && c == y && d == z ==> a == w) by (bit_vector);
    assert(a ^ b ^ c ^ d == w ^ x ^ y ^ z && a == w && c == y && d == z ==> b == x) by (bit_vector);
    assert(a ^ b ^ c ^ d == w ^ x ^ y ^ z && a == w && b == x && d == z ==> c == y) by (bit_vector);
    assert(a ^ b ^ c ^ d == w ^ x ^ y ^ z && a == w && b == x && c == y ==> d == z) by (bit_vector);
}

} // verus!
