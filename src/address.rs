//! Addresses and the derivation of program-controlled addresses.
use vstd::prelude::*;
use crate::error::CustodyError;

verus! {

/// A 32-byte account address.
#[derive(Clone, Copy, Debug)]
pub struct Address {
    pub bytes: [u8; 32],
}

impl View for Address {
    type V = Seq<u8>;

    open spec fn view(&self) -> Seq<u8> {
        self.bytes@
    }
}

impl Address {
    /// An address made of the given bytes.
    pub fn new(bytes: [u8; 32]) -> (r: Address)
        ensures
            r.bytes == bytes,
    {
        Address { bytes }
    }

    /// The address's bytes, as a vector.
    pub fn to_vec(&self) -> (r: Vec<u8>)
        ensures
            r@ == self@,
    {
        let mut r: Vec<u8> = Vec::new();
        let mut i: usize = 0;
        while i < 32
            invariant
                i <= 32,
                self@.len() == 32,
                r@ == self@.subrange(0, i as int),
            decreases 32 - i,
        {
            r.push(self.bytes[i]);
            i = i + 1;
            assert(r@ =~= self@.subrange(0, i as int));
        }
        assert(r@ =~= self@);
        r
    }

    /// The address held by the 32 bytes of `bytes` from `at` on.
    pub fn read_at(bytes: &Vec<u8>, at: usize) -> (r: Address)
        requires
            at + 32 <= bytes@.len(),
        ensures
            r@ == bytes@.subrange(at as int, at + 32),
    {
        let _n = bytes.len();
        let mut out = [0u8; 32];
        let mut i: usize = 0;
        while i < 32
            invariant
                i <= 32,
                at + 32 <= bytes@.len(),
                bytes@.len() <= usize::MAX,
                out@.len() == 32,
                forall|j: int| 0 <= j < i ==> out@[j] == bytes@[at + j],
            decreases 32 - i,
        {
            out[i] = bytes[at + i];
            i = i + 1;
        }
        let r = Address { bytes: out };
        assert(r@ =~= bytes@.subrange(at as int, at + 32));
        r
    }

    /// Whether two addresses hold the same bytes.
    pub fn same_as(&self, other: &Address) -> (r: bool)
        ensures
            r == (self@ == other@),
    {
        let mut i: usize = 0;
        while i < 32
            invariant
                0 <= i <= 32,
                self@.len() == 32,
                other@.len() == 32,
                forall|j: int| 0 <= j < i ==> self@[j] == other@[j],
            decreases 32 - i,
        {
            if self.bytes[i] != other.bytes[i] {
                return false;
            }
            i = i + 1;
        }
        assert(self@ =~= other@);
        true
    }
}

impl PartialEq for Address {
    fn eq(&self, other: &Address) -> (r: bool) {
        self.same_as(other)
    }
}

impl vstd::std_specs::cmp::PartialEqSpecImpl for Address {
    open spec fn obeys_eq_spec() -> bool {
        true
    }

    open spec fn eq_spec(&self, other: &Address) -> bool {
        self@ == other@
    }
}

} // verus!

verus! {

/// The address that `Pubkey::create_program_address` computes for a seed list and a
/// program id; `None` where it refuses (the hash lies on the curve, or the seeds
/// are too many or too long).
pub uninterp spec fn program_address(seeds: Seq<Seq<u8>>, program_id: Seq<u8>) -> Option<Seq<u8>>;

/// The seeds with a one-byte bump seed appended.
pub open spec fn with_bump(seeds: Seq<Seq<u8>>, bump: u8) -> Seq<Seq<u8>> {
    seeds.push(seq![bump])
}

/// The first bump, counting down from `from` to 1, for which the seeds yield an
/// address, with that address.
pub open spec fn first_bump_from(seeds: Seq<Seq<u8>>, program_id: Seq<u8>, from: int) -> Option<
    (Seq<u8>, u8),
>
    decreases from,
{
    if from < 1 {
        None
    } else {
        match program_address(with_bump(seeds, from as u8), program_id) {
            Some(a) => Some((a, from as u8)),
            None => first_bump_from(seeds, program_id, from - 1),
        }
    }
}

/// The derived address of a seed list: the highest bump that yields an address,
/// and that address.
pub open spec fn derived_address(seeds: Seq<Seq<u8>>, program_id: Seq<u8>) -> Option<(Seq<u8>, u8)> {
    first_bump_from(seeds, program_id, 255)
}

/// The derived address of the seeds is `key`.
pub open spec fn derives_to(seeds: Seq<Seq<u8>>, program_id: Seq<u8>, key: Seq<u8>) -> bool {
    derived_address(seeds, program_id) is Some && derived_address(seeds, program_id).unwrap().0
        == key
}

/// What a derivation result is, as plain values.
pub open spec fn found_view(r: Option<(Address, u8)>) -> Option<(Seq<u8>, u8)> {
    match r {
        Some((a, b)) => Some((a@, b)),
        None => None,
    }
}

/// Relies on `Pubkey::create_program_address`: a function of the seeds and the
/// program id alone, `Err` exactly where no address is derived.
#[verifier::external_body]
fn create_program_address(seeds: &Vec<Vec<u8>>, program_id: &Address) -> (r: Option<Address>)
    ensures
        found_address(r) == program_address(seeds.deep_view(), program_id@),
{
    let refs: Vec<&[u8]> = seeds.iter().map(|s| s.as_slice()).collect();
    let id = solana_program::pubkey::Pubkey::new_from_array(program_id.bytes);
    match solana_program::pubkey::Pubkey::create_program_address(&refs, &id) {
        Ok(key) => Some(Address { bytes: key.to_bytes() }),
        Err(_) => None,
    }
}

/// What an address result is, as plain values.
pub open spec fn found_address(r: Option<Address>) -> Option<Seq<u8>> {
    match r {
        Some(a) => Some(a@),
        None => None,
    }
}

/// Relies on `Pubkey::try_find_program_address`: it tries the bumps 255 down to 1
/// through `create_program_address` and returns the first address found, or
/// `None` where none is found.
#[verifier::external_body]
fn try_find_program_address(seeds: &Vec<Vec<u8>>, program_id: &Address) -> (r: Option<(Address, u8)>)
    ensures
        match r {
            Some((a, b)) => {
                &&& 1 <= b
                &&& program_address(with_bump(seeds.deep_view(), b), program_id@) == Some(a@)
                &&& forall|c: u8|
                    b < c ==> #[trigger] program_address(with_bump(seeds.deep_view(), c), program_id@)
                        is None
            },
            None => forall|c: u8|
                1 <= c ==> #[trigger] program_address(with_bump(seeds.deep_view(), c), program_id@)
                    is None,
        },
{
    let refs: Vec<&[u8]> = seeds.iter().map(|s| s.as_slice()).collect();
    let id = solana_program::pubkey::Pubkey::new_from_array(program_id.bytes);
    match solana_program::pubkey::Pubkey::try_find_program_address(&refs, &id) {
        Some((key, bump)) => Some((Address { bytes: key.to_bytes() }, bump)),
        None => None,
    }
}

proof fn lemma_first_bump_found(seeds: Seq<Seq<u8>>, program_id: Seq<u8>, a: Seq<u8>, b: u8, from: int)
    requires
        1 <= b <= from <= 255,
        program_address(with_bump(seeds, b), program_id) == Some(a),
        forall|c: u8| b < c ==> #[trigger] program_address(with_bump(seeds, c), program_id) is None,
    ensures
        first_bump_from(seeds, program_id, from) == Some((a, b)),
    decreases from,
{
    if from > b {
        let c = from as u8;
        assert(program_address(with_bump(seeds, c), program_id) is None);
        lemma_first_bump_found(seeds, program_id, a, b, from - 1);
    }
}

proof fn lemma_first_bump_none(seeds: Seq<Seq<u8>>, program_id: Seq<u8>, from: int)
    requires
        from <= 255,
        forall|c: u8| 1 <= c ==> #[trigger] program_address(with_bump(seeds, c), program_id) is None,
    ensures
        first_bump_from(seeds, program_id, from) is None,
    decreases from,
{
    if from >= 1 {
        let c = from as u8;
        assert(program_address(with_bump(seeds, c), program_id) is None);
        lemma_first_bump_none(seeds, program_id, from - 1);
    }
}

/// Derives the program-controlled address of a seed list: the highest bump seed
/// (255 down to 1) for which the seeds and the bump yield an address off the
/// key-pair curve, with that address; `None` where no bump does.
pub fn derive_address(seeds: &Vec<Vec<u8>>, program_id: &Address) -> (r: Option<(Address, u8)>)
    ensures
        found_view(r) == derived_address(seeds.deep_view(), program_id@),
{
    let r = try_find_program_address(seeds, program_id);
    proof {
        match r {
            Some((a, b)) => lemma_first_bump_found(seeds.deep_view(), program_id@, a@, b, 255),
            None => lemma_first_bump_none(seeds.deep_view(), program_id@, 255),
        }
    }
    r
}

/// Recomputes the address of the seeds with the given bump and checks that it is
/// `candidate`: `Ok` exactly when it is, else `AddressMismatch`.
pub fn verify_address(seeds: &Vec<Vec<u8>>, bump: u8, program_id: &Address, candidate: &Address) -> (r:
    Result<(), CustodyError>)
    ensures
        r is Ok <==> program_address(with_bump(seeds.deep_view(), bump), program_id@) == Some(
            candidate@,
        ),
        r is Err ==> r == Err::<(), CustodyError>(CustodyError::AddressMismatch),
{
    let mut full = seeds.clone();
    proof {
        assert(full.deep_view() =~= seeds.deep_view());
    }
    let ghost before = full.deep_view();
    let tail: Vec<u8> = vec![bump];
    assert(tail.deep_view() =~= seq![bump]);
    full.push(tail);
    assert(full.deep_view() =~= with_bump(before, bump));
    match create_program_address(&full, program_id) {
        Some(a) => {
            if a.same_as(candidate) {
                Ok(())
            } else {
                Err(CustodyError::AddressMismatch)
            }
        },
        None => Err(CustodyError::AddressMismatch),
    }
}

/// Derivation is a function: equal seeds and program ids derive equal results.
pub proof fn lemma_derivation_deterministic(
    seeds1: Seq<Seq<u8>>,
    program_id1: Seq<u8>,
    seeds2: Seq<Seq<u8>>,
    program_id2: Seq<u8>,
)
    requires
        seeds1 == seeds2,
        program_id1 == program_id2,
    ensures
        derived_address(seeds1, program_id1) == derived_address(seeds2, program_id2),
{
}

/// Verifying with the derived bump succeeds exactly on the derived address.
pub proof fn lemma_verify_matches_derivation(
    seeds: Seq<Seq<u8>>,
    program_id: Seq<u8>,
    address: Seq<u8>,
    bump: u8,
    candidate: Seq<u8>,
)
    requires
        derived_address(seeds, program_id) == Some((address, bump)),
    ensures
        (program_address(with_bump(seeds, bump), program_id) == Some(candidate)) <==> candidate
            == address,
{
    lemma_derived_bump_yields(seeds, program_id, 255);
}

proof fn lemma_derived_bump_yields(seeds: Seq<Seq<u8>>, program_id: Seq<u8>, from: int)
    ensures
        first_bump_from(seeds, program_id, from) matches Some((a, b)) ==> program_address(
            with_bump(seeds, b),
            program_id,
        ) == Some(a),
    decreases from,
{
    if from >= 1 {
        lemma_derived_bump_yields(seeds, program_id, from - 1);
    }
}

} // verus!
