//! Public keys and the derivation of a record's address from its owner and name.
use vstd::prelude::*;
use vstd::utf8::encode_utf8;

verus! {

/// A 32-byte public key: an owner's identity, a program id or a derived address.
#[derive(Clone, Copy, Debug, PartialEq, Eq, Hash)]
pub struct Key {
    pub bytes: [u8; 32],
}

impl View for Key {
    type V = Seq<u8>;

    open spec fn view(&self) -> Seq<u8> {
        self.bytes@
    }
}

impl Key {
    pub fn new(bytes: [u8; 32]) -> (r: Key)
        ensures
            r@ == bytes@,
    {
        Key { bytes }
    }

    /// Whether two keys hold the same bytes.
    pub fn same(&self, other: &Key) -> (r: bool)
        ensures
            r == (self@ == other@),
    {
        let mut i: usize = 0;
        while i < 32
            invariant
                0 <= i <= 32,
                self@.len() == 32,
                other@.len() == 32,
                forall|j: int| 0 <= j < i ==> self@[j] == other@[j],
            decreases 32 - i,
        {
            if self.bytes[i] != other.bytes[i] {
                return false;
            }
            i = i + 1;
        }
        assert(self@ =~= other@);
        true
    }
}

/// The domain tag that opens every record's seed list: "movie_account".
pub open spec fn movie_tag() -> Seq<u8> {
    seq![109u8, 111u8, 118u8, 105u8, 101u8, 95u8, 97u8, 99u8, 99u8, 111u8, 117u8, 110u8, 116u8]
}

/// The seeds of a record's address: the tag, the owner's key, the name's bytes.
pub open spec fn movie_seeds(owner: Seq<u8>, name: Seq<u8>) -> Seq<Seq<u8>> {
    seq![movie_tag(), owner, name]
}

/// The seed bytes in the order in which they enter the digest.
pub open spec fn flat_seeds(owner: Seq<u8>, name: Seq<u8>) -> Seq<u8> {
    movie_tag() + owner + name
}

/// What the runtime's program-address search returns for a seed list and a
/// program id: the first off-curve address with its bump, if any.
pub uninterp spec fn program_address_of(seeds: Seq<Seq<u8>>, program_id: Seq<u8>) -> Option<(Seq<u8>, u8)>;

pub open spec fn found_view(r: Option<(Key, u8)>) -> Option<(Seq<u8>, u8)> {
    match r {
        Some((k, bump)) => Some((k@, bump)),
        None => None,
    }
}

/// The address (with its bump) of the record that `owner` names `name`
/// under `program_id`.
pub open spec fn movie_address_of(owner: Seq<u8>, name: Seq<u8>, program_id: Seq<u8>) -> Option<(Seq<u8>, u8)> {
    program_address_of(movie_seeds(owner, name), program_id)
}

/// Relies on solana_program's `Pubkey::try_find_program_address` for the
/// three seeds given: its result depends on the seeds and the program id alone.
#[verifier::external_body]
fn try_find_program_address(tag: &[u8], owner: &Key, name: &[u8], program_id: &Key) -> (r: Option<(Key, u8)>)
    ensures
        found_view(r) == program_address_of(seq![tag@, owner@, name@], program_id@),
{
    let pid = anchor_lang::prelude::Pubkey::new_from_array(program_id.bytes);
    match anchor_lang::prelude::Pubkey::try_find_program_address(&[tag, &owner.bytes, name], &pid) {
        Some((k, bump)) => Some((Key { bytes: k.to_bytes() }, bump)),
        None => None,
    }
}

/// The tag bytes, "movie_account".
pub fn movie_tag_bytes() -> (r: Vec<u8>)
    ensures
        r@ == movie_tag(),
{
    let r: Vec<u8> = vec![109u8, 111u8, 118u8, 105u8, 101u8, 95u8, 97u8, 99u8, 99u8, 111u8, 117u8, 110u8, 116u8];
    assert(r@ =~= movie_tag());
    r
}

/// Derives the address of the record that `owner` names `movie_name` under
/// `program_id`, with the bump the search settled on; `None` when the search
/// finds no valid address.
pub fn movie_address(owner: &Key, movie_name: &str, program_id: &Key) -> (r: Option<(Key, u8)>)
    ensures
        found_view(r) == movie_address_of(owner@, encode_utf8(movie_name@), program_id@),
{
    let tag = movie_tag_bytes();
    let name = movie_name.as_bytes();
    let r = try_find_program_address(tag.as_slice(), owner, name, program_id);
    assert(seq![tag@, owner@, name@] =~= movie_seeds(owner@, encode_utf8(movie_name@)));
    r
}

} // verus!
