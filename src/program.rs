//! The store's one operation: create a movie record at its derived address.
use vstd::prelude::*;
use vstd::utf8::encode_utf8;
use crate::address::{Key, movie_address, movie_address_of};
use crate::ledger::{
    Ledger, MovieError, SlotView, after_create, after_write, create_outcome, lemma_after_create,
};
use crate::record::{MAX_NAME_LEN, Movie, encode_movie, movie_layout, movie_space};

verus! {

/// The keys an `add_movie` call names: the address the caller claims for the
/// record, the calling owner (who pays), and the program the address is
/// derived under.
#[derive(Clone, Copy, Debug, PartialEq, Eq)]
pub struct AddMovie {
    pub movie: Key,
    pub user: Key,
    pub program_id: Key,
}

/// Whether `address` is the one derived for `owner` and `name` under `program_id`.
pub open spec fn derives_to(owner: Seq<u8>, name: Seq<u8>, program_id: Seq<u8>, address: Seq<u8>) -> bool {
    match movie_address_of(owner, name, program_id) {
        Some((a, _)) => a == address,
        None => false,
    }
}

/// The outcome of `add_movie` for a name with these bytes, paying `rent`.
pub open spec fn add_movie_outcome(slots: Seq<SlotView>, ctx: AddMovie, name: Seq<u8>, rent: u64) -> Result<(), MovieError> {
    if name.len() > MAX_NAME_LEN {
        Err(MovieError::NameTooLong)
    } else if !derives_to(ctx.user@, name, ctx.program_id@, ctx.movie@) {
        Err(MovieError::InvalidAddressDerivation)
    } else {
        create_outcome(slots, ctx.user@, ctx.movie@, rent)
    }
}

/// The slots after a successful `add_movie`: the owner is charged `rent`,
/// and a new slot at the record's address holds its layout.
pub open spec fn after_add_movie(slots: Seq<SlotView>, ctx: AddMovie, name: Seq<u8>, rent: u64) -> Seq<SlotView> {
    after_create(slots, ctx.user@, ctx.movie@, rent, movie_layout(ctx.user@, name))
}

/// Creates the record `{ owner: ctx.user, movie_name }` at `ctx.movie`.
///
/// The name must fit in one address seed, `ctx.movie` must be the address
/// derived from the owner and the name, no slot may exist there yet, and the
/// owner must hold `rent` lamports, which move into the new slot. The slot is
/// allocated with exactly the record's size. On any failure nothing changes.
pub fn add_movie(ledger: &mut Ledger, ctx: &AddMovie, movie_name: String, rent: u64) -> (r: Result<(), MovieError>)
    requires
        old(ledger).wf(),
    ensures
        final(ledger).wf(),
        r == add_movie_outcome(old(ledger)@, *ctx, encode_utf8(movie_name@), rent),
        r is Ok ==> final(ledger)@ == after_add_movie(old(ledger)@, *ctx, encode_utf8(movie_name@), rent),
        r is Err ==> final(ledger)@ == old(ledger)@,
{
    let ghost name_bytes = encode_utf8(movie_name@);
    let name_str = movie_name.as_str();
    assert(name_str@ == movie_name@);
    let name_len = name_str.as_bytes().len();
    assert(name_len == name_bytes.len());
    if name_len > MAX_NAME_LEN {
        return Err(MovieError::NameTooLong);
    }
    match movie_address(&ctx.user, movie_name.as_str(), &ctx.program_id) {
        Some((a, _bump)) => {
            if !a.same(&ctx.movie) {
                return Err(MovieError::InvalidAddressDerivation);
            }
        },
        None => {
            return Err(MovieError::InvalidAddressDerivation);
        },
    }
    let space = movie_space(movie_name.as_str());
    let ghost before = ledger@;
    match ledger.create_account(&ctx.user, &ctx.movie, space, rent) {
        Ok(()) => {},
        Err(e) => {
            return Err(e);
        },
    }
    let ghost zeros = Seq::new(space as nat, |i: int| 0u8);
    let movie = Movie { owner: ctx.user, movie_name };
    let bytes = encode_movie(&movie);
    proof {
        lemma_after_create(before, ctx.user@, ctx.movie@, rent, zeros);
    }
    let w = ledger.write_data(&ctx.movie, bytes);
    proof {
        assert(w is Ok);
        let layout = movie_layout(ctx.user@, name_bytes);
        assert(after_write(after_create(before, ctx.user@, ctx.movie@, rent, zeros), ctx.movie@, layout)
            =~= after_create(before, ctx.user@, ctx.movie@, rent, layout));
    }
    Ok(())
}

} // verus!
