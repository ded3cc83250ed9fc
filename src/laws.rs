//! Properties of the store that relate several operations.
use vstd::prelude::*;
use vstd::utf8::encode_utf8;
use crate::address::{flat_seeds, movie_address_of, movie_seeds, movie_tag};
use crate::ledger::{
    MovieError, SlotView, after_create, can_pay, lemma_after_create, occupied, stored_data,
    unique_addresses, write_outcome,
};
use crate::program::{AddMovie, add_movie_outcome, after_add_movie, derives_to};
use crate::record::{MAX_NAME_LEN, OWNER_LEN, is_movie_layout, lemma_layout_parts, movie_layout, space_for};

verus! {

/// Deriving an address twice from the same owner, name and program gives the
/// same address and bump.
pub proof fn lemma_address_deterministic(
    owner1: Seq<u8>,
    name1: Seq<u8>,
    program1: Seq<u8>,
    owner2: Seq<u8>,
    name2: Seq<u8>,
    program2: Seq<u8>,
)
    requires
        owner1 == owner2,
        name1 == name2,
        program1 == program2,
    ensures
        movie_address_of(owner1, name1, program1) == movie_address_of(owner2, name2, program2),
{
}

/// Distinct (owner, name) pairs give distinct seed lists, and distinct seed
/// bytes once the seeds are laid end to end.
pub proof fn lemma_distinct_pairs_distinct_seeds(owner1: Seq<u8>, name1: Seq<u8>, owner2: Seq<u8>, name2: Seq<u8>)
    requires
        owner1.len() == OWNER_LEN,
        owner2.len() == OWNER_LEN,
        owner1 != owner2 || name1 != name2,
    ensures
        movie_seeds(owner1, name1) != movie_seeds(owner2, name2),
        flat_seeds(owner1, name1) != flat_seeds(owner2, name2),
{
    let t = movie_tag().len() as int;
    if movie_seeds(owner1, name1) == movie_seeds(owner2, name2) {
        assert(movie_seeds(owner1, name1)[1] == owner1);
        assert(movie_seeds(owner2, name2)[1] == owner2);
        assert(movie_seeds(owner1, name1)[2] == name1);
        assert(movie_seeds(owner2, name2)[2] == name2);
    }
    if flat_seeds(owner1, name1) == flat_seeds(owner2, name2) {
        let f1 = flat_seeds(owner1, name1);
        let f2 = flat_seeds(owner2, name2);
        assert(f1.subrange(t, t + 32) =~= owner1);
        assert(f2.subrange(t, t + 32) =~= owner2);
        assert(f1.subrange(t + 32, f1.len() as int) =~= name1);
        assert(f2.subrange(t + 32, f2.len() as int) =~= name2);
    }
}

/// Creating a record at a fresh address succeeds, and reading it back gives
/// exactly the owner and the name supplied.
pub proof fn lemma_create_then_read(slots: Seq<SlotView>, ctx: AddMovie, name: Seq<char>, rent: u64)
    requires
        unique_addresses(slots),
        encode_utf8(name).len() <= MAX_NAME_LEN,
        derives_to(ctx.user@, encode_utf8(name), ctx.program_id@, ctx.movie@),
        !occupied(slots, ctx.movie@),
        can_pay(slots, ctx.user@, rent),
    ensures
        add_movie_outcome(slots, ctx, encode_utf8(name), rent) is Ok,
        occupied(after_add_movie(slots, ctx, encode_utf8(name), rent), ctx.movie@),
        is_movie_layout(stored_data(after_add_movie(slots, ctx, encode_utf8(name), rent), ctx.movie@)),
        forall|owner: Seq<u8>, read: Seq<char>|
            owner.len() == OWNER_LEN && #[trigger] movie_layout(owner, encode_utf8(read)) == stored_data(
                after_add_movie(slots, ctx, encode_utf8(name), rent),
                ctx.movie@,
            ) ==> owner == ctx.user@ && read == name,
{
    let bytes = encode_utf8(name);
    let layout = movie_layout(ctx.user@, bytes);
    lemma_after_create(slots, ctx.user@, ctx.movie@, rent, layout);
    assert(movie_layout(ctx.user@, encode_utf8(name)) == layout);
    assert forall|owner: Seq<u8>, read: Seq<char>|
        owner.len() == OWNER_LEN && #[trigger] movie_layout(owner, encode_utf8(read)) == stored_data(
            after_add_movie(slots, ctx, bytes, rent),
            ctx.movie@,
        ) implies owner == ctx.user@ && read == name by {
        lemma_layout_parts(owner, encode_utf8(read));
        lemma_layout_parts(ctx.user@, bytes);
        vstd::utf8::encode_utf8_decode_utf8(read);
        vstd::utf8::encode_utf8_decode_utf8(name);
    }
}

/// After a record is created, creating it again with the same owner, name
/// and program fails as a duplicate, whatever rent is offered; since a failed
/// call changes nothing, the first record stays as it was.
pub proof fn lemma_recreate_is_duplicate(slots: Seq<SlotView>, ctx: AddMovie, name: Seq<u8>, rent: u64, rent2: u64)
    requires
        unique_addresses(slots),
        add_movie_outcome(slots, ctx, name, rent) is Ok,
    ensures
        add_movie_outcome(after_add_movie(slots, ctx, name, rent), ctx, name, rent2) == Err::<(), MovieError>(
            MovieError::SlotAlreadyExists,
        ),
{
    lemma_after_create(slots, ctx.user@, ctx.movie@, rent, movie_layout(ctx.user@, name));
}

/// A record's layout fills exactly `space_for` its name; a slot allocated
/// with any other size refuses the record's bytes.
pub proof fn lemma_exact_space(
    slots: Seq<SlotView>,
    payer: Seq<u8>,
    address: Seq<u8>,
    lamports: u64,
    owner: Seq<u8>,
    name: Seq<u8>,
    space: nat,
)
    requires
        unique_addresses(slots),
        owner.len() == OWNER_LEN,
        !occupied(slots, address),
        can_pay(slots, payer, lamports),
    ensures
        movie_layout(owner, name).len() == space_for(name.len()),
        write_outcome(
            after_create(slots, payer, address, lamports, Seq::new(space, |i: int| 0u8)),
            address,
            movie_layout(owner, name),
        ) is Ok <==> space == space_for(name.len()),
{
    lemma_layout_parts(owner, name);
    lemma_after_create(slots, payer, address, lamports, Seq::new(space, |i: int| 0u8));
}

} // verus!
