//! The movie record, its exact size, and its byte layout in a slot:
//! discriminator, owner key, little-endian `u32` name length, name bytes.
use vstd::prelude::*;
use vstd::utf8::encode_utf8;
use vstd::utf8::valid_utf8;
use crate::address::Key;

verus! {

/// Width of the type discriminator that opens the layout.
pub const DISCRIMINATOR_LEN: usize = 8;

/// Width of the owner key.
pub const OWNER_LEN: usize = 32;

/// Width of the name's length prefix.
pub const LEN_PREFIX_LEN: usize = 4;

/// Longest name, in bytes: the name is a seed of the record's address, and
/// the runtime takes no seed longer than this.
pub const MAX_NAME_LEN: usize = 32;

/// A stored movie entry.
#[derive(Clone, Debug)]
pub struct Movie {
    pub owner: Key,
    pub movie_name: String,
}

/// The bytes a slot needs to hold a record whose name has `name_len` bytes.
pub open spec fn space_for(name_len: nat) -> nat {
    (DISCRIMINATOR_LEN + OWNER_LEN + LEN_PREFIX_LEN + name_len) as nat
}

/// The number of bytes to allocate for a record named `movie_name`.
pub fn movie_space(movie_name: &str) -> (r: usize)
    requires
        encode_utf8(movie_name@).len() + DISCRIMINATOR_LEN + OWNER_LEN + LEN_PREFIX_LEN <= usize::MAX,
    ensures
        r == space_for(encode_utf8(movie_name@).len()),
{
    DISCRIMINATOR_LEN + OWNER_LEN + LEN_PREFIX_LEN + movie_name.as_bytes().len()
}

/// The SHA-256 digest of a byte string.
pub uninterp spec fn sha256_of(data: Seq<u8>) -> Seq<u8>;

/// Relies on solana_program's `hash::hash`: the SHA-256 digest of `data`.
#[verifier::external_body]
fn sha256(data: &[u8]) -> (r: [u8; 32])
    ensures
        r@ == sha256_of(data@),
{
    anchor_lang::solana_program::hash::hash(data).to_bytes()
}

/// The preimage of the discriminator: "account:Movie".
pub open spec fn discriminator_preimage() -> Seq<u8> {
    seq![97u8, 99u8, 99u8, 111u8, 117u8, 110u8, 116u8, 58u8, 77u8, 111u8, 118u8, 105u8, 101u8]
}

/// The discriminator: the first eight bytes of the preimage's digest.
pub open spec fn movie_discriminator_of() -> Seq<u8> {
    Seq::new(DISCRIMINATOR_LEN as nat, |i: int| sha256_of(discriminator_preimage())[i])
}

/// Computes the discriminator that marks a slot as holding a movie record.
pub fn movie_discriminator() -> (r: Vec<u8>)
    ensures
        r@ == movie_discriminator_of(),
{
    let pre: Vec<u8> = vec![97u8, 99u8, 99u8, 111u8, 117u8, 110u8, 116u8, 58u8, 77u8, 111u8, 118u8, 105u8, 101u8];
    assert(pre@ =~= discriminator_preimage());
    let digest = sha256(pre.as_slice());
    let mut r: Vec<u8> = Vec::new();
    let mut i: usize = 0;
    while i < DISCRIMINATOR_LEN
        invariant
            0 <= i <= DISCRIMINATOR_LEN,
            digest@.len() == 32,
            digest@ == sha256_of(discriminator_preimage()),
            r@ =~= digest@.subrange(0, i as int),
        decreases DISCRIMINATOR_LEN - i,
    {
        r.push(digest[i]);
        i = i + 1;
    }
    assert(r@ =~= movie_discriminator_of());
    r
}

/// The four little-endian bytes of `n`.
pub open spec fn le_u32(n: nat) -> Seq<u8> {
    seq![(n % 256) as u8, ((n / 256) % 256) as u8, ((n / 65536) % 256) as u8, ((n / 16777216) % 256) as u8]
}

/// The bytes of a record with this owner and these name bytes.
pub open spec fn movie_layout(owner: Seq<u8>, name: Seq<u8>) -> Seq<u8> {
    movie_discriminator_of() + owner + le_u32(name.len()) + name
}

/// Whether `data` is the layout of some record whose name is text.
pub open spec fn is_movie_layout(data: Seq<u8>) -> bool {
    exists|owner: Seq<u8>, name: Seq<char>|
        owner.len() == OWNER_LEN && encode_utf8(name).len() <= u32::MAX
            && #[trigger] movie_layout(owner, encode_utf8(name)) == data
}

fn push_le_u32(out: &mut Vec<u8>, n: u32)
    ensures
        final(out)@ == old(out)@ + le_u32(n as nat),
{
    out.push((n % 256) as u8);
    out.push(((n / 256) % 256) as u8);
    out.push(((n / 65536) % 256) as u8);
    out.push(((n / 16777216) % 256) as u8);
    assert(final(out)@ =~= old(out)@ + le_u32(n as nat));
}

fn push_all(out: &mut Vec<u8>, src: &[u8])
    ensures
        final(out)@ == old(out)@ + src@,
{
    let mut i: usize = 0;
    while i < src.len()
        invariant
            0 <= i <= src@.len(),
            out@ =~= old(out)@ + src@.subrange(0, i as int),
        decreases src@.len() - i,
    {
        out.push(src[i]);
        i = i + 1;
    }
    assert(src@.subrange(0, src@.len() as int) =~= src@);
}

/// Lays out a record as it is stored in its slot.
pub fn encode_movie(movie: &Movie) -> (r: Vec<u8>)
    requires
        encode_utf8(movie.movie_name@).len() <= u32::MAX,
    ensures
        r@ == movie_layout(movie.owner@, encode_utf8(movie.movie_name@)),
        r@.len() == space_for(encode_utf8(movie.movie_name@).len()),
{
    let mut r = movie_discriminator();
    push_all(&mut r, movie.owner.bytes.as_slice());
    let name = movie.movie_name.as_str().as_bytes();
    push_le_u32(&mut r, name.len() as u32);
    push_all(&mut r, name);
    r
}

/// Relies on `String::from_utf8`: it succeeds exactly on valid UTF-8, and
/// the string then holds those bytes.
#[verifier::external_body]
fn string_from_utf8(bytes: Vec<u8>) -> (r: Option<String>)
    ensures
        r is Some <==> valid_utf8(bytes@),
        r matches Some(s) ==> encode_utf8(s@) == bytes@,
{
    String::from_utf8(bytes).ok()
}

/// Reads a record back from a slot's bytes; `None` when they are not the
/// layout of a record.
pub fn decode_movie(data: &[u8]) -> (r: Option<Movie>)
    ensures
        r is Some <==> is_movie_layout(data@),
        r matches Some(m) ==> data@ == movie_layout(m.owner@, encode_utf8(m.movie_name@)),
{
    let head: usize = DISCRIMINATOR_LEN + OWNER_LEN + LEN_PREFIX_LEN;
    if data.len() < head || data.len() - head > u32::MAX as usize {
        proof {
            if is_movie_layout(data@) {
                let (o, n) = choose|o: Seq<u8>, n: Seq<char>|
                    o.len() == OWNER_LEN && encode_utf8(n).len() <= u32::MAX
                        && #[trigger] movie_layout(o, encode_utf8(n)) == data@;
                lemma_layout_parts(o, encode_utf8(n));
            }
        }
        return None;
    }
    let name_len: u32 = (data.len() - head) as u32;
    let mut expected = movie_discriminator();
    let mut owner: [u8; 32] = [0u8; 32];
    let mut i: usize = 0;
    while i < 32
        invariant
            0 <= i <= 32,
            data@.len() >= head,
            head == 44,
            owner@.len() == 32,
            forall|j: int| 0 <= j < i ==> owner@[j] == data@[DISCRIMINATOR_LEN + j],
        decreases 32 - i,
    {
        owner[i] = data[DISCRIMINATOR_LEN + i];
        i = i + 1;
    }
    let ghost owner_bytes = owner@;
    assert(owner_bytes =~= data@.subrange(DISCRIMINATOR_LEN as int, (DISCRIMINATOR_LEN + OWNER_LEN) as int));
    push_all(&mut expected, owner.as_slice());
    push_le_u32(&mut expected, name_len);
    let mut same = true;
    let mut k: usize = 0;
    while k < head
        invariant
            0 <= k <= head,
            head == 44,
            data@.len() >= head,
            expected@.len() == head,
            same == (forall|j: int| 0 <= j < k ==> expected@[j] == data@[j]),
        decreases head - k,
    {
        if expected[k] != data[k] {
            same = false;
        }
        k = k + 1;
    }
    let mut name: Vec<u8> = Vec::new();
    let mut n: usize = head;
    while n < data.len()
        invariant
            head <= n <= data@.len(),
            name@ =~= data@.subrange(head as int, n as int),
        decreases data@.len() - n,
    {
        name.push(data[n]);
        n = n + 1;
    }
    let ghost name_bytes = name@;
    assert(expected@ == movie_discriminator_of() + owner_bytes + le_u32(name_bytes.len()));
    if !same {
        proof {
            if is_movie_layout(data@) {
                let (o, t) = choose|o: Seq<u8>, t: Seq<char>|
                    o.len() == OWNER_LEN && encode_utf8(t).len() <= u32::MAX
                        && #[trigger] movie_layout(o, encode_utf8(t)) == data@;
                lemma_layout_parts(o, encode_utf8(t));
                assert(o =~= owner_bytes);
                assert(expected@ =~= data@.subrange(0, 44));
            }
        }
        return None;
    }
    assert(data@ =~= expected@ + name_bytes);
    assert(data@ == movie_layout(owner_bytes, name_bytes));
    match string_from_utf8(name) {
        Some(s) => {
            assert(movie_layout(owner_bytes, encode_utf8(s@)) == data@);
            Some(Movie { owner: Key { bytes: owner }, movie_name: s })
        },
        None => {
            proof {
                if is_movie_layout(data@) {
                    let (o, t) = choose|o: Seq<u8>, t: Seq<char>|
                        o.len() == OWNER_LEN && encode_utf8(t).len() <= u32::MAX
                            && #[trigger] movie_layout(o, encode_utf8(t)) == data@;
                    lemma_layout_parts(o, encode_utf8(t));
                    lemma_layout_parts(owner_bytes, name_bytes);
                    vstd::utf8::encode_utf8_valid_utf8(t);
                }
            }
            None
        },
    }
}

/// The layout splits back into its four fields.
pub proof fn lemma_layout_parts(owner: Seq<u8>, name: Seq<u8>)
    requires
        owner.len() == OWNER_LEN,
    ensures
        movie_layout(owner, name).len() == space_for(name.len()),
        movie_layout(owner, name).subrange(0, 8) == movie_discriminator_of(),
        movie_layout(owner, name).subrange(8, 40) == owner,
        movie_layout(owner, name).subrange(40, 44) == le_u32(name.len()),
        movie_layout(owner, name).subrange(0, 44) == movie_discriminator_of() + owner + le_u32(name.len()),
        movie_layout(owner, name).subrange(44, movie_layout(owner, name).len() as int) == name,
{
    let d = movie_layout(owner, name);
    assert(d.subrange(0, 8) =~= movie_discriminator_of());
    assert(d.subrange(8, 40) =~= owner);
    assert(d.subrange(40, 44) =~= le_u32(name.len()));
    assert(d.subrange(0, 44) =~= movie_discriminator_of() + owner + le_u32(name.len()));
    assert(d.subrange(44, d.len() as int) =~= name);
}

} // verus!
