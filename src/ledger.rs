//! Storage slots keyed by address. A slot is created once, funded by a payer,
//! with a fixed size; a write must fill it exactly.
use vstd::prelude::*;
use crate::address::Key;
use crate::record::{Movie, decode_movie, is_movie_layout, movie_layout};
use vstd::utf8::encode_utf8;

verus! {

/// Why an operation on the store failed.
#[derive(Clone, Copy, Debug, PartialEq, Eq, Structural)]
pub enum MovieError {
    /// A slot already exists at the address.
    SlotAlreadyExists,
    /// The payer has no slot, or too few lamports for the allocation.
    InsufficientFunds,
    /// The supplied address is not the one derived from owner and name.
    InvalidAddressDerivation,
    /// The name is longer than the runtime permits.
    NameTooLong,
    /// The bytes written do not have the size the slot was allocated with.
    SizeMismatch,
    /// No slot exists at the address.
    AccountNotFound,
}

/// One storage slot.
#[derive(Debug)]
pub struct Slot {
    pub address: Key,
    pub lamports: u64,
    pub data: Vec<u8>,
}

/// What a slot holds, as plain values.
pub struct SlotView {
    pub address: Seq<u8>,
    pub lamports: u64,
    pub data: Seq<u8>,
}

impl View for Slot {
    type V = SlotView;

    open spec fn view(&self) -> SlotView {
        SlotView { address: self.address@, lamports: self.lamports, data: self.data@ }
    }
}

/// The store: every slot that exists, each at its own address.
#[derive(Debug)]
pub struct Ledger {
    pub slots: Vec<Slot>,
}

impl View for Ledger {
    type V = Seq<SlotView>;

    open spec fn view(&self) -> Seq<SlotView> {
        self.slots@.map_values(|s: Slot| s@)
    }
}

/// No two slots share an address.
pub open spec fn unique_addresses(slots: Seq<SlotView>) -> bool {
    forall|i: int, j: int|
        0 <= i < slots.len() && 0 <= j < slots.len() && i != j ==> slots[i].address != slots[j].address
}

/// Whether a slot exists at `a`.
pub open spec fn occupied(slots: Seq<SlotView>, a: Seq<u8>) -> bool {
    exists|i: int| 0 <= i < slots.len() && slots[i].address == a
}

/// The position of the slot at `a`, when one exists.
pub open spec fn slot_index(slots: Seq<SlotView>, a: Seq<u8>) -> int {
    choose|i: int| 0 <= i < slots.len() && slots[i].address == a
}

/// Whether the slot at `payer` holds at least `amount` lamports.
pub open spec fn can_pay(slots: Seq<SlotView>, payer: Seq<u8>, amount: u64) -> bool {
    occupied(slots, payer) && slots[slot_index(slots, payer)].lamports >= amount
}

/// The outcome of creating a slot at `address`, paid by `payer`.
pub open spec fn create_outcome(slots: Seq<SlotView>, payer: Seq<u8>, address: Seq<u8>, lamports: u64) -> Result<(), MovieError> {
    if occupied(slots, address) {
        Err(MovieError::SlotAlreadyExists)
    } else if !can_pay(slots, payer, lamports) {
        Err(MovieError::InsufficientFunds)
    } else {
        Ok(())
    }
}

/// The slots after a successful creation: the payer is charged, and the new
/// slot, holding `data`, comes last.
pub open spec fn after_create(slots: Seq<SlotView>, payer: Seq<u8>, address: Seq<u8>, lamports: u64, data: Seq<u8>) -> Seq<SlotView> {
    let p = slot_index(slots, payer);
    slots.update(p, SlotView { lamports: (slots[p].lamports - lamports) as u64, ..slots[p] }).push(
        SlotView { address, lamports, data },
    )
}

/// The outcome of writing `bytes` into the slot at `address`.
pub open spec fn write_outcome(slots: Seq<SlotView>, address: Seq<u8>, bytes: Seq<u8>) -> Result<(), MovieError> {
    if !occupied(slots, address) {
        Err(MovieError::AccountNotFound)
    } else if slots[slot_index(slots, address)].data.len() != bytes.len() {
        Err(MovieError::SizeMismatch)
    } else {
        Ok(())
    }
}

/// The slots after a successful write.
pub open spec fn after_write(slots: Seq<SlotView>, address: Seq<u8>, bytes: Seq<u8>) -> Seq<SlotView> {
    let i = slot_index(slots, address);
    slots.update(i, SlotView { data: bytes, ..slots[i] })
}

/// The bytes of the slot at `a`.
pub open spec fn stored_data(slots: Seq<SlotView>, a: Seq<u8>) -> Seq<u8> {
    slots[slot_index(slots, a)].data
}

/// With unique addresses, a slot found at `a` is the one `slot_index` names.
pub proof fn lemma_slot_index(slots: Seq<SlotView>, a: Seq<u8>, i: int)
    requires
        unique_addresses(slots),
        0 <= i < slots.len(),
        slots[i].address == a,
    ensures
        slot_index(slots, a) == i,
{
}

/// A creation at a free address keeps addresses unique and puts the new
/// slot, holding `data`, at the end.
pub proof fn lemma_after_create(slots: Seq<SlotView>, payer: Seq<u8>, address: Seq<u8>, lamports: u64, data: Seq<u8>)
    requires
        unique_addresses(slots),
        create_outcome(slots, payer, address, lamports) is Ok,
    ensures
        unique_addresses(after_create(slots, payer, address, lamports, data)),
        occupied(after_create(slots, payer, address, lamports, data), address),
        slot_index(after_create(slots, payer, address, lamports, data), address) == slots.len(),
        stored_data(after_create(slots, payer, address, lamports, data), address) == data,
{
    let after = after_create(slots, payer, address, lamports, data);
    assert forall|i: int| 0 <= i < slots.len() implies after[i].address == slots[i].address by {}
    assert(after[slots.len() as int].address == address);
    lemma_slot_index(after, address, slots.len() as int);
}

impl Ledger {
    pub open spec fn wf(&self) -> bool {
        unique_addresses(self@)
    }

    /// An empty store.
    pub fn new() -> (r: Ledger)
        ensures
            r.wf(),
            r@.len() == 0,
    {
        let r = Ledger { slots: Vec::new() };
        assert(r@ =~= Seq::<SlotView>::empty());
        r
    }

    /// Whether no two slots share an address.
    pub fn is_well_formed(&self) -> (r: bool)
        ensures
            r == self.wf(),
    {
        let n = self.slots.len();
        let mut i: usize = 0;
        while i < n
            invariant
                0 <= i <= n,
                n == self@.len(),
                forall|a: int, b: int| 0 <= a < i && 0 <= b < n && a != b ==> self@[a].address != self@[b].address,
            decreases n - i,
        {
            let mut j: usize = 0;
            while j < n
                invariant
                    0 <= i < n,
                    0 <= j <= n,
                    n == self@.len(),
                    forall|a: int, b: int| 0 <= a < i && 0 <= b < n && a != b ==> self@[a].address != self@[b].address,
                    forall|b: int| 0 <= b < j && b != i ==> self@[i as int].address != self@[b].address,
                decreases n - j,
            {
                assert(self@[i as int] == self.slots@[i as int]@);
                assert(self@[j as int] == self.slots@[j as int]@);
                if j != i && self.slots[i].address.same(&self.slots[j].address) {
                    return false;
                }
                j = j + 1;
            }
            i = i + 1;
        }
        true
    }

    /// The position of the slot at `a`, if there is one.
    pub fn find(&self, a: &Key) -> (r: Option<usize>)
        requires
            self.wf(),
        ensures
            r is Some <==> occupied(self@, a@),
            r matches Some(i) ==> i < self@.len() && i == slot_index(self@, a@),
    {
        let mut i: usize = 0;
        while i < self.slots.len()
            invariant
                0 <= i <= self@.len(),
                self.wf(),
                self@.len() == self.slots@.len(),
                forall|j: int| 0 <= j < i ==> self@[j].address != a@,
            decreases self.slots@.len() - i,
        {
            assert(self@[i as int] == self.slots@[i as int]@);
            if self.slots[i].address.same(a) {
                proof { lemma_slot_index(self@, a@, i as int); }
                return Some(i);
            }
            i = i + 1;
        }
        None
    }

    /// The lamports held at `a`, if a slot exists there.
    pub fn lamports(&self, a: &Key) -> (r: Option<u64>)
        requires
            self.wf(),
        ensures
            r is Some <==> occupied(self@, a@),
            r matches Some(l) ==> l == self@[slot_index(self@, a@)].lamports,
    {
        match self.find(a) {
            Some(i) => Some(self.slots[i].lamports),
            None => None,
        }
    }

    /// Credits `lamports` to the slot at `to`, creating an empty slot there if
    /// none exists. Returns false, changing nothing, when the balance would
    /// overflow.
    pub fn airdrop(&mut self, to: &Key, lamports: u64) -> (r: bool)
        requires
            old(self).wf(),
        ensures
            final(self).wf(),
            occupied(old(self)@, to@) ==> ({
                let i = slot_index(old(self)@, to@);
                let total = old(self)@[i].lamports + lamports;
                &&& r == (total <= u64::MAX)
                &&& r ==> final(self)@ == old(self)@.update(i, SlotView { lamports: total as u64, ..old(self)@[i] })
                &&& !r ==> final(self)@ == old(self)@
            }),
            !occupied(old(self)@, to@) ==> r && final(self)@ == old(self)@.push(
                SlotView { address: to@, lamports, data: Seq::empty() },
            ),
    {
        match self.find(to) {
            Some(i) => {
                if self.slots[i].lamports > u64::MAX - lamports {
                    return false;
                }
                let total = self.slots[i].lamports + lamports;
                self.slots[i].lamports = total;
                assert(self@ =~= old(self)@.update(i as int, SlotView { lamports: total, ..old(self)@[i as int] }));
                true
            },
            None => {
                self.slots.push(Slot { address: *to, lamports, data: Vec::new() });
                assert(self@ =~= old(self)@.push(SlotView { address: to@, lamports, data: Seq::empty() }));
                true
            },
        }
    }

    /// Creates a zero-filled slot of `space` bytes at `address`, moving
    /// `lamports` from the payer's slot into it. Fails if a slot already
    /// exists at `address`, or if the payer cannot cover `lamports`.
    pub fn create_account(&mut self, payer: &Key, address: &Key, space: usize, lamports: u64) -> (r: Result<(), MovieError>)
        requires
            old(self).wf(),
        ensures
            final(self).wf(),
            r == create_outcome(old(self)@, payer@, address@, lamports),
            r is Ok ==> final(self)@ == after_create(old(self)@, payer@, address@, lamports, Seq::new(space as nat, |i: int| 0u8)),
            r is Err ==> final(self)@ == old(self)@,
    {
        if self.find(address).is_some() {
            return Err(MovieError::SlotAlreadyExists);
        }
        let p = match self.find(payer) {
            Some(p) => p,
            None => {
                return Err(MovieError::InsufficientFunds);
            },
        };
        assert(self@[p as int] == self.slots@[p as int]@);
        if self.slots[p].lamports < lamports {
            return Err(MovieError::InsufficientFunds);
        }
        let mut data: Vec<u8> = Vec::new();
        let mut k: usize = 0;
        while k < space
            invariant
                0 <= k <= space,
                data@ =~= Seq::new(k as nat, |i: int| 0u8),
            decreases space - k,
        {
            data.push(0u8);
            k = k + 1;
        }
        let left = self.slots[p].lamports - lamports;
        self.slots[p].lamports = left;
        self.slots.push(Slot { address: *address, lamports, data });
        assert(self@ =~= after_create(old(self)@, payer@, address@, lamports, Seq::new(space as nat, |i: int| 0u8)));
        Ok(())
    }

    /// Writes `bytes` into the slot at `address`. The write must fill the
    /// slot exactly: any other size is refused.
    pub fn write_data(&mut self, address: &Key, bytes: Vec<u8>) -> (r: Result<(), MovieError>)
        requires
            old(self).wf(),
        ensures
            final(self).wf(),
            r == write_outcome(old(self)@, address@, bytes@),
            r is Ok ==> final(self)@ == after_write(old(self)@, address@, bytes@),
            r is Err ==> final(self)@ == old(self)@,
    {
        let i = match self.find(address) {
            Some(i) => i,
            None => {
                return Err(MovieError::AccountNotFound);
            },
        };
        if self.slots[i].data.len() != bytes.len() {
            return Err(MovieError::SizeMismatch);
        }
        let ghost b = bytes@;
        self.slots[i].data = bytes;
        assert(self@ =~= after_write(old(self)@, address@, b));
        Ok(())
    }

    /// Reads the record stored at `address`: `None` when no slot is there or
    /// its bytes are not a record's layout.
    pub fn read_movie(&self, address: &Key) -> (r: Option<Movie>)
        requires
            self.wf(),
        ensures
            r is Some <==> occupied(self@, address@) && is_movie_layout(stored_data(self@, address@)),
            r matches Some(m) ==> stored_data(self@, address@) == movie_layout(m.owner@, encode_utf8(m.movie_name@)),
    {
        match self.find(address) {
            Some(i) => decode_movie(self.slots[i].data.as_slice()),
            None => None,
        }
    }
}

} // verus!
