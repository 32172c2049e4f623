use vstd::prelude::*;

use crate::address::{event_address, event_address_of, found_view};
use crate::errors::ErrorCode;
use crate::instructions::{claim, init_event};
use crate::instructions::init_event::is_new_record;
use crate::states::bitmap::{byte_of, claim_outcome};
use crate::states::event_register::Event;

verus! {

/// The batch records of one program, each stored at the address derived from
/// its issuer and nonce.
pub struct Registry {
    /// Id of the program under which addresses are derived.
    pub program_id: [u8; 32],
    /// `addresses[i]` is the address of `events[i]`.
    pub addresses: Vec<[u8; 32]>,
    pub events: Vec<Event>,
}

impl Registry {
    /// The stored addresses, as byte sequences.
    pub open spec fn keys(&self) -> Seq<Seq<u8>> {
        self.addresses@.map_values(|a: [u8; 32]| a@)
    }

    /// One record per address, no address twice, and each record stored at the
    /// address derived from its issuer and nonce, with that derivation's bump.
    pub open spec fn wf(&self) -> bool {
        &&& self.addresses@.len() == self.events@.len()
        &&& forall|i: int, j: int|
            0 <= i < j < self.keys().len() ==> self.keys()[i] != self.keys()[j]
        &&& forall|i: int|
            0 <= i < self.events@.len() ==> event_address_of(
                self.program_id@,
                #[trigger] self.events@[i].issuer@,
                self.events@[i].unique_key,
            ) == Some((self.keys()[i], self.events@[i].bump))
    }

    /// Address and bump seed of the record of `issuer` and `nonce`.
    pub open spec fn address_of(&self, issuer: Seq<u8>, nonce: u64) -> Option<(Seq<u8>, u8)> {
        event_address_of(self.program_id@, issuer, nonce)
    }

    /// Position of the record of `issuer` and `nonce`, if one is stored.
    pub open spec fn find(&self, issuer: Seq<u8>, nonce: u64) -> Option<int> {
        match self.address_of(issuer, nonce) {
            Some((a, _)) => if self.keys().contains(a) {
                Some(self.keys().index_of(a))
            } else {
                None
            },
            None => None,
        }
    }

    /// Why creating a record for `issuer` and `nonce` is refused, if it is.
    pub open spec fn creation_refused(&self, issuer: Seq<u8>, nonce: u64) -> Option<ErrorCode> {
        match self.address_of(issuer, nonce) {
            Some((a, _)) => if self.keys().contains(a) {
                Some(ErrorCode::AddressCollision)
            } else {
                None
            },
            None => Some(ErrorCode::NoViableAddress),
        }
    }

    /// `next` is this registry with one record added at the address of
    /// `issuer` and `nonce`.
    pub open spec fn creates(&self, next: &Registry, issuer: Seq<u8>, nonce: u64) -> bool {
        &&& self.address_of(issuer, nonce) is Some
        &&& next.program_id == self.program_id
        &&& next.keys() == self.keys().push((self.address_of(issuer, nonce)->0).0)
        &&& next.events@.len() == self.events@.len() + 1
        &&& next.events@.drop_last() == self.events@
    }

    /// An empty registry for the program `program_id`.
    pub fn new(program_id: [u8; 32]) -> (r: Registry)
        ensures
            r.wf(),
            r.program_id == program_id,
            r.events@.len() == 0,
    {
        Registry { program_id, addresses: Vec::new(), events: Vec::new() }
    }

    /// Creates the batch record of `issuer` and `nonce` at the address derived
    /// from them, created at `now`, with no certificate issued.
    ///
    /// Fails with `AddressCollision`, and changes nothing, where a record
    /// already stands at that address.
    pub fn init_event(
        &mut self,
        issuer: [u8; 32],
        unique_key: u64,
        event_name: String,
        event_id: u64,
        batch_size: u32,
        bit_map: Vec<u8>,
        merkle_root: [u8; 32],
        metadata_uri: String,
        template_uri: String,
        merkle_proof_uri: String,
        now: i64,
    ) -> (r: Result<(), ErrorCode>)
        requires
            old(self).wf(),
        ensures
            final(self).wf(),
            match old(self).creation_refused(issuer@, unique_key) {
                Some(e) => r == Err::<(), ErrorCode>(e) && *final(self) == *old(self),
                None => {
                    &&& r is Ok
                    &&& old(self).creates(&*final(self), issuer@, unique_key)
                    &&& is_new_record(
                        &final(self).events@.last(),
                        issuer,
                        unique_key,
                        event_name@,
                        event_id,
                        batch_size,
                        bit_map@,
                        merkle_root,
                        metadata_uri@,
                        template_uri@,
                        merkle_proof_uri@,
                        now,
                        (old(self).address_of(issuer@, unique_key)->0).1,
                    )
                },
            },
    {
        let (key, bump) = match event_address(&self.program_id, &issuer, unique_key) {
            Some(found) => found,
            None => {
                return Err(ErrorCode::NoViableAddress);
            },
        };
        if self.position(&key).is_some() {
            return Err(ErrorCode::AddressCollision);
        }
        let event = init_event::handler(
            issuer,
            unique_key,
            event_name,
            event_id,
            batch_size,
            bit_map,
            merkle_root,
            metadata_uri,
            template_uri,
            merkle_proof_uri,
            now,
            bump,
        );
        let ghost before = *self;
        self.addresses.push(key);
        self.events.push(event);
        assert(self.keys() =~= before.keys().push(key@));
        assert(self.events@.drop_last() =~= before.events@);
        assert forall|i: int|
            0 <= i < self.events@.len() implies event_address_of(
            self.program_id@,
            #[trigger] self.events@[i].issuer@,
            self.events@[i].unique_key,
        ) == Some((self.keys()[i], self.events@[i].bump)) by {
            if i < before.events@.len() {
                assert(self.events@[i] == before.events@[i]);
                assert(self.keys()[i] == before.keys()[i]);
            }
        }
        Ok(())
    }

    /// The record of `issuer` and `nonce`, or `NotFound` where none is stored.
    pub fn lookup(&self, issuer: &[u8; 32], unique_key: u64) -> (r: Result<&Event, ErrorCode>)
        requires
            self.wf(),
        ensures
            match self.find(issuer@, unique_key) {
                Some(i) => r is Ok && *r->Ok_0 == self.events@[i],
                None => r == Err::<&Event, ErrorCode>(ErrorCode::NotFound),
            },
    {
        let key = match event_address(&self.program_id, issuer, unique_key) {
            Some(found) => found.0,
            None => {
                return Err(ErrorCode::NotFound);
            },
        };
        match self.position(&key) {
            Some(i) => Ok(&self.events[i]),
            None => Err(ErrorCode::NotFound),
        }
    }

    /// Claims certificate `cert_id` of the record of `issuer` and `nonce`.
    ///
    /// Fails with `NotFound` where no record is stored, and with
    /// `IndexOutOfRange` where the certificate's byte lies past the end of the
    /// record's bitmap; neither changes anything. Otherwise the record changes
    /// as one claim does, and no other record changes.
    pub fn claim(&mut self, issuer: [u8; 32], unique_key: u64, cert_id: u32) -> (r: Result<
        (),
        ErrorCode,
    >)
        requires
            old(self).wf(),
        ensures
            final(self).wf(),
            match old(self).find(issuer@, unique_key) {
                None => r == Err::<(), ErrorCode>(ErrorCode::NotFound) && *final(self)
                    == *old(self),
                Some(i) => if byte_of(cert_id) >= old(self).events@[i].bit_map@.len() {
                    r == Err::<(), ErrorCode>(ErrorCode::IndexOutOfRange) && *final(self)
                        == *old(self)
                } else {
                    &&& final(self).program_id == old(self).program_id
                    &&& final(self).addresses@ == old(self).addresses@
                    &&& final(self).events@.len() == old(self).events@.len()
                    &&& forall|j: int|
                        0 <= j < old(self).events@.len() && j != i ==> final(self).events@[j]
                            == old(self).events@[j]
                    &&& final(self).events@[i].same_but_claims(&old(self).events@[i])
                    &&& (final(self).events@[i].bit_map@, final(self).events@[i].issued_cert, r)
                        == claim_outcome(
                        old(self).events@[i].bit_map@,
                        old(self).events@[i].issued_cert,
                        cert_id,
                    )
                },
            },
    {
        let key = match event_address(&self.program_id, &issuer, unique_key) {
            Some(found) => found.0,
            None => {
                return Err(ErrorCode::NotFound);
            },
        };
        let i = match self.position(&key) {
            Some(i) => i,
            None => {
                return Err(ErrorCode::NotFound);
            },
        };
        if (cert_id / 8) as usize >= self.events[i].bit_map.len() {
            return Err(ErrorCode::IndexOutOfRange);
        }
        let ghost before = *self;
        let r = claim::handler(&mut self.events[i], cert_id);
        assert forall|j: int|
            0 <= j < self.events@.len() implies event_address_of(
            self.program_id@,
            #[trigger] self.events@[j].issuer@,
            self.events@[j].unique_key,
        ) == Some((self.keys()[j], self.events@[j].bump)) by {
            assert(before.events@[j].issuer == self.events@[j].issuer);
            assert(self.keys() == before.keys());
        }
        r
    }

    fn position(&self, key: &[u8; 32]) -> (r: Option<usize>)
        requires
            self.wf(),
        ensures
            match r {
                Some(i) => i < self.keys().len() && self.keys()[i as int] == key@
                    && self.keys().index_of(key@) == i,
                None => !self.keys().contains(key@),
            },
    {
        let mut i: usize = 0;
        while i < self.addresses.len()
            invariant
                self.wf(),
                i <= self.addresses@.len(),
                forall|j: int| 0 <= j < i ==> self.keys()[j] != key@,
            decreases self.addresses@.len() - i,
        {
            if same_key(&self.addresses[i], key) {
                assert(self.keys()[i as int] == key@);
                assert(self.keys().index_of(key@) == i) by {
                    self.keys().index_of_first(key@);
                }
                return Some(i);
            }
            i = i + 1;
        }
        None
    }
}

fn same_key(a: &[u8; 32], b: &[u8; 32]) -> (r: bool)
    ensures
        r == (a@ == b@),
{
    let mut i: usize = 0;
    while i < 32
        invariant
            i <= 32,
            forall|j: int| 0 <= j < i ==> a@[j] == b@[j],
        decreases 32 - i,
    {
        if a[i] != b[i] {
            return false;
        }
        i = i + 1;
    }
    assert(a@ =~= b@);
    true
}

/// Uniqueness of address: once a batch was created for an issuer and nonce,
/// every later creation for that pair is refused with `AddressCollision`,
/// which leaves the registry, and so the stored record, as it was.
pub proof fn lemma_address_is_unique(before: Registry, after: Registry, issuer: Seq<u8>, nonce: u64)
    requires
        before.wf(),
        before.creation_refused(issuer, nonce) is None,
        before.creates(&after, issuer, nonce),
    ensures
        after.creation_refused(issuer, nonce) == Some(ErrorCode::AddressCollision),
        after.find(issuer, nonce) == Some(before.events@.len() as int),
{
    let a = (before.address_of(issuer, nonce)->0).0;
    let n = before.keys().len() as int;
    assert(after.keys()[n] == a);
    after.keys().index_of_first(a);
    if after.keys().index_of(a) < n {
        assert(before.keys()[after.keys().index_of(a)] == a);
        assert(before.keys().contains(a));
    }
}

} // verus!
