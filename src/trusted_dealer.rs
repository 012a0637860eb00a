//! Signing with shares that a trusted dealer handed out: the coordinator holds
//! every participant and runs both signing rounds in process.
use vstd::prelude::*;
use crate::primitives::{
    aggregate, commit, dealer_split, key_package_from_share, new_signing_package,
    same_participant, sign_share, unique_keys, verify_signature, aggregate_of, commitments_of,
    key_package_of, share_of, signature_valid, signing_package_of, CryptoError, Entries, KeyPackage,
    ParticipantId, PublicKeyPackage, SecretShare, Signature, SignatureShare, SigningCommitments,
    SigningNonces, SigningPackage,
};

verus! {

/// Why a signing run failed.
pub enum SignError {
    /// The primitives library refused its input.
    Crypto(CryptoError),
    /// The aggregated signature did not verify under the group key.
    VerificationFailure,
}

/// One signer: its key package and, between the two signing rounds, its nonces.
pub struct Participiant {
    pub id: ParticipantId,
    pub key_package: KeyPackage,
    pub nonces: Option<SigningNonces>,
}

impl Participiant {
    /// Checks `secret_share` and turns it into the participant's key package.
    pub fn new(id: ParticipantId, secret_share: SecretShare) -> (r: Result<Self, CryptoError>)
        ensures
            key_package_of(secret_share) matches Ok(k) ==> r matches Ok(p) && p.id == id
                && p.key_package == k && p.nonces is None,
            key_package_of(secret_share) matches Err(e) ==> r == Err::<Participiant, CryptoError>(e),
    {
        match key_package_from_share(secret_share) {
            Ok(key_package) => Ok(Participiant { id, key_package, nonces: None }),
            Err(e) => Err(e),
        }
    }

    /// Signing round 1: draws nonces, keeps them for round 2, and returns the
    /// commitments to them.
    pub fn round1(&mut self) -> (r: SigningCommitments)
        ensures
            final(self).id == old(self).id,
            final(self).key_package == old(self).key_package,
            final(self).nonces matches Some(n) && r == commitments_of(n),
    {
        let (nonces, commitments) = commit(&self.key_package);
        self.nonces = Some(nonces);
        commitments
    }

    /// Signing round 2: uses up the nonces of round 1 to sign `signing_package`.
    pub fn round2(&mut self, signing_package: &SigningPackage) -> (r: Result<
        SignatureShare,
        CryptoError,
    >)
        requires
            old(self).nonces is Some,
        ensures
            final(self).id == old(self).id,
            final(self).key_package == old(self).key_package,
            final(self).nonces is None,
            old(self).nonces matches Some(n) ==> r == share_of(
                *signing_package,
                n,
                old(self).key_package,
            ),
    {
        let nonces = self.nonces.take().unwrap();
        sign_share(signing_package, &nonces, &self.key_package)
    }
}

/// `k` is what a dealer's share turned into.
pub open spec fn converted_share(k: KeyPackage) -> bool {
    exists|share: SecretShare| #[trigger] key_package_of(share) == Ok::<KeyPackage, CryptoError>(k)
}

/// The identifiers of `ps`, as entries.
pub open spec fn ids(ps: Seq<Participiant>) -> Entries<()> {
    ps.map_values(|p: Participiant| (p.id, ()))
}

/// Signing round 1 over `ps`: `nonces[j]` are the nonces drawn for participant
/// `j`, and `commitments` holds, in participant order, each participant's
/// identifier with the commitments to its nonces.
pub open spec fn round1_run(
    ps: Seq<Participiant>,
    commitments: Seq<(ParticipantId, SigningCommitments)>,
    nonces: Seq<SigningNonces>,
) -> bool {
    &&& commitments.len() == ps.len()
    &&& nonces.len() == ps.len()
    &&& forall|j: int|
        0 <= j < ps.len() ==> #[trigger] commitments[j] == (ps[j].id, commitments_of(nonces[j]))
}

/// Signing round 2 over `ps`: `shares` holds, in participant order, each
/// participant's identifier with the share it computed from `package`, its own
/// nonces of round 1 and its key package.
pub open spec fn round2_run(
    ps: Seq<Participiant>,
    package: SigningPackage,
    nonces: Seq<SigningNonces>,
    shares: Seq<(ParticipantId, SignatureShare)>,
) -> bool {
    &&& shares.len() == ps.len()
    &&& forall|j: int|
        0 <= j < ps.len() ==> (#[trigger] shares[j]).0 == ps[j].id && share_of(
            package,
            nonces[j],
            ps[j].key_package,
        ) == Ok::<SignatureShare, CryptoError>(shares[j].1)
}

/// What a signing run of `coordinator` on `message` may return: a signature only when it
/// is the aggregate of one share per participant, each computed with that
/// participant's own round-1 nonces against the package of all commitments, and
/// valid under the group key; `VerificationFailure` only when that aggregate is
/// not valid; a `Crypto` error only when a share or the aggregation failed.
pub open spec fn sign_outcome(coordinator: Coordinator, message: Seq<u8>, r: Result<Signature, SignError>) -> bool {
    &&& (r matches Ok(sig) ==> signature_valid(coordinator.public_key_package, message, sig))
    &&& (r matches Ok(sig) ==> exists|
                c: Seq<(ParticipantId, SigningCommitments)>,
                n: Seq<SigningNonces>,
                s: Seq<(ParticipantId, SignatureShare)>,
            |
                #![trigger round1_run(coordinator.participiants@, c, n), round2_run(coordinator.participiants@, signing_package_of(c, message), n, s)]
                round1_run(coordinator.participiants@, c, n) && round2_run(
                    coordinator.participiants@,
                    signing_package_of(c, message),
                    n,
                    s,
                ) && aggregate_of(signing_package_of(c, message), s, coordinator.public_key_package)
                    == Ok::<Signature, CryptoError>(sig))
    &&& (r matches Err(SignError::VerificationFailure) ==> exists|
                c: Seq<(ParticipantId, SigningCommitments)>,
                n: Seq<SigningNonces>,
                s: Seq<(ParticipantId, SignatureShare)>,
                sig: Signature,
            |
                #![trigger round1_run(coordinator.participiants@, c, n), round2_run(coordinator.participiants@, signing_package_of(c, message), n, s), signature_valid(coordinator.public_key_package, message, sig)]
                round1_run(coordinator.participiants@, c, n) && round2_run(
                    coordinator.participiants@,
                    signing_package_of(c, message),
                    n,
                    s,
                ) && aggregate_of(signing_package_of(c, message), s, coordinator.public_key_package)
                    == Ok::<Signature, CryptoError>(sig) && !signature_valid(
                    coordinator.public_key_package,
                    message,
                    sig,
                ))
    &&& (r matches Err(SignError::Crypto(e)) ==> exists|
                c: Seq<(ParticipantId, SigningCommitments)>,
                n: Seq<SigningNonces>,
            |
                #![trigger round1_run(coordinator.participiants@, c, n)]
                round1_run(coordinator.participiants@, c, n) && ((exists|j: int|
                    0 <= j < coordinator.participiants@.len() && share_of(
                        signing_package_of(c, message),
                        n[j],
                        (#[trigger] coordinator.participiants@[j]).key_package,
                    ) == Err::<SignatureShare, CryptoError>(e)) || (exists|
                    s: Seq<(ParticipantId, SignatureShare)>,
                |
                    #![trigger round2_run(coordinator.participiants@, signing_package_of(c, message), n, s)]
                    round2_run(coordinator.participiants@, signing_package_of(c, message), n, s)
                        && aggregate_of(signing_package_of(c, message), s, coordinator.public_key_package)
                        == Err::<Signature, CryptoError>(e))))
}

/// The group's public key package and every participant.
pub struct Coordinator {
    pub public_key_package: PublicKeyPackage,
    pub participiants: Vec<Participiant>,
}

impl Coordinator {
    /// The participants have distinct identifiers and hold no nonces.
    pub open spec fn wf(&self) -> bool {
        &&& unique_keys(ids(self.participiants@))
        &&& forall|i: int|
            0 <= i < self.participiants@.len() ==> (#[trigger] self.participiants@[i]).nonces is None
    }

    /// Has the dealer split a fresh secret into `max_signers` shares, any
    /// `min_signers` of which can sign.
    pub fn generate(max_signers: u16, min_signers: u16) -> (r: Result<Self, CryptoError>)
        ensures
            min_signers < 2 || max_signers < 2 || min_signers > max_signers ==> r is Err,
            2 <= min_signers <= max_signers ==> r is Ok,
            r matches Ok(c) ==> c.wf() && c.participiants@.len() == max_signers,
            r matches Ok(c) ==> forall|j: int|
                0 <= j < c.participiants@.len() ==> converted_share(
                    (#[trigger] c.participiants@[j]).key_package,
                ),
    {
        match dealer_split(max_signers, min_signers) {
            Ok((mut shares, public_key_package)) => {
                let ghost all = shares@;
                let n = shares.len();
                let mut participiants: Vec<Participiant> = Vec::new();
                let mut i: usize = 0;
                while i < n
                    invariant
                        n == all.len(),
                        0 <= i <= n,
                        unique_keys(all),
                        forall|j: int|
                            0 <= j < all.len() ==> key_package_of((#[trigger] all[j]).1) is Ok,
                        shares@ == all.subrange(i as int, n as int),
                        participiants@.len() == i,
                        forall|j: int|
                            0 <= j < i ==> (#[trigger] participiants@[j]).id == all[j].0
                                && participiants@[j].nonces is None
                                && key_package_of(all[j].1) == Ok::<KeyPackage, CryptoError>(
                                participiants@[j].key_package,
                            ),
                    decreases n - i,
                {
                    let (id, share) = shares.remove(0);
                    let ghost sh = share;
                    match Participiant::new(id, share) {
                        Ok(p) => {
                            proof {
                                if key_package_of(sh) is Err {
                                    assert(false);
                                }
                            }
                            participiants.push(p);
                        },
                        Err(e) => {
                            proof {
                                assert(sh == all[i as int].1);
                            }
                            return Err(e);
                        },
                    }
                    i += 1;
                }
                let c = Coordinator { public_key_package, participiants };
                assert forall|j: int| 0 <= j < c.participiants@.len() implies converted_share(
                    (#[trigger] c.participiants@[j]).key_package,
                ) by {
                    assert(key_package_of(all[j].1) == Ok::<KeyPackage, CryptoError>(
                        c.participiants@[j].key_package,
                    ));
                }
                assert forall|a: int, b: int| 0 <= a < b < ids(c.participiants@).len() implies (
                #[trigger] ids(c.participiants@)[a]).0 != (#[trigger] ids(c.participiants@)[b]).0 by {
                    assert(all[a].0 != all[b].0);
                }
                Ok(c)
            },
            Err(e) => Err(e),
        }
    }

    /// Builds a coordinator from key packages that a DKG produced; `None` where
    /// two of them share an identifier.
    pub fn from_key_packages(
        public_key_package: PublicKeyPackage,
        key_packages: Vec<(ParticipantId, KeyPackage)>,
    ) -> (r: Option<Self>)
        ensures
            r is Some <==> unique_keys(key_packages@),
            r matches Some(c) ==> c.wf() && ids(c.participiants@) == key_packages@.map_values(
                |e: (ParticipantId, KeyPackage)| (e.0, ()),
            ),
    {
        let ghost all = key_packages@;
        let mut rest = key_packages;
        let n = rest.len();
        let mut participiants: Vec<Participiant> = Vec::new();
        let mut i: usize = 0;
        while i < n
            invariant
                all == key_packages@,
                n == all.len(),
                0 <= i <= n,
                rest@ == all.subrange(i as int, n as int),
                participiants@.len() == i,
                forall|j: int|
                    0 <= j < i ==> (#[trigger] participiants@[j]).id == all[j].0
                        && participiants@[j].nonces is None,
                forall|a: int, b: int| 0 <= a < b < i ==> (#[trigger] all[a]).0 != (#[trigger] all[b]).0,
            decreases n - i,
        {
            let (id, key_package) = rest.remove(0);
            let mut j: usize = 0;
            while j < i
                invariant
                    0 <= j <= i < n,
                    all == key_packages@,
                    n == all.len(),
                    id == all[i as int].0,
                    participiants@.len() == i,
                    forall|k: int| 0 <= k < i ==> (#[trigger] participiants@[k]).id == all[k].0,
                    forall|k: int| 0 <= k < j ==> (#[trigger] all[k]).0 != id,
                decreases i - j,
            {
                if same_participant(&participiants[j].id, &id) {
                    proof {
                        assert(all[j as int].0 == all[i as int].0);
                        assert(!unique_keys(all));
                    }
                    return None;
                }
                j += 1;
            }
            participiants.push(Participiant { id, key_package, nonces: None });
            i += 1;
        }
        let c = Coordinator { public_key_package, participiants };
        assert(ids(c.participiants@) =~= all.map_values(|e: (ParticipantId, KeyPackage)| (e.0, ())));
        Some(c)
    }

    /// Runs both signing rounds over every participant, aggregates the shares
    /// and checks the group signature against `message`.
    pub fn sign(self, message: &[u8]) -> (r: Result<Signature, SignError>)
        requires
            self.wf(),
        ensures
            sign_outcome(self, message@, r),
            r matches Ok(sig) ==> signature_valid(self.public_key_package, message@, sig),
    {
        let ghost all = self.participiants@;
        let ghost m = message@;
        let public_key_package = self.public_key_package;
        let mut pending = self.participiants;
        let n = pending.len();
        let mut committed: Vec<Participiant> = Vec::new();
        let mut commitments: Vec<(ParticipantId, SigningCommitments)> = Vec::new();
        let ghost mut nonces: Seq<SigningNonces> = Seq::empty();
        let mut i: usize = 0;
        while i < n
            invariant
                n == all.len(),
                all == self.participiants@,
                0 <= i <= n,
                pending@ == all.subrange(i as int, n as int),
                committed@.len() == i,
                commitments@.len() == i,
                nonces.len() == i,
                forall|j: int|
                    0 <= j < i ==> (#[trigger] committed@[j]).id == all[j].id
                        && committed@[j].key_package == all[j].key_package
                        && committed@[j].nonces == Some(nonces[j])
                        && commitments@[j] == (all[j].id, commitments_of(nonces[j])),
            decreases n - i,
        {
            let mut p = pending.remove(0);
            let c = p.round1();
            proof {
                nonces = nonces.push(p.nonces->Some_0);
            }
            commitments.push((p.id.clone(), c));
            committed.push(p);
            i += 1;
        }
        let ghost cs = commitments@;
        assert forall|j: int| 0 <= j < n implies #[trigger] cs[j] == (all[j].id, commitments_of(nonces[j])) by {
            assert(committed@[j].id == all[j].id);
        }
        assert(round1_run(all, cs, nonces));
        assert forall|a: int, b: int| 0 <= a < b < commitments@.len() implies (
        #[trigger] commitments@[a]).0 != (#[trigger] commitments@[b]).0 by {
            assert(commitments@[a] == (all[a].id, commitments_of(nonces[a])));
            assert(commitments@[b] == (all[b].id, commitments_of(nonces[b])));
            assert(ids(all)[a].0 != ids(all)[b].0);
        }
        let signing_package = new_signing_package(commitments, message);
        let ghost sp = signing_package_of(cs, m);
        let mut shares: Vec<(ParticipantId, SignatureShare)> = Vec::new();
        let mut i: usize = 0;
        while i < n
            invariant
                n == all.len(),
                0 <= i <= n,
                nonces.len() == n,
                signing_package == sp,
                all == self.participiants@,
                m == message@,
                round1_run(all, cs, nonces),
                sp == signing_package_of(cs, m),
                committed@.len() == n - i,
                shares@.len() == i,
                forall|j: int|
                    0 <= j < n - i ==> (#[trigger] committed@[j]).id == all[j + i].id
                        && committed@[j].key_package == all[j + i].key_package
                        && committed@[j].nonces == Some(nonces[j + i]),
                forall|j: int|
                    0 <= j < i ==> (#[trigger] shares@[j]).0 == all[j].id && share_of(
                        sp,
                        nonces[j],
                        all[j].key_package,
                    ) == Ok::<SignatureShare, CryptoError>(shares@[j].1),
            decreases n - i,
        {
            let mut p = committed.remove(0);
            match p.round2(&signing_package) {
                Ok(share) => shares.push((p.id.clone(), share)),
                Err(e) => {
                    assert(share_of(sp, nonces[i as int], all[i as int].key_package) == Err::<
                        SignatureShare,
                        CryptoError,
                    >(e));
                    assert(all[i as int] == self.participiants@[i as int]);
                    return Err(SignError::Crypto(e));
                },
            }
            i += 1;
        }
        assert(round2_run(all, sp, nonces, shares@));
        assert forall|a: int, b: int| 0 <= a < b < shares@.len() implies (
        #[trigger] shares@[a]).0 != (#[trigger] shares@[b]).0 by {
            assert(ids(all)[a].0 != ids(all)[b].0);
        }
        let ghost ss = shares@;
        match aggregate(&signing_package, shares, &public_key_package) {
            Ok(signature) => {
                let valid = verify_signature(&public_key_package, message, &signature);
                accept_signature(valid, signature)
            },
            Err(e) => Err(SignError::Crypto(e)),
        }
    }
}

/// The outcome of a signing run whose aggregated signature did or did not verify.
pub fn accept_signature(valid: bool, signature: Signature) -> (r: Result<Signature, SignError>)
    ensures
        valid ==> r == Ok::<Signature, SignError>(signature),
        !valid ==> r matches Err(SignError::VerificationFailure),
{
    if valid {
        Ok(signature)
    } else {
        Err(SignError::VerificationFailure)
    }
}

/// Splits a fresh secret among `max_signers` participants with threshold
/// `min_signers` and signs `message` with all of them. With valid counts the
/// dealer always succeeds, and the outcome is that of `Coordinator::sign` on the
/// coordinator it made: a signature returned verifies under that dealer's key.
pub fn sign(message: &[u8], max_signers: u16, min_signers: u16) -> (r: Result<Signature, SignError>)
    ensures
        min_signers < 2 || max_signers < 2 || min_signers > max_signers ==> r matches Err(
            SignError::Crypto(_),
        ),
        r matches Ok(sig) ==> exists|c: Coordinator|
            #![trigger sign_outcome(c, message@, r)]
            c.wf() && c.participiants@.len() == max_signers && signature_valid(
                c.public_key_package,
                message@,
                sig,
            ) && sign_outcome(c, message@, r),
        2 <= min_signers <= max_signers ==> exists|c: Coordinator|
            #![trigger sign_outcome(c, message@, r)]
            c.wf() && c.participiants@.len() == max_signers && sign_outcome(c, message@, r),
{
    match Coordinator::generate(max_signers, min_signers) {
        Ok(coordinator) => {
            let ghost c = coordinator;
            let r = coordinator.sign(message);
            proof {
                assert(sign_outcome(c, message@, r));
            }
            r
        },
        Err(e) => Err(SignError::Crypto(e)),
    }
}

} // verus!
