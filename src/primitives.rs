//! Values of the FROST(ristretto255) primitives library, carried through the
//! protocol logic as opaque values, and the calls into that library.
use vstd::prelude::*;
use std::collections::BTreeMap;
use rand::RngCore;
use frost_ristretto255 as frost;

verus! {

/// The identifier of one participant of a session.
#[verifier::external_body]
pub struct ParticipantId {
    id: frost::Identifier,
}

/// The secret that a participant keeps between the first and second DKG round.
#[verifier::external_body]
pub struct Round1Secret {
    secret: frost::keys::dkg::round1::SecretPackage,
}

/// The package that a participant broadcasts in the first DKG round.
#[verifier::external_body]
pub struct Round1Package {
    package: frost::keys::dkg::round1::Package,
}

/// The secret that a participant keeps between the second and third DKG round.
#[verifier::external_body]
pub struct Round2Secret {
    secret: frost::keys::dkg::round2::SecretPackage,
}

/// The package that a participant sends to one peer in the second DKG round.
#[verifier::external_body]
pub struct Round2Package {
    package: frost::keys::dkg::round2::Package,
}

/// A participant's long-lived signing share.
#[verifier::external_body]
pub struct KeyPackage {
    key_package: frost::keys::KeyPackage,
}

/// The group's public verification material.
#[verifier::external_body]
pub struct PublicKeyPackage {
    public_key_package: frost::keys::PublicKeyPackage,
}

/// A share of the group secret as handed out by a trusted dealer.
#[verifier::external_body]
pub struct SecretShare {
    share: frost::keys::SecretShare,
}

/// Single-use signing nonces of one participant.
#[verifier::external_body]
pub struct SigningNonces {
    nonces: frost::round1::SigningNonces,
}

/// The public commitments to a participant's signing nonces.
#[verifier::external_body]
pub struct SigningCommitments {
    commitments: frost::round1::SigningCommitments,
}

/// All commitments of one signing operation together with the message.
#[verifier::external_body]
pub struct SigningPackage {
    package: frost::SigningPackage,
}

/// One participant's share of a group signature.
#[verifier::external_body]
pub struct SignatureShare {
    share: frost::round2::SignatureShare,
}

/// A group signature.
#[verifier::external_body]
pub struct Signature {
    signature: frost::Signature,
}

/// An error reported by the primitives library.
#[verifier::external_body]
pub struct CryptoError {
    error: frost::Error,
}

impl Clone for ParticipantId {
    /// Relies on `Identifier` being `Copy`: the clone is the same scalar.
    #[verifier::external_body]
    fn clone(&self) -> (r: Self)
        ensures
            r == *self,
    {
        ParticipantId { id: self.id }
    }
}

impl Clone for Round1Package {
    /// Relies on the derived `Clone` of `round1::Package`, which copies every field.
    #[verifier::external_body]
    fn clone(&self) -> (r: Self)
        ensures
            r == *self,
    {
        Round1Package { package: self.package.clone() }
    }
}

impl Clone for Round2Package {
    /// Relies on the derived `Clone` of `round2::Package`, which copies every field.
    #[verifier::external_body]
    fn clone(&self) -> (r: Self)
        ensures
            r == *self,
    {
        Round2Package { package: self.package.clone() }
    }
}

/// The entries of an identifier-keyed map, in the form the protocol logic holds them.
pub type Entries<P> = Seq<(ParticipantId, P)>;

/// `k` is the key of some entry of `s`.
pub open spec fn has_key<P>(s: Entries<P>, k: ParticipantId) -> bool {
    exists|i: int| 0 <= i < s.len() && (#[trigger] s[i]).0 == k
}

/// No two entries of `s` share a key.
pub open spec fn unique_keys<P>(s: Entries<P>) -> bool {
    forall|i: int, j: int| 0 <= i < j < s.len() ==> (#[trigger] s[i]).0 != (#[trigger] s[j]).0
}

/// `a` and `b` have the same set of keys.
pub open spec fn same_keys<P, Q>(a: Entries<P>, b: Entries<Q>) -> bool {
    &&& forall|i: int| 0 <= i < a.len() ==> has_key(b, (#[trigger] a[i]).0)
    &&& forall|j: int| 0 <= j < b.len() ==> has_key(a, (#[trigger] b[j]).0)
}

/// Relies on the derived `PartialEq` of `Identifier`, which compares the canonical
/// scalars, so that two identifiers are equal exactly when they are the same value.
#[verifier::external_body]
pub(crate) fn same_participant(a: &ParticipantId, b: &ParticipantId) -> (r: bool)
    ensures
        r == (*a == *b),
{
    a.id == b.id
}

/// Relies on `rand::thread_rng().next_u64()` for a fresh random seed.
#[verifier::external_body]
pub(crate) fn random_seed() -> (r: u64) {
    rand::thread_rng().next_u64()
}

/// The decimal digits of `n`, most significant first, as ASCII bytes.
pub open spec fn decimal(n: nat) -> Seq<u8>
    decreases n,
{
    if n < 10 {
        seq![(48 + n) as u8]
    } else {
        decimal(n / 10).push((48 + n % 10) as u8)
    }
}

/// The label from which the identifier of a participant with random seed `seed`
/// is derived: `id-` followed by the seed in decimal.
pub open spec fn label_of(seed: u64) -> Seq<u8> {
    seq![105u8, 100u8, 45u8] + decimal(seed as nat)
}

fn push_decimal(n: u64, out: &mut Vec<u8>)
    ensures
        final(out)@ == old(out)@ + decimal(n as nat),
    decreases n,
{
    if n >= 10 {
        push_decimal(n / 10, out);
    }
    out.push(48u8 + (n % 10) as u8);
    assert(out@ =~= old(out)@ + decimal(n as nat));
}

pub fn identifier_label(seed: u64) -> (r: Vec<u8>)
    ensures
        r@ == label_of(seed),
{
    let mut label: Vec<u8> = vec![105u8, 100u8, 45u8];
    push_decimal(seed, &mut label);
    label
}

/// What `Identifier::derive` makes of a label.
pub uninterp spec fn identifier_of(label: Seq<u8>) -> Result<ParticipantId, CryptoError>;

/// Relies on `Identifier::derive`, a deterministic hash of `label` to a scalar.
#[verifier::external_body]
pub(crate) fn derive_identifier(label: &[u8]) -> (r: Result<ParticipantId, CryptoError>)
    ensures
        r == identifier_of(label@),
{
    frost::Identifier::derive(label).map(|id| ParticipantId { id }).map_err(|error| CryptoError { error })
}

/// Relies on `keys::dkg::part1`, which rejects `min_signers < 2`, `max_signers < 2`
/// and `min_signers > max_signers` before it draws its polynomial from `thread_rng`.
#[verifier::external_body]
pub(crate) fn dkg_part1(id: ParticipantId, max_signers: u16, min_signers: u16) -> (r: Result<
    (Round1Secret, Round1Package),
    CryptoError,
>)
    ensures
        min_signers < 2 || max_signers < 2 || min_signers > max_signers ==> r is Err,
        2 <= min_signers <= max_signers ==> r is Ok,
{
    frost::keys::dkg::part1(id.id, max_signers, min_signers, rand::thread_rng())
        .map(|(s, p)| (Round1Secret { secret: s }, Round1Package { package: p }))
        .map_err(|error| CryptoError { error })
}

/// What `keys::dkg::part2` makes of a round-1 secret and the received packages.
pub uninterp spec fn round2_of(
    secret: Round1Secret,
    received: Entries<Round1Package>,
) -> Result<(Round2Secret, Entries<Round2Package>), CryptoError>;

/// What `keys::dkg::part3` makes of a round-2 secret and the received packages.
pub uninterp spec fn keys_of(
    secret: Round2Secret,
    round1: Entries<Round1Package>,
    round2: Entries<Round2Package>,
) -> Result<(KeyPackage, PublicKeyPackage), CryptoError>;

/// Relies on `keys::dkg::part2`, which depends on its arguments alone and on success returns one package for each
/// identifier of the received round-1 packages, and no other.
#[verifier::external_body]
pub(crate) fn dkg_part2(secret: Round1Secret, received: &Vec<(ParticipantId, Round1Package)>) -> (r:
    Result<(Round2Secret, Vec<(ParticipantId, Round2Package)>), CryptoError>)
    requires
        unique_keys(received@),
    ensures
        match round2_of(secret, received@) {
            Ok((s, out)) => r matches Ok((s2, o2)) && s2 == s && o2@ == out,
            Err(e) => r == Err::<(Round2Secret, Vec<(ParticipantId, Round2Package)>), CryptoError>(e),
        },
        r matches Ok((_, out)) ==> out@.len() == received@.len() && unique_keys(out@) && same_keys(
            out@,
            received@,
        ),
{
    let map: BTreeMap<frost::Identifier, frost::keys::dkg::round1::Package> = received.iter().map(
        |(k, v)| (k.id, v.package.clone()),
    ).collect();
    frost::keys::dkg::part2(secret.secret, &map).map(
        |(s, out)|
            (
                Round2Secret { secret: s },
                out.into_iter().map(|(k, v)| (ParticipantId { id: k }, Round2Package { package: v })).collect(),
            ),
    ).map_err(|error| CryptoError { error })
}

/// Relies on `keys::dkg::part3`, which combines the received packages into the
/// participant's key package and the group's public key package, depending on
/// its arguments alone.
#[verifier::external_body]
pub(crate) fn dkg_part3(
    secret: &Round2Secret,
    round1: &Vec<(ParticipantId, Round1Package)>,
    round2: &Vec<(ParticipantId, Round2Package)>,
) -> (r: Result<(KeyPackage, PublicKeyPackage), CryptoError>)
    requires
        unique_keys(round1@),
        unique_keys(round2@),
    ensures
        r == keys_of(*secret, round1@, round2@),
{
    let m1: BTreeMap<_, _> = round1.iter().map(|(k, v)| (k.id, v.package.clone())).collect();
    let m2: BTreeMap<_, _> = round2.iter().map(|(k, v)| (k.id, v.package.clone())).collect();
    frost::keys::dkg::part3(&secret.secret, &m1, &m2).map(
        |(k, p)| (KeyPackage { key_package: k }, PublicKeyPackage { public_key_package: p }),
    ).map_err(|error| CryptoError { error })
}

/// Relies on `keys::generate_with_dealer` with the default identifiers `1..=max_signers`:
/// it rejects `min_signers < 2`, `max_signers < 2` and `min_signers > max_signers`,
/// and otherwise returns one share for each of the `max_signers` distinct identifiers,
/// each the dealer polynomial at that identifier, which passes the check against
/// the dealer's commitment in `KeyPackage::try_from`.
#[verifier::external_body]
pub(crate) fn dealer_split(max_signers: u16, min_signers: u16) -> (r: Result<
    (Vec<(ParticipantId, SecretShare)>, PublicKeyPackage),
    CryptoError,
>)
    ensures
        min_signers < 2 || max_signers < 2 || min_signers > max_signers ==> r is Err,
        2 <= min_signers <= max_signers ==> r is Ok,
        r matches Ok((shares, _)) ==> shares@.len() == max_signers && unique_keys(shares@),
        r matches Ok((shares, _)) ==> forall|i: int|
            0 <= i < shares@.len() ==> key_package_of((#[trigger] shares@[i]).1) is Ok,
{
    frost::keys::generate_with_dealer(
        max_signers,
        min_signers,
        frost::keys::IdentifierList::Default,
        rand::thread_rng(),
    ).map(
        |(shares, p)|
            (
                shares.into_iter().map(|(k, v)| (ParticipantId { id: k }, SecretShare { share: v })).collect(),
                PublicKeyPackage { public_key_package: p },
            ),
    ).map_err(|error| CryptoError { error })
}

/// What `KeyPackage::try_from` makes of a share.
pub uninterp spec fn key_package_of(share: SecretShare) -> Result<KeyPackage, CryptoError>;

/// The commitments to signing nonces.
pub uninterp spec fn commitments_of(nonces: SigningNonces) -> SigningCommitments;

/// What `SigningPackage::new` makes of the commitments and the message.
pub uninterp spec fn signing_package_of(
    commitments: Seq<(ParticipantId, SigningCommitments)>,
    message: Seq<u8>,
) -> SigningPackage;

/// What `round2::sign` computes from a signing package, nonces and a key package.
pub uninterp spec fn share_of(
    package: SigningPackage,
    nonces: SigningNonces,
    key_package: KeyPackage,
) -> Result<SignatureShare, CryptoError>;

/// What `aggregate` makes of a signing package, the shares and the group key.
pub uninterp spec fn aggregate_of(
    package: SigningPackage,
    shares: Seq<(ParticipantId, SignatureShare)>,
    public_key_package: PublicKeyPackage,
) -> Result<Signature, CryptoError>;

/// Whether `VerifyingKey::verify` accepts `sig` for `message` under the group key.
pub uninterp spec fn signature_valid(
    public_key_package: PublicKeyPackage,
    message: Seq<u8>,
    sig: Signature,
) -> bool;

/// Relies on `KeyPackage::try_from(SecretShare)`, which verifies the share
/// against the dealer's commitment; the outcome depends on the share alone.
#[verifier::external_body]
pub(crate) fn key_package_from_share(share: SecretShare) -> (r: Result<KeyPackage, CryptoError>)
    ensures
        r == key_package_of(share),
{
    frost::keys::KeyPackage::try_from(share.share).map(|k| KeyPackage { key_package: k }).map_err(
        |error| CryptoError { error },
    )
}

/// Relies on `round1::commit`, which draws fresh nonces from `thread_rng` for
/// the key package's signing share and returns `SigningCommitments::from` them.
#[verifier::external_body]
pub(crate) fn commit(key_package: &KeyPackage) -> (r: (SigningNonces, SigningCommitments))
    ensures
        r.1 == commitments_of(r.0),
{
    let (n, c) = frost::round1::commit(key_package.key_package.signing_share(), &mut rand::thread_rng());
    (SigningNonces { nonces: n }, SigningCommitments { commitments: c })
}

/// Relies on `SigningPackage::new`, which binds the commitments to the message.
#[verifier::external_body]
pub(crate) fn new_signing_package(
    commitments: Vec<(ParticipantId, SigningCommitments)>,
    message: &[u8],
) -> (r: SigningPackage)
    requires
        unique_keys(commitments@),
    ensures
        r == signing_package_of(commitments@, message@),
{
    let map: BTreeMap<_, _> = commitments.into_iter().map(|(k, v)| (k.id, v.commitments)).collect();
    SigningPackage { package: frost::SigningPackage::new(map, message) }
}

/// Relies on `round2::sign`, which computes the participant's signature share.
#[verifier::external_body]
pub(crate) fn sign_share(
    package: &SigningPackage,
    nonces: &SigningNonces,
    key_package: &KeyPackage,
) -> (r: Result<SignatureShare, CryptoError>)
    ensures
        r == share_of(*package, *nonces, *key_package),
{
    frost::round2::sign(&package.package, &nonces.nonces, &key_package.key_package).map(
        |share| SignatureShare { share },
    ).map_err(|error| CryptoError { error })
}

/// Relies on `aggregate`, which combines the signature shares into the group signature.
#[verifier::external_body]
pub(crate) fn aggregate(
    package: &SigningPackage,
    shares: Vec<(ParticipantId, SignatureShare)>,
    public_key_package: &PublicKeyPackage,
) -> (r: Result<Signature, CryptoError>)
    requires
        unique_keys(shares@),
    ensures
        r == aggregate_of(*package, shares@, *public_key_package),
{
    let map: BTreeMap<_, _> = shares.into_iter().map(|(k, v)| (k.id, v.share)).collect();
    frost::aggregate(&package.package, &map, &public_key_package.public_key_package).map(
        |signature| Signature { signature },
    ).map_err(|error| CryptoError { error })
}

/// Relies on `VerifyingKey::verify` of the group's verifying key.
#[verifier::external_body]
pub(crate) fn verify_signature(
    public_key_package: &PublicKeyPackage,
    message: &[u8],
    signature: &Signature,
) -> (r: bool)
    ensures
        r == signature_valid(*public_key_package, message@, *signature),
{
    public_key_package.public_key_package.verifying_key().verify(message, &signature.signature).is_ok()
}

/// Relies on the derived `PartialEq` of `PublicKeyPackage`.
#[verifier::external_body]
pub(crate) fn same_public_keys(a: &PublicKeyPackage, b: &PublicKeyPackage) -> (r: bool)
    ensures
        r == (*a == *b),
{
    a.public_key_package == b.public_key_package
}

/// Whether every package of `pks` holds the same public verification material.
pub fn all_same_public_keys(pks: &Vec<PublicKeyPackage>) -> (r: bool)
    ensures
        r == (forall|i: int| 0 <= i < pks@.len() ==> #[trigger] pks@[i] == pks@[0]),
{
    let mut i: usize = 0;
    while i < pks.len()
        invariant
            0 <= i <= pks@.len(),
            forall|j: int| 0 <= j < i ==> #[trigger] pks@[j] == pks@[0],
        decreases pks@.len() - i,
    {
        if !same_public_keys(&pks[i], &pks[0]) {
            return false;
        }
        i += 1;
    }
    true
}

impl ParticipantId {
    /// Whether both name the same participant.
    pub fn same_as(&self, other: &ParticipantId) -> (r: bool)
        ensures
            r == (*self == *other),
    {
        same_participant(self, other)
    }
}

impl Clone for PublicKeyPackage {
    /// Relies on the derived `Clone` of `PublicKeyPackage`, which copies every field.
    #[verifier::external_body]
    fn clone(&self) -> (r: Self)
        ensures
            r == *self,
    {
        PublicKeyPackage { public_key_package: self.public_key_package.clone() }
    }
}

impl PublicKeyPackage {
    /// Whether `signature` is a valid group signature of `message`.
    pub fn verifies(&self, message: &[u8], signature: &Signature) -> (r: bool)
        ensures
            r == signature_valid(*self, message@, *signature),
    {
        verify_signature(self, message, signature)
    }

    /// Whether both packages hold the same public verification material.
    pub fn same_as(&self, other: &PublicKeyPackage) -> (r: bool)
        ensures
            r == (*self == *other),
    {
        same_public_keys(self, other)
    }
}

} // verus!
