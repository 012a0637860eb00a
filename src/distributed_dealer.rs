//! The per-participant state machine of distributed key generation (DKG).
//!
//! Each participant publishes its round-1 package, accumulates its peers'
//! round-1 packages until it holds more than `min_signers` of them, publishes
//! one round-2 package per peer, and finishes once it holds more than
//! `min_signers` round-2 packages addressed to it. Messages travel over a
//! broadcast transport that the caller runs: `receive` takes one delivered
//! message and returns the messages to publish.
use vstd::prelude::*;
use crate::package_map::{put, PackageMap};
use crate::primitives::{
    derive_identifier, identifier_label, identifier_of, label_of, keys_of, round2_of, dkg_part1, dkg_part2, dkg_part3, has_key, random_seed, same_keys,
    same_participant, unique_keys, CryptoError, Entries, KeyPackage, ParticipantId,
    PublicKeyPackage, Round1Package, Round1Secret, Round2Package, Round2Secret,
};

verus! {

/// A message on the broadcast transport.
pub enum Message {
    /// A round-1 package, meant for every participant.
    Round1 { sender_id: ParticipantId, round1_package: Round1Package },
    /// A round-2 package, broadcast to all but meant for `for_id` alone.
    Round2 { sender_id: ParticipantId, for_id: ParticipantId, round2_package: Round2Package },
}

impl Clone for Message {
    fn clone(&self) -> (r: Self)
        ensures
            r == *self,
    {
        match self {
            Message::Round1 { sender_id, round1_package } => Message::Round1 {
                sender_id: sender_id.clone(),
                round1_package: round1_package.clone(),
            },
            Message::Round2 { sender_id, for_id, round2_package } => Message::Round2 {
                sender_id: sender_id.clone(),
                for_id: for_id.clone(),
                round2_package: round2_package.clone(),
            },
        }
    }
}

/// Why a participant gave up.
pub enum DkgError {
    /// The primitives library refused its input.
    Crypto(CryptoError),
    /// A message of round `message_round` arrived while the participant waited
    /// for round `state_round`.
    UnexpectedMessage { state_round: u8, message_round: u8 },
    /// The transport closed before the participant finished.
    SessionAborted,
}

/// The live phase of a participant that has not finished.
pub enum DkgState {
    Round1 { round1_secret_package: Round1Secret, round1_packages: PackageMap<Round1Package> },
    Round2 {
        round2_secret_package: Round2Secret,
        round1_packages: PackageMap<Round1Package>,
        round2_packages: PackageMap<Round2Package>,
    },
}

/// Where a participant stands.
pub enum Phase {
    Active(DkgState),
    /// The terminal state: the participant's key package and the group's public key package.
    Complete(KeyPackage, PublicKeyPackage),
    /// The participant gave up; it takes no further part.
    Failed,
}

/// Whether holding `count` packages from peers lets a round advance: strictly
/// more than `min_signers` of them. That is one more than the `min_signers - 1`
/// peer shares that, with a participant's own, reach the signing threshold; the
/// stricter rule is kept as it is, so sessions in which a participant has only
/// `min_signers` peers never advance.
pub open spec fn threshold_crossed(count: int, min_signers: u16) -> bool {
    count > min_signers
}

fn crosses_threshold(count: usize, min_signers: u16) -> (r: bool)
    ensures
        r == threshold_crossed(count as int, min_signers),
{
    count > min_signers as usize
}

/// The recipient named by a round-2 message (the sender, for a round-1 message).
pub open spec fn recipient(m: Message) -> ParticipantId {
    match m {
        Message::Round1 { sender_id, .. } => sender_id,
        Message::Round2 { for_id, .. } => for_id,
    }
}

/// The recipients of `out`, one entry per message.
pub open spec fn recipients(out: Seq<Message>) -> Entries<()> {
    out.map_values(|m: Message| (recipient(m), ()))
}

/// `out` holds one round-2 message from `me` to each sender of `received`.
pub open spec fn round2_broadcast(
    out: Seq<Message>,
    me: ParticipantId,
    received: Entries<Round1Package>,
) -> bool {
    &&& out.len() == received.len()
    &&& forall|i: int|
        0 <= i < out.len() ==> (#[trigger] out[i] matches Message::Round2 { sender_id, .. }
            && sender_id == me)
    &&& same_keys(recipients(out), received)
}

/// The round-2 messages from `me` that carry `outgoing`, one per entry, in order.
pub open spec fn round2_messages_of(me: ParticipantId, outgoing: Entries<Round2Package>) -> Seq<
    Message,
> {
    outgoing.map_values(
        |e: (ParticipantId, Round2Package)|
            Message::Round2 { sender_id: me, for_id: e.0, round2_package: e.1 },
    )
}

/// The round-1 packages held after `pkg` arrives from `sender`: a participant's
/// own package is not counted.
pub open spec fn after_round1(
    s: Entries<Round1Package>,
    me: ParticipantId,
    sender: ParticipantId,
    pkg: Round1Package,
) -> Entries<Round1Package> {
    if sender == me {
        s
    } else {
        put(s, sender, pkg)
    }
}

/// The round-2 packages held after `pkg` arrives from `sender` for `for_id`:
/// only a package from a peer addressed to `me` is kept.
pub open spec fn after_round2(
    s: Entries<Round2Package>,
    me: ParticipantId,
    sender: ParticipantId,
    for_id: ParticipantId,
    pkg: Round2Package,
) -> Entries<Round2Package> {
    if sender == me || for_id != me {
        s
    } else {
        put(s, sender, pkg)
    }
}

/// Storing under `k` adds exactly `k` to the keys.
pub proof fn lemma_put_keys<P>(s: Entries<P>, k: ParticipantId, v: P, x: ParticipantId)
    ensures
        has_key(put(s, k, v), x) <==> (has_key(s, x) || x == k),
{
    let t = put(s, k, v);
    if has_key(s, k) {
        let c = choose|i: int| 0 <= i < s.len() && (#[trigger] s[i]).0 == k;
        assert(t[c].0 == k);
        if has_key(s, x) {
            let j = choose|j: int| 0 <= j < s.len() && (#[trigger] s[j]).0 == x;
            assert(t[j].0 == x);
        }
        if has_key(t, x) {
            let j = choose|j: int| 0 <= j < t.len() && (#[trigger] t[j]).0 == x;
            if j != c {
                assert(s[j].0 == x);
            }
        }
    } else {
        assert(t[s.len() as int].0 == k);
        if has_key(s, x) {
            let j = choose|j: int| 0 <= j < s.len() && (#[trigger] s[j]).0 == x;
            assert(t[j].0 == x);
        }
        if has_key(t, x) {
            let j = choose|j: int| 0 <= j < t.len() && (#[trigger] t[j]).0 == x;
            if j < s.len() {
                assert(s[j].0 == x);
            }
        }
    }
}

/// A repeated package from the same sender replaces the earlier one: the number
/// of packages held, on which the threshold is decided, stays as it was.
pub proof fn lemma_repeat_keeps_count<P>(s: Entries<P>, sender: ParticipantId, first: P, again: P)
    ensures
        put(put(s, sender, first), sender, again).len() == put(s, sender, first).len(),
{
    lemma_put_keys(s, sender, first, sender);
    crate::package_map::lemma_put_present_keeps_len(put(s, sender, first), sender, again);
}

/// A participant's own messages never count toward its threshold: where its
/// own package was not held before a message arrived, it is not held after.
pub proof fn lemma_own_package_never_held(
    r1: Entries<Round1Package>,
    r2: Entries<Round2Package>,
    me: ParticipantId,
    sender: ParticipantId,
    for_id: ParticipantId,
    pkg1: Round1Package,
    pkg2: Round2Package,
)
    requires
        !has_key(r1, me),
        !has_key(r2, me),
    ensures
        !has_key(after_round1(r1, me, sender, pkg1), me),
        !has_key(after_round2(r2, me, sender, for_id, pkg2), me),
{
    lemma_put_keys(r1, sender, pkg1, me);
    lemma_put_keys(r2, sender, pkg2, me);
}

/// A round-2 package addressed to another participant leaves the packages held
/// as they were, so its sender does not appear among them on its account.
pub proof fn lemma_round2_for_another_ignored(
    r2: Entries<Round2Package>,
    me: ParticipantId,
    sender: ParticipantId,
    for_id: ParticipantId,
    pkg2: Round2Package,
)
    requires
        for_id != me,
    ensures
        after_round2(r2, me, sender, for_id, pkg2) == r2,
        has_key(after_round2(r2, me, sender, for_id, pkg2), sender) == has_key(r2, sender),
{
}

/// A round never advances in a session where a participant has at most
/// `min_signers` peers: its own packages are not counted and a sender is held
/// once, so it holds at most one package per peer.
pub proof fn lemma_few_peers_never_advance<P>(
    held: Entries<P>,
    peers: Set<ParticipantId>,
    min_signers: u16,
)
    requires
        unique_keys(held),
        peers.finite(),
        peers.len() <= min_signers,
        forall|i: int| 0 <= i < held.len() ==> peers.contains((#[trigger] held[i]).0),
    ensures
        !threshold_crossed(held.len() as int, min_signers),
{
    let keys = held.map_values(|e: (ParticipantId, P)| e.0);
    assert forall|i: int, j: int| 0 <= i < keys.len() && 0 <= j < keys.len() && i != j implies keys[i]
        != keys[j] by {
        if i < j {
            assert(held[i].0 != held[j].0);
        } else {
            assert(held[j].0 != held[i].0);
        }
    }
    assert(keys.no_duplicates());
    keys.unique_seq_to_set();
    assert forall|x: ParticipantId| keys.to_set().contains(x) implies peers.contains(x) by {
        assert(keys.contains(x));
        let i = choose|i: int| 0 <= i < keys.len() && keys[i] == x;
        assert(held[i].0 == x);
    }
    vstd::set_lib::lemma_len_subset(keys.to_set(), peers);
}

/// The participant of a DKG session.
pub struct Participiant {
    pub id: ParticipantId,
    pub max_signers: u16,
    pub min_signers: u16,
    pub phase: Phase,
}

fn round2_messages(me: &ParticipantId, outgoing: &Vec<(ParticipantId, Round2Package)>) -> (r: Vec<
    Message,
>)
    ensures
        r@ == round2_messages_of(*me, outgoing@),
        r@.len() == outgoing@.len(),
        forall|i: int|
            0 <= i < r@.len() ==> #[trigger] r@[i] == (Message::Round2 {
                sender_id: *me,
                for_id: outgoing@[i].0,
                round2_package: outgoing@[i].1,
            }),
{
    let mut out: Vec<Message> = Vec::new();
    let mut i: usize = 0;
    while i < outgoing.len()
        invariant
            0 <= i <= outgoing@.len(),
            out@.len() == i,
            forall|j: int|
                0 <= j < i ==> #[trigger] out@[j] == (Message::Round2 {
                    sender_id: *me,
                    for_id: outgoing@[j].0,
                    round2_package: outgoing@[j].1,
                }),
        decreases outgoing@.len() - i,
    {
        out.push(
            Message::Round2 {
                sender_id: me.clone(),
                for_id: outgoing[i].0.clone(),
                round2_package: outgoing[i].1.clone(),
            },
        );
        i += 1;
    }
    assert(out@ =~= round2_messages_of(*me, outgoing@));
    out
}

impl Participiant {
    /// The packages held never include the participant's own, and a live round
    /// has not yet crossed its threshold.
    pub open spec fn wf(&self) -> bool {
        match self.phase {
            Phase::Active(DkgState::Round1 { round1_packages, .. }) => {
                &&& round1_packages.wf()
                &&& !has_key(round1_packages@, self.id)
                &&& !threshold_crossed(round1_packages@.len() as int, self.min_signers)
            },
            Phase::Active(DkgState::Round2 { round1_packages, round2_packages, .. }) => {
                &&& round1_packages.wf()
                &&& round2_packages.wf()
                &&& !has_key(round1_packages@, self.id)
                &&& !has_key(round2_packages@, self.id)
                &&& !threshold_crossed(round2_packages@.len() as int, self.min_signers)
            },
            _ => true,
        }
    }

    /// Waiting in round 1 with `secret`, holding `received`.
    pub open spec fn holds_round1(&self, secret: Round1Secret, received: Entries<Round1Package>) -> bool {
        self.phase matches Phase::Active(DkgState::Round1 { round1_secret_package, round1_packages })
            && round1_secret_package == secret && round1_packages@ == received
    }

    /// Waiting in round 1, holding `received`.
    pub open spec fn in_round1(&self, received: Entries<Round1Package>) -> bool {
        self.phase matches Phase::Active(DkgState::Round1 { round1_packages, .. })
            && round1_packages@ == received
    }

    /// Waiting in round 2 with `secret`, holding `r1` and `r2`.
    pub open spec fn holds_round2(
        &self,
        secret: Round2Secret,
        r1: Entries<Round1Package>,
        r2: Entries<Round2Package>,
    ) -> bool {
        self.phase matches Phase::Active(
            DkgState::Round2 { round2_secret_package, round1_packages, round2_packages },
        ) && round2_secret_package == secret && round1_packages@ == r1 && round2_packages@ == r2
    }

    /// Waiting in round 2, holding `r1` and `r2`.
    pub open spec fn in_round2(&self, r1: Entries<Round1Package>, r2: Entries<Round2Package>) -> bool {
        self.phase matches Phase::Active(DkgState::Round2 { round1_packages, round2_packages, .. })
            && round1_packages@ == r1 && round2_packages@ == r2
    }

    /// Starts a participant with identifier `id`: runs the first DKG round and
    /// returns the participant, waiting for round 1, with the message to publish.
    pub fn with_id(id: ParticipantId, max_signers: u16, min_signers: u16) -> (r: Result<
        (Participiant, Message),
        DkgError,
    >)
        ensures
            min_signers < 2 || max_signers < 2 || min_signers > max_signers ==> r is Err,
            r matches Ok((p, m)) ==> {
                &&& p.wf()
                &&& p.id == id
                &&& p.max_signers == max_signers
                &&& p.min_signers == min_signers
                &&& p.in_round1(Seq::empty())
                &&& m matches Message::Round1 { sender_id, .. } && sender_id == id
            },
            2 <= min_signers <= max_signers ==> r is Ok,
            r matches Err(e) ==> e is Crypto,
    {
        match dkg_part1(id.clone(), max_signers, min_signers) {
            Ok((round1_secret_package, round1_package)) => {
                let message = Message::Round1 { sender_id: id.clone(), round1_package };
                let p = Participiant {
                    id,
                    max_signers,
                    min_signers,
                    phase: Phase::Active(
                        DkgState::Round1 { round1_secret_package, round1_packages: PackageMap::new() },
                    ),
                };
                Ok((p, message))
            },
            Err(e) => Err(DkgError::Crypto(e)),
        }
    }

    /// Starts a participant under a fresh random identifier.
    pub fn new(max_signers: u16, min_signers: u16) -> (r: Result<(Participiant, Message), DkgError>)
        ensures
            min_signers < 2 || max_signers < 2 || min_signers > max_signers ==> r is Err,
            r matches Ok((p, m)) ==> {
                &&& p.wf()
                &&& p.max_signers == max_signers
                &&& p.min_signers == min_signers
                &&& p.in_round1(Seq::empty())
                &&& m matches Message::Round1 { sender_id, .. } && sender_id == p.id
            },
            r matches Ok((p, _)) ==> exists|seed: u64| #[trigger]
                identifier_of(label_of(seed)) == Ok::<ParticipantId, CryptoError>(p.id),
            r matches Err(e) ==> e is Crypto,
    {
        let seed = random_seed();
        let label = identifier_label(seed);
        match derive_identifier(label.as_slice()) {
            Ok(id) => Participiant::with_id(id, max_signers, min_signers),
            Err(e) => Err(DkgError::Crypto(e)),
        }
    }

    /// Takes one delivered message and returns the messages to publish.
    ///
    /// A finished or failed participant ignores every message. A message of the
    /// wrong round is fatal. When more than `min_signers` round-1 packages are
    /// held, the second DKG round runs and one round-2 message goes out per peer;
    /// when more than `min_signers` round-2 packages addressed to this
    /// participant are held, the third round runs and the participant completes.
    pub fn receive(&mut self, message: Message) -> (r: Result<Vec<Message>, DkgError>)
        requires
            old(self).wf(),
        ensures
            final(self).wf(),
            final(self).id == old(self).id,
            final(self).max_signers == old(self).max_signers,
            final(self).min_signers == old(self).min_signers,
            match old(self).phase {
                Phase::Active(DkgState::Round1 { round1_secret_package, round1_packages }) => match message {
                    Message::Round1 { sender_id, round1_package } => {
                        let acc = after_round1(round1_packages@, old(self).id, sender_id, round1_package);
                        if !threshold_crossed(acc.len() as int, old(self).min_signers) {
                            &&& final(self).holds_round1(round1_secret_package, acc)
                            &&& r matches Ok(out) && out@.len() == 0
                        } else {
                            match round2_of(round1_secret_package, acc) {
                                Ok((secret, outgoing)) => {
                                    &&& final(self).holds_round2(secret, acc, Seq::empty())
                                    &&& r matches Ok(out) && out@ == round2_messages_of(
                                        old(self).id,
                                        outgoing,
                                    ) && round2_broadcast(out@, old(self).id, acc)
                                },
                                Err(e) => {
                                    &&& final(self).phase is Failed
                                    &&& r matches Err(DkgError::Crypto(e2)) && e2 == e
                                },
                            }
                        }
                    },
                    Message::Round2 { .. } => {
                        &&& final(self).phase is Failed
                        &&& r matches Err(DkgError::UnexpectedMessage { state_round, message_round })
                            && state_round == 1 && message_round == 2
                    },
                },
                Phase::Active(
                    DkgState::Round2 { round2_secret_package, round1_packages, round2_packages },
                ) => match message {
                    Message::Round2 { sender_id, for_id, round2_package } => {
                        let acc = after_round2(
                            round2_packages@,
                            old(self).id,
                            sender_id,
                            for_id,
                            round2_package,
                        );
                        if !threshold_crossed(acc.len() as int, old(self).min_signers) {
                            &&& final(self).holds_round2(round2_secret_package, round1_packages@, acc)
                            &&& r matches Ok(out) && out@.len() == 0
                        } else {
                            match keys_of(round2_secret_package, round1_packages@, acc) {
                                Ok((key_package, public_key_package)) => {
                                    &&& final(self).phase == Phase::Complete(
                                        key_package,
                                        public_key_package,
                                    )
                                    &&& r matches Ok(out) && out@.len() == 0
                                },
                                Err(e) => {
                                    &&& final(self).phase is Failed
                                    &&& r matches Err(DkgError::Crypto(e2)) && e2 == e
                                },
                            }
                        }
                    },
                    Message::Round1 { .. } => {
                        &&& final(self).phase is Failed
                        &&& r matches Err(DkgError::UnexpectedMessage { state_round, message_round })
                            && state_round == 2 && message_round == 1
                    },
                },
                _ => {
                    &&& *final(self) == *old(self)
                    &&& r matches Ok(out) && out@.len() == 0
                },
            },
    {
        let mut phase = Phase::Failed;
        std::mem::swap(&mut self.phase, &mut phase);
        match phase {
            Phase::Active(DkgState::Round1 { round1_secret_package, mut round1_packages }) => {
                match message {
                    Message::Round1 { sender_id, round1_package } => {
                        if !same_participant(&sender_id, &self.id) {
                            proof {
                                lemma_put_keys(round1_packages@, sender_id, round1_package, self.id);
                            }
                            round1_packages.insert(sender_id, round1_package);
                        }
                        if crosses_threshold(round1_packages.len(), self.min_signers) {
                            match dkg_part2(round1_secret_package, round1_packages.entries()) {
                                Ok((round2_secret_package, outgoing)) => {
                                    let out = round2_messages(&self.id, &outgoing);
                                    proof {
                                        let rec = recipients(out@);
                                        let acc = round1_packages@;
                                        assert forall|i: int| 0 <= i < rec.len() implies has_key(
                                            acc,
                                            (#[trigger] rec[i]).0,
                                        ) by {
                                            assert(rec[i].0 == outgoing@[i].0);
                                            assert(has_key(outgoing@, outgoing@[i].0));
                                        }
                                        assert forall|j: int| 0 <= j < acc.len() implies has_key(
                                            rec,
                                            (#[trigger] acc[j]).0,
                                        ) by {
                                            assert(has_key(outgoing@, acc[j].0));
                                            let k = choose|k: int|
                                                0 <= k < outgoing@.len() && (#[trigger] outgoing@[k]).0
                                                    == acc[j].0;
                                            assert(rec[k].0 == acc[j].0);
                                        }
                                        assert forall|i: int| 0 <= i < out@.len() implies (
                                        #[trigger] out@[i] matches Message::Round2 { sender_id, .. }
                                            && sender_id == self.id) by {
                                            assert(out@[i] == (Message::Round2 {
                                                sender_id: self.id,
                                                for_id: outgoing@[i].0,
                                                round2_package: outgoing@[i].1,
                                            }));
                                        }
                                    }
                                    self.phase = Phase::Active(
                                        DkgState::Round2 {
                                            round2_secret_package,
                                            round1_packages,
                                            round2_packages: PackageMap::new(),
                                        },
                                    );
                                    Ok(out)
                                },
                                Err(e) => Err(DkgError::Crypto(e)),
                            }
                        } else {
                            self.phase = Phase::Active(
                                DkgState::Round1 { round1_secret_package, round1_packages },
                            );
                            Ok(Vec::new())
                        }
                    },
                    Message::Round2 { .. } => Err(
                        DkgError::UnexpectedMessage { state_round: 1, message_round: 2 },
                    ),
                }
            },
            Phase::Active(
                DkgState::Round2 { round2_secret_package, round1_packages, mut round2_packages },
            ) => {
                match message {
                    Message::Round2 { sender_id, for_id, round2_package } => {
                        if !same_participant(&sender_id, &self.id) && same_participant(
                            &for_id,
                            &self.id,
                        ) {
                            proof {
                                lemma_put_keys(round2_packages@, sender_id, round2_package, self.id);
                            }
                            round2_packages.insert(sender_id, round2_package);
                        }
                        if crosses_threshold(round2_packages.len(), self.min_signers) {
                            match dkg_part3(
                                &round2_secret_package,
                                round1_packages.entries(),
                                round2_packages.entries(),
                            ) {
                                Ok((key_package, public_key_package)) => {
                                    self.phase = Phase::Complete(key_package, public_key_package);
                                    Ok(Vec::new())
                                },
                                Err(e) => Err(DkgError::Crypto(e)),
                            }
                        } else {
                            self.phase = Phase::Active(
                                DkgState::Round2 {
                                    round2_secret_package,
                                    round1_packages,
                                    round2_packages,
                                },
                            );
                            Ok(Vec::new())
                        }
                    },
                    Message::Round1 { .. } => Err(
                        DkgError::UnexpectedMessage { state_round: 2, message_round: 1 },
                    ),
                }
            },
            other => {
                self.phase = other;
                Ok(Vec::new())
            },
        }
    }

    /// The round-1 packages held, empty once the participant finished or failed.
    pub open spec fn received_round1(&self) -> Entries<Round1Package> {
        match self.phase {
            Phase::Active(DkgState::Round1 { round1_packages, .. }) => round1_packages@,
            Phase::Active(DkgState::Round2 { round1_packages, .. }) => round1_packages@,
            _ => Seq::empty(),
        }
    }

    /// The round-2 packages held, empty outside round 2.
    pub open spec fn received_round2(&self) -> Entries<Round2Package> {
        match self.phase {
            Phase::Active(DkgState::Round2 { round2_packages, .. }) => round2_packages@,
            _ => Seq::empty(),
        }
    }

    pub fn round1_count(&self) -> (r: usize)
        ensures
            r == self.received_round1().len(),
    {
        match &self.phase {
            Phase::Active(DkgState::Round1 { round1_packages, .. }) => round1_packages.len(),
            Phase::Active(DkgState::Round2 { round1_packages, .. }) => round1_packages.len(),
            _ => 0,
        }
    }

    pub fn round2_count(&self) -> (r: usize)
        ensures
            r == self.received_round2().len(),
    {
        match &self.phase {
            Phase::Active(DkgState::Round2 { round2_packages, .. }) => round2_packages.len(),
            _ => 0,
        }
    }

    /// Whether a round-1 package from `id` is held.
    pub fn has_round1_from(&self, id: &ParticipantId) -> (r: bool)
        ensures
            r == has_key(self.received_round1(), *id),
    {
        match &self.phase {
            Phase::Active(DkgState::Round1 { round1_packages, .. }) => round1_packages.contains(id),
            Phase::Active(DkgState::Round2 { round1_packages, .. }) => round1_packages.contains(id),
            _ => false,
        }
    }

    /// Whether a round-2 package from `id` is held.
    pub fn has_round2_from(&self, id: &ParticipantId) -> (r: bool)
        ensures
            r == has_key(self.received_round2(), *id),
    {
        match &self.phase {
            Phase::Active(DkgState::Round2 { round2_packages, .. }) => round2_packages.contains(id),
            _ => false,
        }
    }

    /// Whether the participant waits for round-1 packages.
    pub fn in_round1_phase(&self) -> (r: bool)
        ensures
            r == (self.phase matches Phase::Active(DkgState::Round1 { .. })),
    {
        matches!(self.phase, Phase::Active(DkgState::Round1 { .. }))
    }

    /// Whether the participant waits for round-2 packages.
    pub fn in_round2_phase(&self) -> (r: bool)
        ensures
            r == (self.phase matches Phase::Active(DkgState::Round2 { .. })),
    {
        matches!(self.phase, Phase::Active(DkgState::Round2 { .. }))
    }

    pub fn is_complete(&self) -> (r: bool)
        ensures
            r == (self.phase is Complete),
    {
        matches!(self.phase, Phase::Complete(..))
    }

    /// The outcome once the transport has no more to deliver: the key packages
    /// of a participant that completed, else `SessionAborted`.
    pub fn finish(self) -> (r: Result<(KeyPackage, PublicKeyPackage), DkgError>)
        ensures
            self.phase matches Phase::Complete(k, p) ==> r == Ok::<_, DkgError>((k, p)),
            !(self.phase is Complete) ==> r matches Err(DkgError::SessionAborted),
    {
        match self.phase {
            Phase::Complete(k, p) => Ok((k, p)),
            _ => Err(DkgError::SessionAborted),
        }
    }
}

} // verus!
