use std::collections::VecDeque;

use frost_session::distributed_dealer::{DkgError, Message, Participiant};
use frost_session::primitives::{all_same_public_keys, identifier_label, KeyPackage, PublicKeyPackage};
use frost_session::trusted_dealer::Coordinator;

fn start(n: u16, t: u16) -> (Vec<Participiant>, VecDeque<Message>) {
    let mut participants = Vec::new();
    let mut queue = VecDeque::new();
    for _ in 0..n {
        match Participiant::new(n, t) {
            Ok((p, m)) => {
                participants.push(p);
                queue.push_back(m);
            }
            Err(_) => panic!("participant failed to start"),
        }
    }
    (participants, queue)
}

/// The round-1 messages in the order `p` reads them: its own echo first, then
/// its peers' in publish order (each participant's cursor is ordered on its own).
fn own_first(p: &Participiant, firsts: &[Message]) -> Vec<Message> {
    let mine = |m: &Message| matches!(m, Message::Round1 { sender_id, .. } if sender_id.same_as(&p.id));
    let mut order: Vec<Message> = firsts.iter().filter(|m| mine(m)).cloned().collect();
    order.extend(firsts.iter().filter(|m| !mine(m)).cloned());
    order
}

/// Runs the session: every published message goes to every participant's
/// inbox, and participants take turns reading one message each, until no
/// inbox holds anything.
fn deliver_all(participants: &mut [Participiant], queue: &mut VecDeque<Message>) {
    let firsts: Vec<Message> = queue.drain(..).collect();
    let mut inboxes: Vec<VecDeque<Message>> =
        participants.iter().map(|p| own_first(p, &firsts).into_iter().collect()).collect();
    loop {
        let mut progress = false;
        for i in 0..participants.len() {
            if let Some(m) = inboxes[i].pop_front() {
                progress = true;
                match participants[i].receive(m) {
                    Ok(out) => {
                        for o in out {
                            for inbox in inboxes.iter_mut() {
                                inbox.push_back(o.clone());
                            }
                        }
                    }
                    Err(_) => panic!("participant failed"),
                }
            }
        }
        if !progress {
            break;
        }
    }
}

fn outcomes(participants: Vec<Participiant>) -> Vec<(KeyPackage, PublicKeyPackage)> {
    participants
        .into_iter()
        .map(|p| match p.finish() {
            Ok(r) => r,
            Err(_) => panic!("participant did not complete"),
        })
        .collect()
}

#[test]
fn dkg_completes_with_one_public_key_package() {
    let (mut ps, mut queue) = start(5, 3);
    deliver_all(&mut ps, &mut queue);
    assert!(ps.iter().all(|p| p.is_complete()));
    let results = outcomes(ps);
    assert_eq!(results.len(), 5);
    for (_, pk) in &results {
        assert!(pk.same_as(&results[0].1));
    }
}

#[test]
fn dkg_key_packages_sign_together() {
    let (mut ps, mut queue) = start(5, 3);
    deliver_all(&mut ps, &mut queue);
    let ids: Vec<_> = ps.iter().map(|p| p.id.clone()).collect();
    let results = outcomes(ps);
    let pk = results[0].1.clone();
    let key_packages = ids.into_iter().zip(results.into_iter().map(|(k, _)| k)).collect();
    let coordinator = match Coordinator::from_key_packages(pk.clone(), key_packages) {
        Some(c) => c,
        None => panic!("identifiers are distinct"),
    };
    let signature = match coordinator.sign(b"random message") {
        Ok(s) => s,
        Err(_) => panic!("signing failed"),
    };
    assert!(pk.verifies(b"random message", &signature));
    assert!(!pk.verifies(b"random messagf", &signature));
}

#[test]
fn own_round1_package_is_never_held() {
    let (mut ps, queue) = start(3, 2);
    let firsts: Vec<Message> = queue.into_iter().collect();
    for p in ps.iter_mut() {
        for m in own_first(p, &firsts) {
            match p.receive(m) {
                Ok(out) => assert!(out.is_empty()),
                Err(_) => panic!("participant failed"),
            }
            assert!(!p.has_round1_from(&p.id));
        }
        assert!(p.in_round1_phase());
        assert_eq!(p.round1_count(), 2);
    }
}

#[test]
fn repeated_round1_package_is_counted_once() {
    let (mut ps, queue) = start(5, 3);
    let msgs: Vec<Message> = queue.into_iter().collect();
    let p = &mut ps[0];
    assert!(p.receive(msgs[1].clone()).is_ok());
    assert_eq!(p.round1_count(), 1);
    assert!(p.receive(msgs[1].clone()).is_ok());
    assert_eq!(p.round1_count(), 1);
    assert!(p.receive(msgs[2].clone()).is_ok());
    assert!(p.receive(msgs[2].clone()).is_ok());
    assert!(p.receive(msgs[3].clone()).is_ok());
    assert_eq!(p.round1_count(), 3);
    assert!(p.in_round1_phase());
    match p.receive(msgs[4].clone()) {
        Ok(out) => assert_eq!(out.len(), 4),
        Err(_) => panic!("second round failed"),
    }
    assert!(p.in_round2_phase());
}

#[test]
fn threshold_needs_more_than_min_signers_peers() {
    let (mut ps, queue) = start(5, 3);
    let msgs: Vec<Message> = queue.into_iter().collect();
    let p = &mut ps[0];
    for m in &msgs[0..4] {
        match p.receive(m.clone()) {
            Ok(out) => assert!(out.is_empty()),
            Err(_) => panic!("participant failed"),
        }
    }
    assert_eq!(p.round1_count(), 3);
    assert!(p.in_round1_phase());
}

/// Runs round 1 for everyone and returns the round-2 messages, undelivered.
fn through_round1(ps: &mut [Participiant], queue: VecDeque<Message>) -> Vec<Message> {
    let firsts: Vec<Message> = queue.into_iter().collect();
    let mut round2 = Vec::new();
    for p in ps.iter_mut() {
        for m in own_first(p, &firsts) {
            match p.receive(m) {
                Ok(out) => round2.extend(out),
                Err(_) => panic!("participant failed"),
            }
        }
    }
    round2
}

#[test]
fn round2_package_for_another_is_ignored() {
    let (mut ps, queue) = start(5, 3);
    let round2 = through_round1(&mut ps, queue);
    assert_eq!(round2.len(), 20);
    let me = ps[0].id.clone();
    let mut ignored = 0;
    for m in &round2 {
        if let Message::Round2 { sender_id, for_id, .. } = m {
            if !for_id.same_as(&me) && !sender_id.same_as(&me) {
                let p = &mut ps[0];
                assert!(p.receive(m.clone()).is_ok());
                assert_eq!(p.round2_count(), 0);
                assert!(!p.has_round2_from(sender_id));
                ignored += 1;
            }
        }
    }
    assert_eq!(ignored, 12);
}

#[test]
fn repeated_round2_package_is_counted_once() {
    let (mut ps, queue) = start(5, 3);
    let round2 = through_round1(&mut ps, queue);
    let me = ps[0].id.clone();
    let mine: Vec<Message> = round2
        .into_iter()
        .filter(|m| matches!(m, Message::Round2 { for_id, .. } if for_id.same_as(&me)))
        .collect();
    assert_eq!(mine.len(), 4);
    let p = &mut ps[0];
    assert!(p.receive(mine[0].clone()).is_ok());
    assert!(p.receive(mine[0].clone()).is_ok());
    assert_eq!(p.round2_count(), 1);
    assert!(p.receive(mine[1].clone()).is_ok());
    assert!(p.receive(mine[2].clone()).is_ok());
    assert!(p.receive(mine[2].clone()).is_ok());
    assert_eq!(p.round2_count(), 3);
    assert!(!p.is_complete());
    assert!(p.receive(mine[3].clone()).is_ok());
    assert!(p.is_complete());
}

#[test]
fn completed_participant_ignores_further_messages() {
    let (mut ps, queue) = start(5, 3);
    let first: Vec<Message> = queue.iter().cloned().collect();
    let mut queue = queue;
    deliver_all(&mut ps, &mut queue);
    let p = &mut ps[0];
    assert!(p.is_complete());
    for m in &first {
        match p.receive(m.clone()) {
            Ok(out) => assert!(out.is_empty()),
            Err(_) => panic!("a completed participant must not fail"),
        }
        assert!(p.is_complete());
    }
}

#[test]
fn round2_message_in_round1_is_a_protocol_error() {
    let (mut ps, queue) = start(5, 3);
    let mut others: Vec<Participiant> = ps.drain(1..).collect();
    let round2 = through_round1(&mut others, queue.clone());
    let p = &mut ps[0];
    match p.receive(round2[0].clone()) {
        Err(DkgError::UnexpectedMessage { state_round, message_round }) => {
            assert_eq!(state_round, 1);
            assert_eq!(message_round, 2);
        }
        _ => panic!("expected a protocol error"),
    }
    assert!(!p.in_round1_phase() && !p.in_round2_phase() && !p.is_complete());
}

#[test]
fn round1_message_in_round2_is_a_protocol_error() {
    let (mut ps, queue) = start(5, 3);
    let first = queue[0].clone();
    through_round1(&mut ps, queue);
    match ps[1].receive(first) {
        Err(DkgError::UnexpectedMessage { state_round, message_round }) => {
            assert_eq!(state_round, 2);
            assert_eq!(message_round, 1);
        }
        _ => panic!("expected a protocol error"),
    }
}

#[test]
fn unfinished_participant_reports_session_aborted() {
    let (ps, _) = start(3, 2);
    for p in ps {
        assert!(matches!(p.finish(), Err(DkgError::SessionAborted)));
    }
}

#[test]
fn dkg_rejects_bad_thresholds() {
    assert!(matches!(Participiant::new(5, 0), Err(DkgError::Crypto(_))));
    assert!(matches!(Participiant::new(5, 1), Err(DkgError::Crypto(_))));
    assert!(matches!(Participiant::new(3, 4), Err(DkgError::Crypto(_))));
}

#[test]
fn dkg_with_min_equal_to_max_never_crosses_the_threshold() {
    let (mut ps, mut queue) = start(3, 3);
    deliver_all(&mut ps, &mut queue);
    for p in &ps {
        assert!(p.in_round1_phase());
        assert_eq!(p.round1_count(), 2);
    }
}

#[test]
fn identifier_label_is_id_dash_decimal_seed() {
    assert_eq!(identifier_label(0), b"id-0".to_vec());
    assert_eq!(identifier_label(9), b"id-9".to_vec());
    assert_eq!(identifier_label(10), b"id-10".to_vec());
    assert_eq!(identifier_label(1234567890), b"id-1234567890".to_vec());
    assert_eq!(identifier_label(u64::MAX), b"id-18446744073709551615".to_vec());
}

#[test]
fn public_key_agreement_check() {
    let (mut ps, mut queue) = start(5, 3);
    deliver_all(&mut ps, &mut queue);
    let mut pks: Vec<PublicKeyPackage> = outcomes(ps).into_iter().map(|(_, pk)| pk).collect();
    assert!(all_same_public_keys(&pks));
    assert!(all_same_public_keys(&Vec::new()));
    let (mut other, mut queue) = start(5, 3);
    deliver_all(&mut other, &mut queue);
    pks.push(outcomes(other).remove(0).1);
    assert!(!all_same_public_keys(&pks));
}
