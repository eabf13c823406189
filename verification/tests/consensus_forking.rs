use chain_client::consensus::forking::{
    change_authorities, change_difficulty, even_after_given_height, pow_to_poa, Embeds,
};
use chain_client::consensus::interleave::PowOrPoaDigest;
use chain_client::consensus::pow::{mine, Pow};
use chain_client::consensus::{Consensus, ConsensusAuthority, Header};

fn header_at<D>(height: u64, state_root: u64, digest: D) -> Header<D> {
    Header {
        parent: 0,
        height,
        state_root,
        extrinsics_root: 0,
        consensus_digest: digest,
    }
}

#[test]
fn forked_pow_to_poa_switches_at_the_fork_height() {
    let threshold = u64::MAX / 10;
    let engine = pow_to_poa(
        5,
        threshold,
        vec![ConsensusAuthority::Alice, ConsensusAuthority::Bob],
    );

    // height 4: proof of work governs
    let mined = mine(header_at(4, 0, 0u64), threshold).expect("a nonce is found");
    let at_four = mined.with_digest(PowOrPoaDigest::Pow(mined.consensus_digest));
    let work_parent = PowOrPoaDigest::Pow(0);
    assert!(engine.validate(&work_parent, &at_four));
    // a signature does not do below the fork height
    assert!(!engine.validate(
        &work_parent,
        &header_at(4, 0, PowOrPoaDigest::Poa(ConsensusAuthority::Alice))
    ));

    // height 5: the round robin governs, and (5 - 1) % 2 == 0 is the turn of Alice
    let signed_parent = PowOrPoaDigest::Poa(ConsensusAuthority::Bob);
    assert!(engine.validate(
        &signed_parent,
        &header_at(5, 0, PowOrPoaDigest::Poa(ConsensusAuthority::Alice))
    ));
    assert!(!engine.validate(
        &signed_parent,
        &header_at(5, 0, PowOrPoaDigest::Poa(ConsensusAuthority::Bob))
    ));
    assert!(!engine.validate(
        &signed_parent,
        &header_at(5, 0, PowOrPoaDigest::Poa(ConsensusAuthority::Charlie))
    ));
    // work does not do from the fork height on
    let mined = mine(header_at(5, 0, 0u64), threshold).expect("a nonce is found");
    assert!(!engine.validate(
        &signed_parent,
        &mined.with_digest(PowOrPoaDigest::Pow(mined.consensus_digest))
    ));
    // height 6 is the turn of Bob
    assert!(engine.validate(
        &signed_parent,
        &header_at(6, 0, PowOrPoaDigest::Poa(ConsensusAuthority::Bob))
    ));
}

#[test]
fn forked_engine_seals_with_the_engine_of_the_height() {
    let threshold = u64::MAX / 10;
    let engine = pow_to_poa(
        5,
        threshold,
        vec![ConsensusAuthority::Alice, ConsensusAuthority::Bob],
    );
    let work_parent = PowOrPoaDigest::Pow(0);
    let signed_parent = PowOrPoaDigest::Poa(ConsensusAuthority::Alice);

    let sealed = engine
        .seal(&work_parent, header_at(3, 9, PowOrPoaDigest::Pow(0)))
        .unwrap();
    assert!(matches!(sealed.consensus_digest, PowOrPoaDigest::Pow(_)));
    assert_eq!(sealed.height, 3);
    assert_eq!(sealed.state_root, 9);
    assert!(engine.validate(&work_parent, &sealed));

    let sealed = engine
        .seal(&signed_parent, header_at(6, 9, PowOrPoaDigest::Pow(0)))
        .unwrap();
    assert_eq!(
        sealed.consensus_digest,
        PowOrPoaDigest::Poa(ConsensusAuthority::Bob)
    );
    assert!(engine.validate(&signed_parent, &sealed));

    // the digest of the parent is of the wrong kind for the engine of the height
    assert!(engine
        .seal(&signed_parent, header_at(3, 9, PowOrPoaDigest::Pow(0)))
        .is_none());
    assert!(engine
        .seal(&work_parent, header_at(6, 9, PowOrPoaDigest::Pow(0)))
        .is_none());
}

#[test]
fn change_of_authorities_takes_effect_at_the_fork_height() {
    let engine = change_authorities(
        3,
        vec![ConsensusAuthority::Alice],
        vec![ConsensusAuthority::Bob, ConsensusAuthority::Charlie],
    );
    let parent = ConsensusAuthority::Alice;
    assert!(engine.validate(&parent, &header_at(2, 0, ConsensusAuthority::Alice)));
    assert!(!engine.validate(&parent, &header_at(2, 0, ConsensusAuthority::Bob)));
    // (3 - 1) % 2 == 0: Bob; (4 - 1) % 2 == 1: Charlie
    assert!(engine.validate(&parent, &header_at(3, 0, ConsensusAuthority::Bob)));
    assert!(!engine.validate(&parent, &header_at(3, 0, ConsensusAuthority::Alice)));
    assert!(engine.validate(&parent, &header_at(4, 0, ConsensusAuthority::Charlie)));
    assert_eq!(
        engine
            .seal(&parent, header_at(4, 0, ConsensusAuthority::Alice))
            .unwrap()
            .consensus_digest,
        ConsensusAuthority::Charlie
    );
    assert_eq!(engine.fork_height, 3);
}

#[test]
fn change_of_difficulty_takes_effect_at_the_fork_height() {
    let easy = u64::MAX / 2;
    let hard = u64::MAX / 1000;
    let engine = change_difficulty(10, easy, hard);
    assert_eq!(engine.before.threshold, easy);
    assert_eq!(engine.after.threshold, hard);

    // a header between the two thresholds
    let mut nonce = 0;
    let between = loop {
        let header = header_at(9, 0, nonce);
        if header.hash() < easy && header.hash() >= hard {
            break header;
        }
        nonce += 1;
    };
    assert!(engine.validate(&0, &between));
    let mut nonce = 0;
    let between = loop {
        let header = header_at(10, 0, nonce);
        if header.hash() < easy && header.hash() >= hard {
            break header;
        }
        nonce += 1;
    };
    assert!(!engine.validate(&0, &between));
    let sealed = engine.seal(&0, between).unwrap();
    assert!(sealed.hash() < hard);
    assert!(engine.validate(&0, &sealed));
}

#[test]
fn even_state_roots_are_asked_for_from_the_fork_height_on() {
    let threshold = u64::MAX / 10;
    let engine = even_after_given_height(7, Pow { threshold });
    let odd_before = mine(header_at(6, 3, 0u64), threshold).unwrap();
    let odd_after = mine(header_at(7, 3, 0u64), threshold).unwrap();
    let even_after = mine(header_at(7, 4, 0u64), threshold).unwrap();
    assert!(engine.validate(&0, &odd_before));
    assert!(!engine.validate(&0, &odd_after));
    assert!(engine.validate(&0, &even_after));
    assert!(engine.seal(&0, header_at(7, 3, 0u64)).is_none());
    assert!(engine.seal(&0, header_at(6, 3, 0u64)).is_some());
    assert!(engine.seal(&0, header_at(8, 4, 0u64)).is_some());
}

#[test]
fn digests_go_into_the_union_and_come_out_again() {
    let work: PowOrPoaDigest = Embeds::<u64>::embed(7);
    assert_eq!(work, PowOrPoaDigest::Pow(7));
    assert_eq!(Embeds::<u64>::extract(&work), Some(7));
    assert_eq!(Embeds::<ConsensusAuthority>::extract(&work), None);
    let signed: PowOrPoaDigest = Embeds::<ConsensusAuthority>::embed(ConsensusAuthority::Bob);
    assert_eq!(
        Embeds::<ConsensusAuthority>::extract(&signed),
        Some(ConsensusAuthority::Bob)
    );
    assert_eq!(Embeds::<u64>::extract(&signed), None);
    assert_eq!(<u64 as Embeds<u64>>::extract(&3), Some(3));
}
