use chain_client::consensus::interleave::{AlternatingPowPoa, PowOrPoaDigest};
use chain_client::consensus::poa::SimplePoa;
use chain_client::consensus::pow::Pow;
use chain_client::consensus::{Consensus, ConsensusAuthority, Header};

#[test]
fn cs5_pow_or_poa_digest_from_u64() {
    let value: u64 = 42;
    let digest: PowOrPoaDigest = value.into();
    assert_eq!(digest, PowOrPoaDigest::Pow(42));
}

#[test]
fn cs5_pow_or_poa_digest_try_from_u64() {
    let digest = PowOrPoaDigest::Pow(42);
    let value: Result<u64, ()> = u64::try_from(digest);
    assert_eq!(value, Ok(42));
}

#[test]
fn cs5_pow_or_poa_digest_try_from_consensus_authority() {
    let authority = ConsensusAuthority::Alice;
    let digest = PowOrPoaDigest::Poa(authority);
    let value: Result<ConsensusAuthority, ()> = ConsensusAuthority::try_from(digest);
    assert_eq!(value, Ok(ConsensusAuthority::Alice));
}

#[test]
fn cs5_alternating_pow_poa_validate_pow() {
    let pow = Pow { threshold: 12 };
    let poa = SimplePoa {
        authorities: vec![ConsensusAuthority::Alice],
    };
    let consensus = AlternatingPowPoa { pow, poa };

    let parent_digest = PowOrPoaDigest::Pow(42);
    let header = Header {
        parent: 0,
        height: 1,
        state_root: 1,
        extrinsics_root: 1,
        consensus_digest: PowOrPoaDigest::Poa(ConsensusAuthority::Alice),
    };

    assert!(consensus.validate(&parent_digest, &header));
}

#[test]
fn cs5_alternating_pow_poa_seal_pow() {
    let pow = Pow {
        threshold: u64::MAX,
    };
    let poa = SimplePoa {
        authorities: vec![ConsensusAuthority::Alice],
    };
    let consensus = AlternatingPowPoa { pow, poa };

    let parent_digest = PowOrPoaDigest::Poa(ConsensusAuthority::Alice);
    let partial_header = Header::<PowOrPoaDigest> {
        parent: 0,
        height: 1,
        state_root: 1,
        extrinsics_root: 1,
        consensus_digest: PowOrPoaDigest::Pow(0),
    };

    let sealed_header = consensus.seal(&parent_digest, partial_header).unwrap();
    assert!(matches!(
        sealed_header.consensus_digest,
        PowOrPoaDigest::Pow(_)
    ));
}

#[test]
fn cs5_alternating_pow_poa_seal_poa() {
    let pow = Pow { threshold: 12 };
    let poa = SimplePoa {
        authorities: vec![ConsensusAuthority::Alice],
    };
    let consensus = AlternatingPowPoa { pow, poa };

    let parent_digest = PowOrPoaDigest::Pow(42);
    let partial_header = Header::<PowOrPoaDigest> {
        parent: 0,
        height: 1,
        state_root: 1,
        extrinsics_root: 1,
        consensus_digest: PowOrPoaDigest::Pow(0),
    };

    let sealed_header = consensus.seal(&parent_digest, partial_header).unwrap();
    assert!(matches!(
        sealed_header.consensus_digest,
        PowOrPoaDigest::Poa(_)
    ));
}

#[test]
fn alternating_engine_accepts_what_it_sealed_and_refuses_the_wrong_kind() {
    let consensus = AlternatingPowPoa {
        pow: Pow {
            threshold: u64::MAX / 10,
        },
        poa: SimplePoa {
            authorities: vec![ConsensusAuthority::Bob],
        },
    };
    let partial_header = Header::<PowOrPoaDigest> {
        parent: 7,
        height: 3,
        state_root: 1,
        extrinsics_root: 1,
        consensus_digest: PowOrPoaDigest::Pow(0),
    };

    let after_authority = PowOrPoaDigest::Poa(ConsensusAuthority::Bob);
    let mined = consensus.seal(&after_authority, partial_header).unwrap();
    assert!(consensus.validate(&after_authority, &mined));
    // a block sealed by work cannot follow a block sealed by work
    assert!(!consensus.validate(&PowOrPoaDigest::Pow(1), &mined));

    let after_work = PowOrPoaDigest::Pow(1);
    let signed = consensus.seal(&after_work, partial_header).unwrap();
    assert_eq!(
        signed.consensus_digest,
        PowOrPoaDigest::Poa(ConsensusAuthority::Bob)
    );
    assert!(consensus.validate(&after_work, &signed));
    assert!(!consensus.validate(&after_authority, &signed));

    assert_eq!(PowOrPoaDigest::default(), PowOrPoaDigest::Pow(0));
    assert_eq!(u64::try_from(after_authority), Err(()));
    assert_eq!(ConsensusAuthority::try_from(after_work), Err(()));
    assert_eq!(
        PowOrPoaDigest::from(ConsensusAuthority::Bob),
        after_authority
    );
}
