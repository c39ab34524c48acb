use academy_pow::config::{parse_algo, ForkingExtensions};
use academy_pow::pow::{ForkHeights, ForkingConfig, MaxiPosition, SupportedHashes};

#[test]
fn maxi_position_spellings() {
    for s in ["allow-all", "allowall", "no-maxi", "nomaxi", "Allow-All", "NOMAXI"] {
        assert_eq!(MaxiPosition::from_str(s), Ok(MaxiPosition::NoMaxi), "{}", s);
    }
    for s in ["sha3-maxi", "sha3maxi", "Sha3-Maxi", "SHA3MAXI"] {
        assert_eq!(MaxiPosition::from_str(s), Ok(MaxiPosition::Sha3Maxi), "{}", s);
    }
    for s in ["keccak-maxi", "keccakmaxi", "Keccak-Maxi"] {
        assert_eq!(MaxiPosition::from_str(s), Ok(MaxiPosition::KeccakMaxi), "{}", s);
    }
    for s in ["follow-mining", "followmining", "Follow-Mining", "FOLLOWMINING"] {
        assert_eq!(MaxiPosition::from_str(s), Ok(MaxiPosition::FollowMining), "{}", s);
    }
    // An unreadable stance is a configuration error, not a silent default.
    for s in ["", "whatever", "sha3 maxi", "allow_all"] {
        assert_eq!(MaxiPosition::from_str(s), Err(()), "{}", s);
    }
}

#[test]
fn parse_algo_accepts_sha3_and_keccak() {
    for s in ["sha", "sha3", "Sha", "Sha3"] {
        assert_eq!(parse_algo(s), Ok(SupportedHashes::Sha3), "{}", s);
    }
    for s in ["keccak", "Keccak"] {
        assert_eq!(parse_algo(s), Ok(SupportedHashes::Keccak), "{}", s);
    }
}

#[test]
fn parse_algo_refuses_md5_and_unknown() {
    for s in ["md", "Md", "md5", "Md5", "blake2", ""] {
        assert!(parse_algo(s).is_err(), "{}", s);
    }
}

#[test]
fn extensions_manual_mode_wins() {
    let e = ForkingExtensions {
        manual_mode: 1,
        add_sha3_keccak: 10,
        remove_md5: 20,
        split_sha3_keccak: 30,
        maxi_position: String::from("sha3-maxi"),
    };
    assert_eq!(ForkingConfig::from_extensions(&e), Ok(ForkingConfig::Manual));
}

#[test]
fn extensions_automatic_mode_parses_heights_and_stance() {
    let e = ForkingExtensions {
        manual_mode: 0,
        add_sha3_keccak: 10,
        remove_md5: 20,
        split_sha3_keccak: 30,
        maxi_position: String::from("keccak-maxi"),
    };
    let expected = ForkingConfig::Automatic(
        ForkHeights { add_sha3_keccak: 10, remove_md5: 20, split_sha3_keccak: 30 },
        MaxiPosition::KeccakMaxi,
    );
    assert_eq!(ForkingConfig::from_extensions(&e), Ok(expected));
}

#[test]
fn extensions_with_unreadable_stance_are_refused() {
    let e = ForkingExtensions {
        manual_mode: 0,
        add_sha3_keccak: 10,
        remove_md5: 20,
        split_sha3_keccak: 30,
        maxi_position: String::from("undecided"),
    };
    assert_eq!(ForkingConfig::from_extensions(&e), Err(()));
    // Manual mode ignores the stance string entirely.
    let manual = ForkingExtensions { manual_mode: 2, ..e };
    assert_eq!(ForkingConfig::from_extensions(&manual), Ok(ForkingConfig::Manual));
}

#[test]
fn follow_mining_resolves_to_the_mined_camp() {
    let fh = ForkHeights { add_sha3_keccak: 10, remove_md5: 20, split_sha3_keccak: 30 };
    let unresolved = ForkingConfig::Automatic(fh, MaxiPosition::FollowMining);
    assert_eq!(
        unresolved.resolve_follow_mining(SupportedHashes::Sha3),
        ForkingConfig::Automatic(fh, MaxiPosition::Sha3Maxi)
    );
    assert_eq!(
        unresolved.resolve_follow_mining(SupportedHashes::Keccak),
        ForkingConfig::Automatic(fh, MaxiPosition::KeccakMaxi)
    );
    assert_eq!(
        unresolved.resolve_follow_mining(SupportedHashes::Md5),
        ForkingConfig::Automatic(fh, MaxiPosition::NoMaxi)
    );
    // Concrete stances and manual mode stay as they are.
    let concrete = ForkingConfig::Automatic(fh, MaxiPosition::Sha3Maxi);
    assert_eq!(concrete.resolve_follow_mining(SupportedHashes::Keccak), concrete);
    assert_eq!(
        ForkingConfig::Manual.resolve_follow_mining(SupportedHashes::Sha3),
        ForkingConfig::Manual
    );
}
