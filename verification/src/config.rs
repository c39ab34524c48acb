//! Node-side configuration: the chain-spec forking extension and the
//! command-line choices, turned into the strongly typed fork policy.
//!
//! The extension carries the fork heights and the node's political stance
//! as plain numbers and a string, because that is all the chain-spec layer
//! can transport; this module gives both their exact parsed meaning.

use vstd::prelude::*;
use vstd::slice::slice_index_get;
use vstd::string::StringSliceAdditionalSpecFns;
use vstd::utf8::encode_utf8;

use crate::pow::{ForkHeights, ForkingConfig, MaxiPosition, SupportedHashes};

verus! {

/// The PoW forking extension of the chain spec: manual mode as a flag (the
/// extension layer cannot carry an enum), the three fork heights, and the
/// stance string.
#[derive(Clone, PartialEq, Eq, Debug)]
pub struct ForkingExtensions {
    /// Zero means automatic mode; anything else means manual mode, and the
    /// remaining fields are ignored.
    pub manual_mode: u32,
    /// The height of the soft fork that adds SHA3 and Keccak support.
    pub add_sha3_keccak: u32,
    /// The height of the hard fork that removes MD5 support.
    pub remove_md5: u32,
    /// The height of the contentious fork where nodes pick a camp.
    pub split_sha3_keccak: u32,
    /// The stance this node takes at the contentious fork.
    pub maxi_position: String,
}

/// ASCII lowercasing of one byte.
pub open spec fn lower_byte(b: u8) -> u8 {
    if 65 <= b <= 90 {
        (b + 32) as u8
    } else {
        b
    }
}

/// ASCII lowercasing of a byte string.
pub open spec fn lower_bytes(s: Seq<u8>) -> Seq<u8> {
    s.map_values(|b: u8| lower_byte(b))
}

/// The stance named by a string: the spellings of "allow all", "sha3
/// maxi", "keccak maxi" and "follow mining", compared without regard to
/// ASCII case. Anything else names no stance: a node must not start on a
/// political position it cannot read.
pub open spec fn spec_position_of(s: Seq<u8>) -> Option<MaxiPosition> {
    let l = lower_bytes(s);
    if l == seq![97u8, 108u8, 108u8, 111u8, 119u8, 45u8, 97u8, 108u8, 108u8] || l == seq![
        97u8,
        108u8,
        108u8,
        111u8,
        119u8,
        97u8,
        108u8,
        108u8,
    ] || l == seq![110u8, 111u8, 45u8, 109u8, 97u8, 120u8, 105u8] || l == seq![
        110u8,
        111u8,
        109u8,
        97u8,
        120u8,
        105u8,
    ] {
        Some(MaxiPosition::NoMaxi)
    } else if l == seq![115u8, 104u8, 97u8, 51u8, 45u8, 109u8, 97u8, 120u8, 105u8] || l == seq![
        115u8,
        104u8,
        97u8,
        51u8,
        109u8,
        97u8,
        120u8,
        105u8,
    ] {
        Some(MaxiPosition::Sha3Maxi)
    } else if l == seq![107u8, 101u8, 99u8, 99u8, 97u8, 107u8, 45u8, 109u8, 97u8, 120u8, 105u8]
        || l == seq![107u8, 101u8, 99u8, 99u8, 97u8, 107u8, 109u8, 97u8, 120u8, 105u8] {
        Some(MaxiPosition::KeccakMaxi)
    } else if l == seq![
        102u8,
        111u8,
        108u8,
        108u8,
        111u8,
        119u8,
        45u8,
        109u8,
        105u8,
        110u8,
        105u8,
        110u8,
        103u8,
    ] || l == seq![
        102u8,
        111u8,
        108u8,
        108u8,
        111u8,
        119u8,
        109u8,
        105u8,
        110u8,
        105u8,
        110u8,
        103u8,
    ] {
        Some(MaxiPosition::FollowMining)
    } else {
        None
    }
}

/// Whether two byte vectors hold the same bytes.
fn bytes_match(a: &Vec<u8>, b: &Vec<u8>) -> (r: bool)
    ensures
        r == (a@ == b@),
{
    if a.len() != b.len() {
        proof {
            assert(a@.len() != b@.len());
        }
        return false;
    }
    let n = a.len();
    let mut i: usize = 0;
    while i < n
        invariant
            i <= n,
            n == a@.len(),
            n == b@.len(),
            forall|j: int| 0 <= j < i ==> a@[j] == b@[j],
        decreases n - i,
    {
        if *slice_index_get(a.as_slice(), i) != *slice_index_get(b.as_slice(), i) {
            return false;
        }
        i = i + 1;
    }
    proof {
        assert(a@ =~= b@);
    }
    true
}

/// The ASCII-lowercased bytes of a string.
fn lowercase_bytes(s: &str) -> (r: Vec<u8>)
    ensures
        r@ == lower_bytes(s.spec_bytes()),
{
    let bs = s.as_bytes();
    let n = bs.len();
    let mut low: Vec<u8> = Vec::new();
    let mut i: usize = 0;
    while i < n
        invariant
            i <= n,
            n == bs@.len(),
            bs@ == s.spec_bytes(),
            low@.len() == i,
            forall|j: int| 0 <= j < i ==> low@[j] == lower_byte(bs@[j]),
        decreases n - i,
    {
        let b = *slice_index_get(bs, i);
        let l: u8 = if 65 <= b && b <= 90 {
            b + 32
        } else {
            b
        };
        low.push(l);
        i = i + 1;
    }
    proof {
        assert(low@ =~= lower_bytes(s.spec_bytes()));
    }
    low
}

impl MaxiPosition {
    /// Parse a stance string; an unknown spelling is a configuration error
    /// for the startup layer to abort on.
    pub fn from_str(s: &str) -> (r: Result<MaxiPosition, ()>)
        ensures
            r == match spec_position_of(s.spec_bytes()) {
                Some(p) => Result::<MaxiPosition, ()>::Ok(p),
                None => Result::<MaxiPosition, ()>::Err(()),
            },
    {
        let low = lowercase_bytes(s);
        let allow_all: Vec<u8> = vec![97u8, 108u8, 108u8, 111u8, 119u8, 45u8, 97u8, 108u8, 108u8];
        let allowall: Vec<u8> = vec![97u8, 108u8, 108u8, 111u8, 119u8, 97u8, 108u8, 108u8];
        let no_maxi: Vec<u8> = vec![110u8, 111u8, 45u8, 109u8, 97u8, 120u8, 105u8];
        let nomaxi: Vec<u8> = vec![110u8, 111u8, 109u8, 97u8, 120u8, 105u8];
        let sha3_maxi: Vec<u8> = vec![115u8, 104u8, 97u8, 51u8, 45u8, 109u8, 97u8, 120u8, 105u8];
        let sha3maxi: Vec<u8> = vec![115u8, 104u8, 97u8, 51u8, 109u8, 97u8, 120u8, 105u8];
        let keccak_maxi: Vec<u8> = vec![
            107u8,
            101u8,
            99u8,
            99u8,
            97u8,
            107u8,
            45u8,
            109u8,
            97u8,
            120u8,
            105u8,
        ];
        let keccakmaxi: Vec<u8> = vec![
            107u8,
            101u8,
            99u8,
            99u8,
            97u8,
            107u8,
            109u8,
            97u8,
            120u8,
            105u8,
        ];
        let follow_mining: Vec<u8> = vec![
            102u8,
            111u8,
            108u8,
            108u8,
            111u8,
            119u8,
            45u8,
            109u8,
            105u8,
            110u8,
            105u8,
            110u8,
            103u8,
        ];
        let followmining: Vec<u8> = vec![
            102u8,
            111u8,
            108u8,
            108u8,
            111u8,
            119u8,
            109u8,
            105u8,
            110u8,
            105u8,
            110u8,
            103u8,
        ];
        if bytes_match(&low, &allow_all) || bytes_match(&low, &allowall) || bytes_match(
            &low,
            &no_maxi,
        ) || bytes_match(&low, &nomaxi) {
            Ok(MaxiPosition::NoMaxi)
        } else if bytes_match(&low, &sha3_maxi) || bytes_match(&low, &sha3maxi) {
            Ok(MaxiPosition::Sha3Maxi)
        } else if bytes_match(&low, &keccak_maxi) || bytes_match(&low, &keccakmaxi) {
            Ok(MaxiPosition::KeccakMaxi)
        } else if bytes_match(&low, &follow_mining) || bytes_match(&low, &followmining) {
            Ok(MaxiPosition::FollowMining)
        } else {
            Err(())
        }
    }
}

impl ForkingConfig {
    /// The strongly typed fork policy named by a chain-spec extension: a
    /// nonzero manual flag selects the built-in schedule, anything else the
    /// configured heights with the parsed stance. An unreadable stance
    /// string is a configuration error, and a node that cannot reach
    /// consensus correctly must refuse to start on it.
    pub fn from_extensions(e: &ForkingExtensions) -> (r: Result<ForkingConfig, ()>)
        ensures
            e.manual_mode > 0 ==> r == Result::<ForkingConfig, ()>::Ok(ForkingConfig::Manual),
            e.manual_mode == 0 ==> r == match spec_position_of(encode_utf8(e.maxi_position@)) {
                Some(p) => Result::<ForkingConfig, ()>::Ok(
                    ForkingConfig::Automatic(
                        ForkHeights {
                            add_sha3_keccak: e.add_sha3_keccak,
                            remove_md5: e.remove_md5,
                            split_sha3_keccak: e.split_sha3_keccak,
                        },
                        p,
                    ),
                ),
                None => Result::<ForkingConfig, ()>::Err(()),
            },
    {
        if e.manual_mode > 0 {
            return Ok(ForkingConfig::Manual);
        }
        let fork_heights = ForkHeights {
            add_sha3_keccak: e.add_sha3_keccak,
            remove_md5: e.remove_md5,
            split_sha3_keccak: e.split_sha3_keccak,
        };
        match MaxiPosition::from_str(e.maxi_position.as_str()) {
            Ok(p) => Ok(ForkingConfig::Automatic(fork_heights, p)),
            Err(_) => Err(()),
        }
    }

    /// Replace an unresolved follow-mining stance by the camp of the
    /// algorithm this node mines; every other configuration stays as it is.
    /// The pure fork policy is never consulted with the unresolved stance.
    pub fn resolve_follow_mining(self, mining_algo: SupportedHashes) -> (r: ForkingConfig)
        ensures
            r == match self {
                ForkingConfig::Automatic(fh, MaxiPosition::FollowMining) =>
                    ForkingConfig::Automatic(
                    fh,
                    match mining_algo {
                        SupportedHashes::Md5 => MaxiPosition::NoMaxi,
                        SupportedHashes::Sha3 => MaxiPosition::Sha3Maxi,
                        SupportedHashes::Keccak => MaxiPosition::KeccakMaxi,
                    },
                ),
                _ => self,
            },
    {
        match self {
            ForkingConfig::Automatic(fh, MaxiPosition::FollowMining) => {
                let position = match mining_algo {
                    SupportedHashes::Md5 => MaxiPosition::NoMaxi,
                    SupportedHashes::Sha3 => MaxiPosition::Sha3Maxi,
                    SupportedHashes::Keccak => MaxiPosition::KeccakMaxi,
                };
                ForkingConfig::Automatic(fh, position)
            },
            other => other,
        }
    }
}

/// The mining algorithm named on the command line. The spellings of "sha3"
/// and "keccak" parse; MD5 is refused as too weak to mine with, and
/// anything unknown is refused too, so a node never starts on a
/// misconfigured algorithm.
pub open spec fn spec_parse_algo(s: Seq<u8>) -> Option<SupportedHashes> {
    if s == seq![115u8, 104u8, 97u8] || s == seq![115u8, 104u8, 97u8, 51u8] || s == seq![
        83u8,
        104u8,
        97u8,
    ] || s == seq![83u8, 104u8, 97u8, 51u8] {
        Some(SupportedHashes::Sha3)
    } else if s == seq![107u8, 101u8, 99u8, 99u8, 97u8, 107u8] || s == seq![
        75u8,
        101u8,
        99u8,
        99u8,
        97u8,
        107u8,
    ] {
        Some(SupportedHashes::Keccak)
    } else {
        None
    }
}

/// Parse the mining algorithm from a command-line argument.
pub fn parse_algo(s: &str) -> (r: Result<SupportedHashes, String>)
    ensures
        match spec_parse_algo(s.spec_bytes()) {
            Some(algo) => r == Result::<SupportedHashes, String>::Ok(algo),
            None => r is Err,
        },
{
    let bs = vstd::slice::slice_to_vec(s.as_bytes());
    let sha: Vec<u8> = vec![115u8, 104u8, 97u8];
    let sha3: Vec<u8> = vec![115u8, 104u8, 97u8, 51u8];
    let sha_cap: Vec<u8> = vec![83u8, 104u8, 97u8];
    let sha3_cap: Vec<u8> = vec![83u8, 104u8, 97u8, 51u8];
    let keccak: Vec<u8> = vec![107u8, 101u8, 99u8, 99u8, 97u8, 107u8];
    let keccak_cap: Vec<u8> = vec![75u8, 101u8, 99u8, 99u8, 97u8, 107u8];
    if bytes_match(&bs, &sha) || bytes_match(&bs, &sha3) || bytes_match(&bs, &sha_cap)
        || bytes_match(&bs, &sha3_cap) {
        Ok(SupportedHashes::Sha3)
    } else if bytes_match(&bs, &keccak) || bytes_match(&bs, &keccak_cap) {
        Ok(SupportedHashes::Keccak)
    } else {
        Err("wrong mining algo; possible values: sha3, keccak".to_owned())
    }
}

} // verus!
