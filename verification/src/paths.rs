//! Where circuits, keys, proofs and inputs live on disk.
//!
//! Paths are held as strings and joined with the rules of a Unix
//! `PathBuf::push`: an absolute path replaces the base, otherwise a `/` is
//! put between the two unless the base is empty or already ends in `/`.
use vstd::prelude::*;
use vstd::string::StringExecFns;

verus! {

/// The SLH-DSA-128s Poseidon circuit over a 1 KB message.
pub const CIRCUIT_NAME: &'static str = "slh_dsa_128s_poseidon_1k";

pub const PROVING_KEY: &'static str = "keys/slh_dsa_1k_pk.key";

pub const VERIFYING_KEY: &'static str = "keys/slh_dsa_1k_vk.key";

pub const INSTANCE: &'static str = "keys/slh_dsa_1k_instance.key";

pub const WITNESS_FILE: &'static str = "keys/slh_dsa_1k_witness.key";

pub const PROOF: &'static str = "keys/slh_dsa_1k_proof.key";

/// Whether a path starts at the root.
pub open spec fn is_absolute(p: Seq<char>) -> bool {
    p.len() > 0 && p[0] == '/'
}

/// `base` joined with `p`.
pub open spec fn path_join(base: Seq<char>, p: Seq<char>) -> Seq<char> {
    if is_absolute(p) {
        p
    } else if base.len() == 0 || base.last() == '/' {
        base + p
    } else {
        base + seq!['/'] + p
    }
}

/// Joins `p` onto `base`.
pub fn join_path(base: &str, p: &str) -> (r: String)
    ensures
        r@ == path_join(base@, p@),
{
    let plen = p.unicode_len();
    if plen > 0 && p.get_char(0) == '/' {
        return String::from_str(p);
    }
    let blen = base.unicode_len();
    let mut r = String::from_str(base);
    if blen > 0 && base.get_char(blen - 1) != '/' {
        proof {
            reveal_strlit("/");
        }
        r.append("/");
    }
    r.append(p);
    r
}

/// The directory against which relative paths are resolved.
#[derive(Debug)]
pub struct PathConfig {
    pub base_dir: String,
}

impl PathConfig {
    pub fn new(base_dir: String) -> (c: Self)
        ensures
            c.base_dir@ == base_dir@,
    {
        PathConfig { base_dir }
    }

    /// The configuration of the mobile app: everything under its documents
    /// directory.
    pub fn mobile(documents_path: &str) -> (c: Self)
        ensures
            c.base_dir@ == documents_path@,
    {
        PathConfig { base_dir: String::from_str(documents_path) }
    }

    /// `p` itself when absolute, else `p` under the base directory.
    pub fn resolve(&self, p: &str) -> (r: String)
        ensures
            r@ == (if is_absolute(p@) {
                p@
            } else {
                path_join(self.base_dir@, p@)
            }),
    {
        join_path(self.base_dir.as_str(), p)
    }

    /// The compiled SLH-DSA circuit, beside the base directory.
    pub fn r1cs_path(&self) -> (r: String)
        ensures
            r@ == path_join(self.base_dir@, r1cs_relative_path()),
    {
        proof {
            reveal_strlit("../circom/build/slh_dsa_128s_poseidon_1k/slh_dsa_128s_poseidon_1k.r1cs");
        }
        join_path(
            self.base_dir.as_str(),
            "../circom/build/slh_dsa_128s_poseidon_1k/slh_dsa_128s_poseidon_1k.r1cs",
        )
    }

    /// The directory holding keys and proof artifacts.
    pub fn keys_dir(&self) -> (r: String)
        ensures
            r@ == path_join(self.base_dir@, keys_dir_name()),
    {
        proof {
            reveal_strlit("keys");
        }
        join_path(self.base_dir.as_str(), "keys")
    }

    /// A key file in the keys directory.
    pub fn key_path(&self, name: &str) -> (r: String)
        ensures
            r@ == path_join(path_join(self.base_dir@, keys_dir_name()), name@),
    {
        let dir = self.keys_dir();
        join_path(dir.as_str(), name)
    }

    /// A proof, witness or instance file; these sit beside the keys.
    pub fn artifact_path(&self, name: &str) -> (r: String)
        ensures
            r@ == path_join(path_join(self.base_dir@, keys_dir_name()), name@),
    {
        self.key_path(name)
    }

    /// The input JSON of a circuit: `{circuit}_input.json` in the base directory.
    pub fn input_json(&self, circuit_name: &str) -> (r: String)
        ensures
            r@ == path_join(self.base_dir@, circuit_name@ + input_json_suffix()),
    {
        let mut file = String::from_str(circuit_name);
        proof {
            reveal_strlit("_input.json");
        }
        file.append("_input.json");
        join_path(self.base_dir.as_str(), file.as_str())
    }
}

pub open spec fn keys_dir_name() -> Seq<char> {
    seq!['k', 'e', 'y', 's']
}

pub open spec fn input_json_suffix() -> Seq<char> {
    "_input.json"@
}

pub open spec fn r1cs_relative_path() -> Seq<char> {
    "../circom/build/slh_dsa_128s_poseidon_1k/slh_dsa_128s_poseidon_1k.r1cs"@
}

} // verus!
