use vstd::prelude::*;

verus! {

/// The build of one contract: the rendered assembly, an optional
/// disassembly, the assembled bytecode, the embedded metadata hash when
/// one was requested, and the factory-dependency table mapping a
/// dependency's content hash to its name.
#[derive(Debug)]
pub struct ContractBuild {
    pub assembly: String,
    pub disassembly: Option<String>,
    pub bytecode: Vec<u8>,
    pub metadata_hash: Option<Vec<u8>>,
    pub factory_dependencies: Vec<(Vec<u8>, String)>,
}

/// The byte-sequence view of an optional byte string.
pub open spec fn sp_opt_bytes(o: Option<Vec<u8>>) -> Option<Seq<u8>> {
    match o {
        Some(v) => Some(v@),
        None => None,
    }
}

/// Whether a build's factory-dependency table holds an entry under the
/// given hash.
pub open spec fn sp_has_factory_dep(deps: Seq<(Vec<u8>, String)>, key: Seq<u8>) -> bool {
    exists|i: int| 0 <= i < deps.len() && (#[trigger] deps[i]).0@ == key
}

/// Decides equality of two byte strings.
pub fn bytes_eq(a: &Vec<u8>, b: &Vec<u8>) -> (r: bool)
    ensures
        r == (a@ == b@),
{
    if a.len() != b.len() {
        assert(a@ != b@);
        return false;
    }
    let mut i: usize = 0;
    while i < a.len()
        invariant
            i <= a@.len(),
            a@.len() == b@.len(),
            forall|j: int| 0 <= j < i ==> a@[j] == b@[j],
        decreases a@.len() - i,
    {
        if a[i] != b[i] {
            assert(a@ != b@);
            return false;
        }
        i += 1;
    }
    assert(a@ =~= b@);
    true
}

impl ContractBuild {
    /// Whether this build's factory dependencies reference the given hash.
    pub fn references(&self, key: &Vec<u8>) -> (r: bool)
        ensures
            r == sp_has_factory_dep(self.factory_dependencies@, key@),
    {
        let mut i: usize = 0;
        while i < self.factory_dependencies.len()
            invariant
                i <= self.factory_dependencies@.len(),
                forall|j: int|
                    0 <= j < i ==> (#[trigger] self.factory_dependencies@[j]).0@ != key@,
            decreases self.factory_dependencies@.len() - i,
        {
            if bytes_eq(&self.factory_dependencies[i].0, key) {
                return true;
            }
            i += 1;
        }
        false
    }
}

/// The build of a whole project: one contract build per path, plus the
/// synthesized forwarder entry when any contract referenced it.
#[derive(Debug)]
pub struct Build {
    pub contracts: Vec<(String, ContractBuild)>,
}

impl Default for Build {
    fn default() -> (r: Build)
        ensures
            r.contracts@ =~= Seq::<(String, ContractBuild)>::empty(),
    {
        Build { contracts: Vec::new() }
    }
}

} // verus!
