use vstd::prelude::*;
use crate::artifact::{sp_has_factory_dep, Build, ContractBuild};
use crate::context::forwarder_ident;
use crate::contract::{sp_contract_compile_rel, Contract, LlvmIrContract, ZkasmContract};
use crate::error::Error;
use crate::forwarder::{forwarder_contract_build, forwarder_hash, forwarder_hash_key};
use crate::hash::{keccak256, keccak_of};
use crate::metadata::OptimizerSettings;
use crate::version::Version;

verus! {

/// How the produced bytecode is to be encoded by the consumer; the
/// testing mode exists for integration harnesses.
#[derive(Clone, Copy, Debug, PartialEq, Eq, Structural)]
pub enum EncodingMode {
    Production,
    Testing,
}

/// The first failed result at or after position `i`, if any.
pub open spec fn sp_first_err(results: Seq<(String, Result<ContractBuild, Error>)>, i: int) -> Option<
    int,
>
    decreases results.len() - i when 0 <= i <= results.len()
{
    if i >= results.len() {
        None
    } else if results[i].1 is Err {
        Some(i)
    } else {
        sp_first_err(results, i + 1)
    }
}

/// Whether any successful result's factory dependencies reference the
/// forwarder hash, at or after position `i`.
pub open spec fn sp_any_forwarder(
    results: Seq<(String, Result<ContractBuild, Error>)>,
    i: int,
) -> bool
    decreases results.len() - i when 0 <= i <= results.len()
{
    if i >= results.len() {
        false
    } else {
        (results[i].1 matches Ok(b) && sp_has_factory_dep(b.factory_dependencies@,
        forwarder_hash_key())) || sp_any_forwarder(results, i + 1)
    }
}

/// How a successful aggregation relates to its results: the forwarder
/// entry stands first exactly when some result referenced it, and every
/// result's build follows under its path, in result order.
pub open spec fn sp_aggregate_offset(results: Seq<(String, Result<ContractBuild, Error>)>) -> int {
    if sp_any_forwarder(results, 0) {
        1
    } else {
        0
    }
}

pub open spec fn sp_aggregate_ok_rel(
    results: Seq<(String, Result<ContractBuild, Error>)>,
    b: Build,
) -> bool {
    &&& b.contracts@.len() == results.len() + sp_aggregate_offset(results)
    &&& (sp_any_forwarder(results, 0) ==> b.contracts@[0].0@ == forwarder_ident()
        && b.contracts@[0].1.bytecode@ == crate::forwarder::forwarder_bytecode_spec()
        && b.contracts@[0].1.metadata_hash is None)
    &&& forall|j: int|
        0 <= j < results.len() ==> (#[trigger] b.contracts@[sp_aggregate_offset(results) + j]).0@
            == results[j].0@ && (results[j].1 matches Ok(cb) && b.contracts@[sp_aggregate_offset(
            results,
        ) + j].1 == cb)
}

/// Aggregates per-contract results into the project build. On the first
/// failed result, in aggregation order, the whole compilation fails with
/// an error naming that contract's path, and no partial build exists.
/// Otherwise the forwarder's build is synthesized and inserted first,
/// exactly once, when any result references its hash, and every
/// contract's build is inserted under its path.
pub fn aggregate_results(results: Vec<(String, Result<ContractBuild, Error>)>) -> (r: Result<
    Build,
    Error,
>)
    ensures
        match sp_first_err(results@, 0) {
            Some(i) => r matches Err(e) && e matches Error::ContractCompile { path, inner } && path@
                == results@[i].0@,
            None => r matches Ok(b) && sp_aggregate_ok_rel(results@, b),
        },
{
    let ghost rv = results@;
    let ghost total = results@.len();

    // Scan the successful results for a forwarder reference.
    let fwd_key = forwarder_hash();
    let mut any_fwd = false;
    let mut i: usize = 0;
    while i < results.len()
        invariant
            i <= rv.len(),
            rv == results@,
            fwd_key@ == forwarder_hash_key(),
            sp_any_forwarder(rv, 0) == (any_fwd || sp_any_forwarder(rv, i as int)),
        decreases rv.len() - i,
    {
        let refs_here = match &results[i].1 {
            Ok(cb) => cb.references(&fwd_key),
            Err(_) => false,
        };
        proof {
            assert(refs_here == (rv[i as int].1 matches Ok(b_) && sp_has_factory_dep(
                b_.factory_dependencies@,
                forwarder_hash_key(),
            )));
            assert(sp_any_forwarder(rv, i as int) == (refs_here || sp_any_forwarder(rv, i + 1)));
        }
        if refs_here {
            any_fwd = true;
        }
        i += 1;
    }
    assert(any_fwd == sp_any_forwarder(rv, 0));

    let mut contracts: Vec<(String, ContractBuild)> = Vec::new();
    if any_fwd {
        contracts.push((crate::forwarder::forwarder_name(), forwarder_contract_build()));
    }
    let ghost off: int = if any_fwd {
        1
    } else {
        0
    };

    let mut rest = results;
    let n = rest.len();
    let mut j: usize = 0;
    while j < n
        invariant
            rv == results@,
            any_fwd == sp_any_forwarder(rv, 0),
            off == sp_aggregate_offset(rv),
            n as int == total,
            rv.len() == total,
            rest@.len() == total - j,
            j <= n,
            forall|k: int| 0 <= k < rest@.len() ==> #[trigger] rest@[k] == rv[j + k],
            sp_first_err(rv, 0) == sp_first_err(rv, j as int),
            contracts@.len() == j + off,
            any_fwd ==> contracts@[0].0@ == forwarder_ident() && contracts@[0].1.bytecode@
                == crate::forwarder::forwarder_bytecode_spec() && contracts@[0].1.metadata_hash
                is None,
            forall|k: int|
                0 <= k < j ==> (#[trigger] contracts@[off + k]).0@ == rv[k].0@ && (rv[k].1
                    matches Ok(cb) && contracts@[off + k].1 == cb),
        decreases n - j,
    {
        let ghost rest_old = rest@;
        let (path, result) = rest.remove(0);
        proof {
            assert(rest_old[0] == rv[j as int]);
            assert forall|k: int| 0 <= k < rest@.len() implies #[trigger] rest@[k] == rv[j + 1
                + k] by {
                assert(rest@[k] == rest_old[k + 1]);
            }
        }
        match result {
            Ok(cb) => {
                let ghost contracts_old = contracts@;
                let ghost cb_snap = cb;
                contracts.push((path, cb));
                proof {
                    assert(path == rv[j as int].0 && rv[j as int].1 == Ok::<ContractBuild, Error>(
                        cb_snap,
                    ));
                    assert(contracts@ == contracts_old.push((path, cb_snap)));
                    assert(contracts@[off + j] == (path, cb_snap));
                }
            },
            Err(error) => {
                proof {
                    assert(rv[j as int].1 is Err);
                    assert(sp_first_err(rv, j as int) == Some(j as int));
                    assert(sp_first_err(rv, 0) == Some(j as int));
                }
                return Err(Error::ContractCompile { path, inner: Box::new(error) });
            },
        }
        j += 1;
    }
    proof {
        assert(sp_first_err(rv, n as int) is None);
    }
    Ok(Build { contracts })
}

/// If every contract referencing the forwarder compiled, and no contract
/// path collides with the forwarder's own name, the aggregated build
/// holds exactly one forwarder entry when at least one result referenced
/// it, and none when none did.
pub proof fn lemma_forwarder_injected_exactly_once(
    results: Seq<(String, Result<ContractBuild, Error>)>,
    b: Build,
)
    requires
        sp_first_err(results, 0) is None,
        sp_aggregate_ok_rel(results, b),
        forall|j: int| 0 <= j < results.len() ==> (#[trigger] results[j]).0@ != forwarder_ident(),
    ensures
        sp_count_name(b.contracts@, forwarder_ident()) == if sp_any_forwarder(results, 0) {
            1int
        } else {
            0int
        },
{
    let off: int = sp_aggregate_offset(results);
    assert forall|k: int| off <= k < b.contracts@.len() implies (#[trigger] b.contracts@[k]).0@
        != forwarder_ident() by {
        assert(b.contracts@[sp_aggregate_offset(results) + (k - off)].0@ == results[k - off].0@);
        assert(off + (k - off) == k);
    }
    lemma_count_name_none(b.contracts@, forwarder_ident(), off);
    if sp_any_forwarder(results, 0) {
        assert(sp_count_name(b.contracts@, forwarder_ident()) == sp_count_name_from(
            b.contracts@,
            forwarder_ident(),
            0,
        ));
    }
}

/// The number of entries carrying `name`, at or after position `i`.
pub open spec fn sp_count_name_from(
    entries: Seq<(String, ContractBuild)>,
    name: Seq<char>,
    i: int,
) -> int
    decreases entries.len() - i when 0 <= i <= entries.len()
{
    if i >= entries.len() {
        0
    } else {
        (if entries[i].0@ == name {
            1int
        } else {
            0int
        }) + sp_count_name_from(entries, name, i + 1)
    }
}

pub open spec fn sp_count_name(entries: Seq<(String, ContractBuild)>, name: Seq<char>) -> int {
    sp_count_name_from(entries, name, 0)
}

proof fn lemma_count_name_none(entries: Seq<(String, ContractBuild)>, name: Seq<char>, i: int)
    requires
        0 <= i <= entries.len(),
        forall|k: int| i <= k < entries.len() ==> (#[trigger] entries[k]).0@ != name,
    ensures
        sp_count_name_from(entries, name, i) == 0,
    decreases entries.len() - i,
{
    if i < entries.len() {
        lemma_count_name_none(entries, name, i + 1);
    }
}

/// If any result failed, a first failed result exists, so aggregation
/// returns an error and no build is produced.
pub proof fn lemma_fail_fast(results: Seq<(String, Result<ContractBuild, Error>)>)
    requires
        exists|i: int| 0 <= i < results.len() && (#[trigger] results[i]).1 is Err,
    ensures
        sp_first_err(results, 0) is Some,
{
    let i = choose|i: int| 0 <= i < results.len() && (#[trigger] results[i]).1 is Err;
    lemma_first_err_before(results, 0, i);
}

proof fn lemma_first_err_before(
    results: Seq<(String, Result<ContractBuild, Error>)>,
    j: int,
    i: int,
)
    requires
        0 <= j <= i < results.len(),
        results[i].1 is Err,
    ensures
        sp_first_err(results, j) is Some,
    decreases i - j,
{
    if results[j].1 is Err {
    } else if j < i {
        lemma_first_err_before(results, j + 1, i);
    }
}

/// One compilation unit: the front-end version, the hash of the source
/// text, and the contracts keyed by path, in aggregation order.
#[derive(Debug)]
pub struct Project {
    pub version: Version,
    pub source_code_hash: Vec<u8>,
    pub contracts: Vec<(String, Contract)>,
}

impl Project {
    pub fn new(
        version: Version,
        source_code_hash: Vec<u8>,
        contracts: Vec<(String, Contract)>,
    ) -> (r: Project)
        ensures
            r.version == version,
            r.source_code_hash == source_code_hash,
            r.contracts == contracts,
    {
        Project { version, source_code_hash, contracts }
    }

    /// Wraps textual IR as a single-contract project; the source hash is
    /// the digest of the text's bytes. The caller reads the file and
    /// hands the path and text over.
    pub fn try_from_llvm_ir_path(path: String, source_code: String) -> (r: Project)
        ensures
            r.version == (Version { major: 1u64, minor: 4u64, patch: 1u64 }),
            r.source_code_hash@ == keccak_of(crate::context::sp_char_bytes(source_code@)),
            r.contracts@.len() == 1,
            r.contracts@[0].0@ == path@,
            r.contracts@[0].1 matches Contract::LLVMIR(inner) && inner.source_code@
                == source_code@ && inner.version == r.version,
    {
        let source_code_hash = source_text_digest(source_code.as_str());
        let version = Version::new(1, 4, 1);
        let inner = LlvmIrContract::new(version, source_code);
        let mut contracts: Vec<(String, Contract)> = Vec::new();
        contracts.push((path, Contract::LLVMIR(inner)));
        Project { version, source_code_hash, contracts }
    }

    /// Wraps textual target assembly as a single-contract project; the
    /// source hash is the digest of the text's bytes.
    pub fn try_from_zkasm_path(path: String, source_code: String) -> (r: Project)
        ensures
            r.version == (Version { major: 1u64, minor: 3u64, patch: 2u64 }),
            r.source_code_hash@ == keccak_of(crate::context::sp_char_bytes(source_code@)),
            r.contracts@.len() == 1,
            r.contracts@[0].0@ == path@,
            r.contracts@[0].1 matches Contract::ZKASM(inner) && inner.source_code@
                == source_code@ && inner.version == r.version,
    {
        let source_code_hash = source_text_digest(source_code.as_str());
        let version = Version::new(1, 3, 2);
        let inner = ZkasmContract::new(version, source_code);
        let mut contracts: Vec<(String, Contract)> = Vec::new();
        contracts.push((path, Contract::ZKASM(inner)));
        Project { version, source_code_hash, contracts }
    }

    /// Compiles every contract and aggregates the results, in the order
    /// of the contracts vector (the aggregation order). Whether the
    /// metadata hash is embedded is decided once, project-wide: every
    /// contract is compiled against the identical optional source hash. A
    /// single contract's failure aborts the whole compilation with an
    /// error naming the first failing contract's path in aggregation
    /// order; no partial build is returned. On success the build relates
    /// to the per-contract results by the aggregation relation: one entry
    /// per contract under its path, preceded by the forwarder entry
    /// exactly when some result references the forwarder hash.
    pub fn compile(
        self,
        optimizer_settings: OptimizerSettings,
        include_metadata_hash: bool,
        _bytecode_encoding: EncodingMode,
    ) -> (r: Result<Build, Error>)
        ensures
            exists|results: Seq<(String, Result<ContractBuild, Error>)>|
                {
                    &&& #[trigger] results.len() == self.contracts@.len()
                    &&& (forall|j: int|
                        0 <= j < results.len() ==> (#[trigger] results[j]).0@
                            == self.contracts@[j].0@ && sp_contract_compile_rel(
                            self.contracts@[j].1,
                            self.contracts@[j].0@,
                            if include_metadata_hash {
                                Some(self.source_code_hash@)
                            } else {
                                None
                            },
                            optimizer_settings,
                            results[j].1,
                        ))
                    &&& (match sp_first_err(results, 0) {
                        Some(i) => r matches Err(e) && e matches Error::ContractCompile {
                            path,
                            inner,
                        } && path@ == results[i].0@,
                        None => r matches Ok(b) && sp_aggregate_ok_rel(results, b),
                    })
                },
            r matches Err(e) ==> e matches Error::ContractCompile { .. },
            !include_metadata_hash ==> (r matches Ok(b) ==> forall|j: int|
                0 <= j < b.contracts@.len() ==> (#[trigger] b.contracts@[j]).1.metadata_hash
                    is None),
            include_metadata_hash ==> (r matches Ok(b) ==> forall|j: int|
                0 <= j < b.contracts@.len() ==> (#[trigger] b.contracts@[j]).1.metadata_hash
                    is Some || b.contracts@[j].0@ == forwarder_ident()),
    {
        let source_code_hash: Option<Vec<u8>> = if include_metadata_hash {
            Some(self.source_code_hash)
        } else {
            None
        };
        let ghost cv = self.contracts@;
        let ghost hash_arg: Option<Seq<u8>> = if include_metadata_hash {
            Some(self.source_code_hash@)
        } else {
            None
        };
        let mut results: Vec<(String, Result<ContractBuild, Error>)> = Vec::new();
        let mut rest = self.contracts;
        let n = rest.len();
        let mut i: usize = 0;
        while i < n
            invariant
                cv == self.contracts@,
                cv.len() == n,
                rest@.len() == n - i,
                i <= n,
                results@.len() == i,
                include_metadata_hash == (source_code_hash is Some),
                (match source_code_hash {
                    Some(h) => hash_arg == Some(h@),
                    None => hash_arg is None,
                }),
                forall|k: int| 0 <= k < rest@.len() ==> #[trigger] rest@[k] == cv[i + k],
                forall|k: int|
                    0 <= k < i ==> (#[trigger] results@[k]).0@ == cv[k].0@
                        && sp_contract_compile_rel(
                        cv[k].1,
                        cv[k].0@,
                        hash_arg,
                        optimizer_settings,
                        results@[k].1,
                    ),
                forall|k: int|
                    0 <= k < i ==> ((#[trigger] results@[k]).1 matches Ok(cb) ==> (
                    cb.metadata_hash is Some <==> include_metadata_hash)),
            decreases n - i,
        {
            let ghost rest_old = rest@;
            let (path, contract) = rest.remove(0);
            proof {
                assert(rest_old[0] == cv[i as int]);
                assert forall|k: int| 0 <= k < rest@.len() implies #[trigger] rest@[k] == cv[i + 1
                    + k] by {
                    assert(rest@[k] == rest_old[k + 1]);
                }
            }
            let hash_for_contract: Option<Vec<u8>> = match &source_code_hash {
                Some(h) => Some(clone_bytes(h)),
                None => None,
            };
            proof {
                assert(crate::artifact::sp_opt_bytes(hash_for_contract) == hash_arg);
            }
            let build = contract.compile(path.as_str(), hash_for_contract, optimizer_settings);
            proof {
                assert(sp_contract_compile_rel(
                    cv[i as int].1,
                    cv[i as int].0@,
                    hash_arg,
                    optimizer_settings,
                    build,
                ));
            }
            results.push((path, build));
            i += 1;
        }
        let ghost w = results@;
        let r = aggregate_results(results);
        proof {
            assert(w.len() == self.contracts@.len());
            assert(forall|j: int|
                0 <= j < w.len() ==> (#[trigger] w[j]).0@ == self.contracts@[j].0@
                    && sp_contract_compile_rel(
                    self.contracts@[j].1,
                    self.contracts@[j].0@,
                    if include_metadata_hash {
                        Some(self.source_code_hash@)
                    } else {
                        None
                    },
                    optimizer_settings,
                    w[j].1,
                ));
            if sp_first_err(w, 0) is None {
                match r {
                    Ok(ref b) => {
                        assert(sp_aggregate_ok_rel(w, *b));
                        assert forall|j: int| 0 <= j < b.contracts@.len() implies ((
                        #[trigger] b.contracts@[j]).1.metadata_hash is Some
                            <==> include_metadata_hash) || (b.contracts@[j].0@
                            == forwarder_ident() && b.contracts@[j].1.metadata_hash is None) by {
                            let off: int = sp_aggregate_offset(w);
                            if j >= off {
                                assert(b.contracts@[sp_aggregate_offset(w) + (j - off)].0@ == w[j
                                    - off].0@ && (w[j - off].1 matches Ok(cb) && b.contracts@[
                                sp_aggregate_offset(w) + (j - off)].1 == cb));
                                assert(off + (j - off) == j);
                            }
                        }
                    },
                    Err(_) => {},
                }
            }
        }
        r
    }
}

/// Whether the project's contract paths are pairwise distinct. The
/// original keyed its contracts by path in a map; the vector form keeps
/// that as the well-formedness of a project, with the vector's order the
/// aggregation order.
pub open spec fn sp_distinct_paths(contracts: Seq<(String, Contract)>) -> bool {
    forall|a: int, b: int|
        0 <= a < b < contracts.len() ==> (#[trigger] contracts[a]).0@ != (
        #[trigger] contracts[b]).0@
}

impl Project {
    /// A well-formed project names each contract by a distinct path.
    pub open spec fn wf(&self) -> bool {
        sp_distinct_paths(self.contracts@)
    }

    /// Decides well-formedness: whether every two contracts carry
    /// distinct paths.
    pub fn is_well_formed(&self) -> (r: bool)
        ensures
            r == self.wf(),
    {
        let n = self.contracts.len();
        let mut a: usize = 0;
        while a < n
            invariant
                n == self.contracts@.len(),
                a <= n,
                forall|x: int, y: int|
                    0 <= x < y < n && x < a ==> (#[trigger] self.contracts@[x]).0@ != (
                    #[trigger] self.contracts@[y]).0@,
            decreases n - a,
        {
            let mut b: usize = a + 1;
            while b < n
                invariant
                    n == self.contracts@.len(),
                    a < b <= n,
                    forall|y: int|
                        a < y < b ==> (#[trigger] self.contracts@[y]).0@
                            != self.contracts@[a as int].0@,
                decreases n - b,
            {
                if crate::strutil::str_eq(
                    self.contracts[a].0.as_str(),
                    self.contracts[b].0.as_str(),
                ) {
                    proof {
                        assert(self.contracts@[a as int].0@ == self.contracts@[b as int].0@);
                        assert(!self.wf());
                    }
                    return false;
                }
                b += 1;
            }
            a += 1;
        }
        true
    }
}

/// The digest of a source text: the Keccak-256 hash of the text's
/// canonical bytes. The one text-to-bytes mapping of the library, shared
/// by every caller that fingerprints a source.
pub fn source_text_digest(source_code: &str) -> (r: Vec<u8>)
    ensures
        r@ == keccak_of(crate::context::sp_char_bytes(source_code@)),
        r@.len() == 32,
{
    let mut bytes: Vec<u8> = Vec::new();
    crate::context::push_char_bytes(&mut bytes, source_code);
    proof {
        assert(bytes@ =~= crate::context::sp_char_bytes(source_code@));
    }
    keccak256(bytes.as_slice())
}

/// An owned copy of a byte string.
fn clone_bytes(v: &Vec<u8>) -> (r: Vec<u8>)
    ensures
        r@ == v@,
{
    let mut out: Vec<u8> = Vec::new();
    let mut i: usize = 0;
    while i < v.len()
        invariant
            i <= v@.len(),
            out@ == v@.subrange(0, i as int),
        decreases v@.len() - i,
    {
        out.push(v[i]);
        proof {
            assert(out@ =~= v@.subrange(0, i + 1));
        }
        i += 1;
    }
    proof {
        assert(v@.subrange(0, v@.len() as int) =~= v@);
    }
    out
}

} // verus!
