use vstd::prelude::*;
use crate::artifact::{sp_opt_bytes, ContractBuild};
use crate::context::{push_char_bytes, sp_char_bytes};
use crate::error::Error;
use crate::metadata::{sp_fingerprint, ContractMetadata, OptimizerSettings};
use crate::version::{target_compiler_version, Version};
use crate::vyper::{sp_vyper_compile_rel, Contract as VyperContract};

verus! {

/// What compiling a passthrough contract guarantees: it always succeeds;
/// the source text stands as the assembly, its bytes as the module, with
/// the 32-byte fingerprint appended exactly when a source hash was handed
/// over; no disassembly and no factory dependencies.
pub open spec fn sp_passthrough_compile_rel(
    version: Version,
    source_text: Seq<char>,
    source_code_hash: Option<Seq<u8>>,
    optimizer_settings: OptimizerSettings,
    r: Result<ContractBuild, Error>,
) -> bool {
    r matches Ok(b) && {
        &&& (b.metadata_hash is Some <==> source_code_hash is Some)
        &&& (match source_code_hash {
            Some(h) => b.metadata_hash matches Some(mh) && mh@ == sp_fingerprint(
                h,
                version,
                crate::version::Version { major: 1u64, minor: 3u64, patch: 17u64 },
                optimizer_settings,
            ) && mh@.len() == 32 && b.bytecode@ == sp_char_bytes(source_text) + mh@,
            None => b.bytecode@ == sp_char_bytes(source_text),
        })
        &&& b.assembly@ == source_text
        &&& b.disassembly is None
        &&& b.factory_dependencies@.len() == 0
    }
}

/// What compiling any contract guarantees, by its input kind.
pub open spec fn sp_contract_compile_rel(
    c: Contract,
    contract_path: Seq<char>,
    source_code_hash: Option<Seq<u8>>,
    optimizer_settings: OptimizerSettings,
    r: Result<ContractBuild, Error>,
) -> bool {
    match c {
        Contract::Vyper(inner) => sp_vyper_compile_rel(
            inner,
            contract_path,
            source_code_hash,
            optimizer_settings,
            r,
        ),
        Contract::LLVMIR(inner) => sp_passthrough_compile_rel(
            inner.version,
            inner.source_code@,
            source_code_hash,
            optimizer_settings,
            r,
        ),
        Contract::ZKASM(inner) => sp_passthrough_compile_rel(
            inner.version,
            inner.source_code@,
            source_code_hash,
            optimizer_settings,
            r,
        ),
    }
}

/// A contract handed over as textual IR for the target compiler: no
/// lowering of its own, the text passes through as the module.
#[derive(Debug)]
pub struct LlvmIrContract {
    pub version: Version,
    pub source_code: String,
}

/// A contract handed over as textual assembly for the target machine: no
/// lowering of its own, the text passes through as the module.
#[derive(Debug)]
pub struct ZkasmContract {
    pub version: Version,
    pub source_code: String,
}

/// The build of a passthrough contract: the source text stands as the
/// assembly, its bytes as the module, with the metadata hash appended
/// when one is requested.
fn passthrough_build(
    version: Version,
    source_code: String,
    source_code_hash: Option<Vec<u8>>,
    optimizer_settings: OptimizerSettings,
) -> (r: ContractBuild)
    ensures
        (r.metadata_hash is Some <==> source_code_hash is Some),
        (match source_code_hash {
            Some(h) => r.metadata_hash matches Some(mh) && mh@ == sp_fingerprint(
                h@,
                version,
                crate::version::Version { major: 1u64, minor: 3u64, patch: 17u64 },
                optimizer_settings,
            ) && mh@.len() == 32 && r.bytecode@ == sp_char_bytes(source_code@) + mh@,
            None => r.bytecode@ == sp_char_bytes(source_code@),
        }),
        r.assembly@ == source_code@,
        r.disassembly is None,
        r.factory_dependencies@ =~= Seq::<(Vec<u8>, String)>::empty(),
{
    let mut bytecode: Vec<u8> = Vec::new();
    push_char_bytes(&mut bytecode, source_code.as_str());
    proof {
        assert(bytecode@ =~= sp_char_bytes(source_code@));
    }
    match source_code_hash {
        Some(h) => {
            let mh = ContractMetadata::new(
                h,
                version,
                target_compiler_version(),
                optimizer_settings,
            ).keccak256();
            let ghost core = bytecode@;
            let mut j: usize = 0;
            while j < mh.len()
                invariant
                    j <= mh@.len(),
                    bytecode@ == core + mh@.subrange(0, j as int),
                decreases mh@.len() - j,
            {
                bytecode.push(mh[j]);
                proof {
                    assert(bytecode@ =~= core + mh@.subrange(0, j + 1));
                }
                j += 1;
            }
            proof {
                assert(mh@.subrange(0, mh@.len() as int) =~= mh@);
            }
            ContractBuild {
                assembly: source_code,
                disassembly: None,
                bytecode,
                metadata_hash: Some(mh),
                factory_dependencies: Vec::new(),
            }
        },
        None => ContractBuild {
            assembly: source_code,
            disassembly: None,
            bytecode,
            metadata_hash: None,
            factory_dependencies: Vec::new(),
        },
    }
}

impl LlvmIrContract {
    pub fn new(version: Version, source_code: String) -> (r: LlvmIrContract)
        ensures
            r.version == version,
            r.source_code == source_code,
    {
        LlvmIrContract { version, source_code }
    }

    pub fn compile(
        self,
        _contract_path: &str,
        source_code_hash: Option<Vec<u8>>,
        optimizer_settings: OptimizerSettings,
    ) -> (r: Result<ContractBuild, Error>)
        ensures
            sp_passthrough_compile_rel(
                self.version,
                self.source_code@,
                sp_opt_bytes(source_code_hash),
                optimizer_settings,
                r,
            ),
    {
        Ok(passthrough_build(self.version, self.source_code, source_code_hash, optimizer_settings))
    }
}

impl ZkasmContract {
    pub fn new(version: Version, source_code: String) -> (r: ZkasmContract)
        ensures
            r.version == version,
            r.source_code == source_code,
    {
        ZkasmContract { version, source_code }
    }

    pub fn compile(
        self,
        _contract_path: &str,
        source_code_hash: Option<Vec<u8>>,
        optimizer_settings: OptimizerSettings,
    ) -> (r: Result<ContractBuild, Error>)
        ensures
            sp_passthrough_compile_rel(
                self.version,
                self.source_code@,
                sp_opt_bytes(source_code_hash),
                optimizer_settings,
                r,
            ),
    {
        Ok(passthrough_build(self.version, self.source_code, source_code_hash, optimizer_settings))
    }
}

/// A contract of the project, one variant per accepted input kind.
#[derive(Debug)]
pub enum Contract {
    /// The Vyper contract.
    Vyper(VyperContract),
    /// The LLVM IR contract.
    LLVMIR(LlvmIrContract),
    /// The target-assembly contract.
    ZKASM(ZkasmContract),
}

impl From<VyperContract> for Contract {
    fn from(inner: VyperContract) -> (r: Contract)
        ensures
            r == Contract::Vyper(inner),
    {
        Contract::Vyper(inner)
    }
}

impl vstd::std_specs::convert::FromSpecImpl<VyperContract> for Contract {
    open spec fn obeys_from_spec() -> bool {
        true
    }

    open spec fn from_spec(inner: VyperContract) -> Contract {
        Contract::Vyper(inner)
    }
}

impl From<LlvmIrContract> for Contract {
    fn from(inner: LlvmIrContract) -> (r: Contract)
        ensures
            r == Contract::LLVMIR(inner),
    {
        Contract::LLVMIR(inner)
    }
}

impl vstd::std_specs::convert::FromSpecImpl<LlvmIrContract> for Contract {
    open spec fn obeys_from_spec() -> bool {
        true
    }

    open spec fn from_spec(inner: LlvmIrContract) -> Contract {
        Contract::LLVMIR(inner)
    }
}

impl From<ZkasmContract> for Contract {
    fn from(inner: ZkasmContract) -> (r: Contract)
        ensures
            r == Contract::ZKASM(inner),
    {
        Contract::ZKASM(inner)
    }
}

impl vstd::std_specs::convert::FromSpecImpl<ZkasmContract> for Contract {
    open spec fn obeys_from_spec() -> bool {
        true
    }

    open spec fn from_spec(inner: ZkasmContract) -> Contract {
        Contract::ZKASM(inner)
    }
}

impl Contract {
    /// Compiles the contract, returning the build. A Vyper contract runs
    /// the two-pass lowering; the passthrough variants hand their text
    /// through unchanged.
    pub fn compile(
        self,
        contract_path: &str,
        source_code_hash: Option<Vec<u8>>,
        optimizer_settings: OptimizerSettings,
    ) -> (r: Result<ContractBuild, Error>)
        ensures
            sp_contract_compile_rel(
                self,
                contract_path@,
                sp_opt_bytes(source_code_hash),
                optimizer_settings,
                r,
            ),
    {
        match self {
            Contract::Vyper(inner) => inner.compile(
                contract_path,
                source_code_hash,
                optimizer_settings,
            ),
            Contract::LLVMIR(inner) => inner.compile(
                contract_path,
                source_code_hash,
                optimizer_settings,
            ),
            Contract::ZKASM(inner) => inner.compile(
                contract_path,
                source_code_hash,
                optimizer_settings,
            ),
        }
    }

    /// Returns the source code reference.
    pub fn source_code(&self) -> (r: &str)
        ensures
            r@ == match self {
                Contract::Vyper(inner) => inner.source_code@,
                Contract::LLVMIR(inner) => inner.source_code@,
                Contract::ZKASM(inner) => inner.source_code@,
            },
    {
        match self {
            Contract::Vyper(inner) => inner.source_code.as_str(),
            Contract::LLVMIR(inner) => inner.source_code.as_str(),
            Contract::ZKASM(inner) => inner.source_code.as_str(),
        }
    }
}

} // verus!
