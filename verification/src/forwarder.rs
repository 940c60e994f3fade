use vstd::prelude::*;
use crate::artifact::ContractBuild;
use crate::context::forwarder_ident;
use crate::hash::{keccak256, keccak_of};

verus! {

// The shared forwarder helper contract has a fixed, pre-known binary
// identity: its name, assembly text and bytecode are constants, and its
// hash is the digest of that bytecode. It is never compiled from source
// here; whenever any contract's code generation references it, its build
// is synthesized from these constants and bundled exactly once.

pub open spec fn forwarder_assembly_spec() -> Seq<char> {
    "__VYPER_FORWARDER_CONTRACT:\n"@
}

pub open spec fn forwarder_bytecode_spec() -> Seq<u8> {
    seq![0x62u8, 0x10u8, 0x00u8, 0x00u8, 0x00u8, 0x00u8, 0x00u8, 0x5bu8]
}

/// The hash under which builds reference the forwarder: the digest of its
/// fixed bytecode.
pub open spec fn forwarder_hash_key() -> Seq<u8> {
    keccak_of(forwarder_bytecode_spec())
}

/// The forwarder contract's name.
pub fn forwarder_name() -> (r: String)
    ensures
        r@ == forwarder_ident(),
{
    ("__VYPER_FORWARDER_CONTRACT").to_owned()
}

/// The forwarder contract's assembly text.
pub fn forwarder_assembly() -> (r: String)
    ensures
        r@ == forwarder_assembly_spec(),
{
    ("__VYPER_FORWARDER_CONTRACT:\n").to_owned()
}

/// The forwarder contract's bytecode.
pub fn forwarder_bytecode() -> (r: Vec<u8>)
    ensures
        r@ == forwarder_bytecode_spec(),
{
    let mut v: Vec<u8> = Vec::new();
    v.push(0x62);
    v.push(0x10);
    v.push(0x00);
    v.push(0x00);
    v.push(0x00);
    v.push(0x00);
    v.push(0x00);
    v.push(0x5b);
    proof {
        assert(v@ =~= forwarder_bytecode_spec());
    }
    v
}

/// The forwarder contract's hash.
pub fn forwarder_hash() -> (r: Vec<u8>)
    ensures
        r@ == forwarder_hash_key(),
        r@.len() == 32,
{
    let bytecode = forwarder_bytecode();
    keccak256(bytecode.as_slice())
}

/// The forwarder's build, synthesized from the fixed constants: its
/// assembly, no disassembly, its fixed bytecode, no metadata hash and no
/// factory dependencies of its own.
pub fn forwarder_contract_build() -> (r: ContractBuild)
    ensures
        r.assembly@ == forwarder_assembly_spec(),
        r.disassembly is None,
        r.bytecode@ == forwarder_bytecode_spec(),
        r.metadata_hash is None,
        r.factory_dependencies@ =~= Seq::<(Vec<u8>, String)>::empty(),
{
    ContractBuild {
        assembly: forwarder_assembly(),
        disassembly: None,
        bytecode: forwarder_bytecode(),
        metadata_hash: None,
        factory_dependencies: Vec::new(),
    }
}

} // verus!
