use vstd::prelude::*;
use crate::hash::{keccak256, keccak_of};
use crate::parser::pairs_view;
use crate::version::Version;

verus! {

/// The source metadata of one function, as the front end reports it: its
/// IR identifier beside the remaining fields, kept verbatim.
#[derive(Debug)]
pub struct FunctionInfo {
    pub ir_identifier: String,
    pub fields: Vec<(String, String)>,
}

impl FunctionInfo {
    /// An owned copy with the same contents.
    pub fn duplicate(&self) -> (r: FunctionInfo)
        ensures
            r.ir_identifier@ == self.ir_identifier@,
            pairs_view(r.fields@) == pairs_view(self.fields@),
    {
        let ir_identifier = self.ir_identifier.clone();
        let mut fields: Vec<(String, String)> = Vec::new();
        let mut i: usize = 0;
        while i < self.fields.len()
            invariant
                i <= self.fields@.len(),
                fields@.len() == i,
                forall|k: int|
                    0 <= k < i ==> #[trigger] fields@[k].0@ == self.fields@[k].0@ && fields@[k].1@
                        == self.fields@[k].1@,
            decreases self.fields@.len() - i,
        {
            let k = self.fields[i].0.clone();
            let v = self.fields[i].1.clone();
            fields.push((k, v));
            i += 1;
        }
        proof {
            assert(pairs_view(fields@) =~= pairs_view(self.fields@));
        }
        FunctionInfo { ir_identifier, fields }
    }
}

/// An owned copy of an optional function-information value, with the
/// same IR identifier.
pub fn clone_opt_info(o: &Option<FunctionInfo>) -> (r: Option<FunctionInfo>)
    ensures
        match o {
            Some(fi) => r matches Some(fi2) && fi2.ir_identifier@ == fi.ir_identifier@,
            None => r is None,
        },
{
    match o {
        Some(fi) => Some(fi.duplicate()),
        None => None,
    }
}

/// The source metadata of a contract: function names mapped to their
/// reported information, in the order the front end emitted them.
#[derive(Debug)]
pub struct SourceMetadata {
    pub function_info: Vec<(String, FunctionInfo)>,
}

/// The field under which a metadata entry carries its IR identifier.
pub open spec fn ir_identifier_key() -> Seq<char> {
    "ir_identifier"@
}

/// The first value under `key` among `fields`, if any.
pub open spec fn sp_find_field(fields: Seq<(Seq<char>, Seq<char>)>, key: Seq<char>, i: int) -> Option<
    Seq<char>,
>
    decreases fields.len() - i when 0 <= i <= fields.len()
{
    if i >= fields.len() {
        None
    } else if fields[i].0 == key {
        Some(fields[i].1)
    } else {
        sp_find_field(fields, key, i + 1)
    }
}

/// Looks a field up by key, returning the first match.
fn find_field(fields: &Vec<(String, String)>, key: &str) -> (r: Option<String>)
    ensures
        match r {
            Some(v) => sp_find_field(pairs_view(fields@), key@, 0) == Some(v@),
            None => sp_find_field(pairs_view(fields@), key@, 0) is None,
        },
{
    let ghost fv = pairs_view(fields@);
    let mut i: usize = 0;
    while i < fields.len()
        invariant
            i <= fields@.len(),
            fv == pairs_view(fields@),
            fv.len() == fields@.len(),
            sp_find_field(fv, key@, 0) == sp_find_field(fv, key@, i as int),
        decreases fields@.len() - i,
    {
        if crate::strutil::str_eq(fields[i].0.as_str(), key) {
            let v = fields[i].1.clone();
            return Some(v);
        }
        i += 1;
    }
    None
}

/// Whether every parsed metadata entry names its IR identifier.
pub open spec fn sp_entries_complete(
    entries: Seq<(Seq<char>, Seq<(Seq<char>, Seq<char>)>)>,
) -> bool {
    forall|i: int|
        0 <= i < entries.len() ==> sp_find_field(#[trigger] entries[i].1, ir_identifier_key(), 0)
            is Some
}

impl SourceMetadata {
    /// Builds the source metadata from parsed entries. Every entry must
    /// name its IR identifier; one that does not is rejected.
    pub fn from_entries(entries: Vec<(String, Vec<(String, String)>)>) -> (r: Option<
        SourceMetadata,
    >)
        ensures
            match r {
                Some(m) => {
                    &&& sp_entries_complete(crate::parser::entries_view(entries@))
                    &&& m.function_info@.len() == entries@.len()
                    &&& forall|i: int|
                        0 <= i < entries@.len() ==> (#[trigger] m.function_info@[i]).0@
                            == entries@[i].0@ && Some(m.function_info@[i].1.ir_identifier@)
                            == sp_find_field(
                            crate::parser::entries_view(entries@)[i].1,
                            ir_identifier_key(),
                            0,
                        )
                },
                None => !sp_entries_complete(crate::parser::entries_view(entries@)),
            },
    {
        let ghost ev = crate::parser::entries_view(entries@);
        let ghost total = entries@.len();
        let mut function_info: Vec<(String, FunctionInfo)> = Vec::new();
        let mut rest = entries;
        let n = rest.len();
        let mut i: usize = 0;
        while i < n
            invariant
                ev == crate::parser::entries_view(entries@),
                entries@.len() == total,
                n == total,
                rest@.len() == total - i,
                i <= total,
                ev.len() == total,
                forall|k: int|
                    i <= k < total ==> #[trigger] ev[k] == (
                    rest@[k - i].0@,
                    pairs_view(rest@[k - i].1@),
                    ),
                function_info@.len() == i,
                forall|k: int|
                    0 <= k < i ==> (#[trigger] function_info@[k]).0@ == ev[k].0 && Some(
                        function_info@[k].1.ir_identifier@,
                    ) == sp_find_field(ev[k].1, ir_identifier_key(), 0),
            decreases total - i,
        {
            let ghost rest_old = rest@;
            let (name, fields) = rest.remove(0);
            proof {
                assert(ev[i as int] == (rest_old[0].0@, pairs_view(rest_old[0].1@)));
                assert(name == rest_old[0].0 && fields == rest_old[0].1);
                assert(ev[i as int] == (name@, pairs_view(fields@)));
                assert forall|k: int| i + 1 <= k < total implies #[trigger] ev[k] == (
                rest@[k - (i + 1)].0@,
                pairs_view(rest@[k - (i + 1)].1@),
                ) by {
                    assert(rest@[k - (i + 1)] == rest_old[k - i]);
                    assert(ev[k] == (rest_old[k - i].0@, pairs_view(rest_old[k - i].1@)));
                }
            }
            match find_field(&fields, "ir_identifier") {
                Some(ident) => {
                    function_info.push((name, FunctionInfo { ir_identifier: ident, fields }));
                },
                None => {
                    proof {
                        assert(sp_find_field(ev[i as int].1, ir_identifier_key(), 0) is None);
                        assert(!sp_entries_complete(ev));
                    }
                    return None;
                },
            }
            i += 1;
        }
        proof {
            assert forall|k: int| 0 <= k < ev.len() implies sp_find_field(
                #[trigger] ev[k].1,
                ir_identifier_key(),
                0,
            ) is Some by {
                assert(Some(function_info@[k].1.ir_identifier@) == sp_find_field(
                    ev[k].1,
                    ir_identifier_key(),
                    0,
                ));
            }
        }
        Some(SourceMetadata { function_info })
    }
}

/// The optimizer settings that flow into the fingerprint: the middle-end
/// and back-end optimization levels and the fallback-to-size switch.
#[derive(Clone, Copy, Debug, PartialEq, Eq, Structural)]
pub struct OptimizerSettings {
    pub level_middle_end: u8,
    pub level_back_end: u8,
    pub is_fallback_to_size_enabled: bool,
}

impl OptimizerSettings {
    pub fn new(level_middle_end: u8, level_back_end: u8, is_fallback_to_size_enabled: bool) -> (r:
        OptimizerSettings)
        ensures
            r == (OptimizerSettings { level_middle_end, level_back_end, is_fallback_to_size_enabled }),
    {
        OptimizerSettings { level_middle_end, level_back_end, is_fallback_to_size_enabled }
    }
}

impl Default for OptimizerSettings {
    /// The default settings: both pipelines at their highest level, no
    /// fallback to size.
    fn default() -> (r: OptimizerSettings)
        ensures
            r == (OptimizerSettings {
                level_middle_end: 3u8,
                level_back_end: 3u8,
                is_fallback_to_size_enabled: false,
            }),
    {
        OptimizerSettings { level_middle_end: 3, level_back_end: 3, is_fallback_to_size_enabled: false }
    }
}

/// A machine word as eight bytes, least significant first.
pub open spec fn sp_le8(v: u64) -> Seq<u8> {
    Seq::new(8, |i: int| ((v >> ((8 * i) as u64)) & 0xff) as u8)
}

fn push_u64_le(out: &mut Vec<u8>, v: u64)
    ensures
        final(out)@ == old(out)@ + sp_le8(v),
{
    out.push(((v >> 0) & 0xff) as u8);
    out.push(((v >> 8) & 0xff) as u8);
    out.push(((v >> 16) & 0xff) as u8);
    out.push(((v >> 24) & 0xff) as u8);
    out.push(((v >> 32) & 0xff) as u8);
    out.push(((v >> 40) & 0xff) as u8);
    out.push(((v >> 48) & 0xff) as u8);
    out.push(((v >> 56) & 0xff) as u8);
    proof {
        assert(out@ =~= old(out)@ + sp_le8(v));
    }
}

/// The canonical byte encoding fingerprinted for a contract: the source
/// hash, the front end's version, this compiler's version, and the
/// optimizer settings, in that order.
pub open spec fn sp_encode_metadata(
    source_code_hash: Seq<u8>,
    source_version: Version,
    compiler_version: Version,
    optimizer_settings: OptimizerSettings,
) -> Seq<u8> {
    source_code_hash + sp_le8(source_version.major) + sp_le8(source_version.minor) + sp_le8(
        source_version.patch,
    ) + sp_le8(compiler_version.major) + sp_le8(compiler_version.minor) + sp_le8(
        compiler_version.patch,
    ) + seq![
        optimizer_settings.level_middle_end,
        optimizer_settings.level_back_end,
        if optimizer_settings.is_fallback_to_size_enabled {
            1u8
        } else {
            0u8
        },
    ]
}

/// The content fingerprint of one contract build.
pub open spec fn sp_fingerprint(
    source_code_hash: Seq<u8>,
    source_version: Version,
    compiler_version: Version,
    optimizer_settings: OptimizerSettings,
) -> Seq<u8> {
    keccak_of(
        sp_encode_metadata(source_code_hash, source_version, compiler_version, optimizer_settings),
    )
}

/// The metadata fingerprinted into a contract's bytecode.
#[derive(Debug)]
pub struct ContractMetadata {
    pub source_code_hash: Vec<u8>,
    pub source_version: Version,
    pub compiler_version: Version,
    pub optimizer_settings: OptimizerSettings,
}

impl ContractMetadata {
    pub fn new(
        source_code_hash: Vec<u8>,
        source_version: Version,
        compiler_version: Version,
        optimizer_settings: OptimizerSettings,
    ) -> (r: ContractMetadata)
        ensures
            r.source_code_hash@ == source_code_hash@,
            r.source_version == source_version,
            r.compiler_version == compiler_version,
            r.optimizer_settings == optimizer_settings,
    {
        ContractMetadata { source_code_hash, source_version, compiler_version, optimizer_settings }
    }

    /// The Keccak-256 digest of the canonical encoding, embedded verbatim
    /// in the assembled bytecode when metadata inclusion is requested.
    pub fn keccak256(&self) -> (r: Vec<u8>)
        ensures
            r@ == sp_fingerprint(
                self.source_code_hash@,
                self.source_version,
                self.compiler_version,
                self.optimizer_settings,
            ),
            r@.len() == 32,
    {
        let mut out: Vec<u8> = Vec::new();
        let mut i: usize = 0;
        while i < self.source_code_hash.len()
            invariant
                i <= self.source_code_hash@.len(),
                out@ == self.source_code_hash@.subrange(0, i as int),
            decreases self.source_code_hash@.len() - i,
        {
            out.push(self.source_code_hash[i]);
            proof {
                assert(out@ =~= self.source_code_hash@.subrange(0, i + 1));
            }
            i += 1;
        }
        proof {
            assert(out@ =~= self.source_code_hash@);
        }
        push_u64_le(&mut out, self.source_version.major);
        push_u64_le(&mut out, self.source_version.minor);
        push_u64_le(&mut out, self.source_version.patch);
        push_u64_le(&mut out, self.compiler_version.major);
        push_u64_le(&mut out, self.compiler_version.minor);
        push_u64_le(&mut out, self.compiler_version.patch);
        out.push(self.optimizer_settings.level_middle_end);
        out.push(self.optimizer_settings.level_back_end);
        out.push(
            if self.optimizer_settings.is_fallback_to_size_enabled {
                1
            } else {
                0
            },
        );
        proof {
            assert(out@ =~= sp_encode_metadata(
                self.source_code_hash@,
                self.source_version,
                self.compiler_version,
                self.optimizer_settings,
            ));
        }
        keccak256(out.as_slice())
    }
}

/// Fingerprinting the same source hash, front-end version, compiler
/// version and optimizer settings twice yields the same 32-byte digest:
/// the fingerprint is a function of those four fields and nothing else.
pub proof fn lemma_fingerprint_deterministic(a: ContractMetadata, b: ContractMetadata)
    requires
        a.source_code_hash@ == b.source_code_hash@,
        a.source_version == b.source_version,
        a.compiler_version == b.compiler_version,
        a.optimizer_settings == b.optimizer_settings,
    ensures
        sp_fingerprint(
            a.source_code_hash@,
            a.source_version,
            a.compiler_version,
            a.optimizer_settings,
        ) == sp_fingerprint(
            b.source_code_hash@,
            b.source_version,
            b.compiler_version,
            b.optimizer_settings,
        ),
{
}

} // verus!
