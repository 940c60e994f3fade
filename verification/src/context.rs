use vstd::prelude::*;
use crate::artifact::ContractBuild;
use crate::expression::{mentions, Expression};
use crate::function::CodeType;
use crate::metadata::FunctionInfo;
use crate::strutil::str_eq;

verus! {

/// The identifier by which an emitted body references the shared
/// forwarder helper contract.
pub open spec fn forwarder_ident() -> Seq<char> {
    "__VYPER_FORWARDER_CONTRACT"@
}

/// The context-wide side record installed before definition: the size of
/// the contract's immutable-variable area, and the system-mode switch,
/// which this front end never enables.
#[derive(Clone, Copy, Debug, PartialEq, Eq, Structural)]
pub struct ContextVyperData {
    pub immutables_size: u64,
    pub is_system_mode: bool,
}

/// The names of a declaration or definition list, as character sequences.
pub open spec fn name_views<T>(s: Seq<(String, T)>) -> Seq<Seq<char>> {
    Seq::new(s.len(), |i: int| s[i].0@)
}

pub open spec fn contains_name(names: Seq<Seq<char>>, n: Seq<char>) -> bool {
    exists|i: int| 0 <= i < names.len() && names[i] == n
}

/// Decides whether an expression mentions `name` as an identifier.
pub fn mentions_exec(e: &Expression, name: &str) -> (r: bool)
    ensures
        r == mentions(e.deep(), name@),
    decreases *e, 0int,
{
    match e {
        Expression::IntegerLiteral(_) => false,
        Expression::Identifier(t) => str_eq(t.as_str(), name),
        Expression::List(items) => {
            let r = mentions_in_vec(items, 0, name);
            proof {
                crate::expression::lemma_deep_seq_len(items@);
            }
            r
        },
    }
}

fn mentions_in_vec(items: &Vec<Expression>, i: usize, name: &str) -> (r: bool)
    requires
        i <= items@.len(),
    ensures
        r == crate::expression::mentions_any(
            crate::expression::deep_seq(items@),
            name@,
            i as int,
        ),
    decreases items@, items@.len() - i,
{
    proof {
        crate::expression::lemma_deep_seq_len(items@);
    }
    if i >= items.len() {
        return false;
    }
    let here = mentions_exec(&items[i], name);
    proof {
        crate::expression::lemma_deep_seq_index(items@, i as int);
    }
    if here {
        return true;
    }
    mentions_in_vec(items, i + 1, name)
}

/// The canonical byte form of a text: one byte per character, the low
/// byte of its code point. On the ASCII texts the front end emits this is
/// the text's UTF-8 bytes; it is the library's one text-to-bytes mapping,
/// used for module bytes and for source digests alike.
pub open spec fn sp_char_bytes(cs: Seq<char>) -> Seq<u8> {
    Seq::new(cs.len(), |i: int| (cs[i] as int % 256) as u8)
}

pub open spec fn sp_module_bytes(names: Seq<Seq<char>>) -> Seq<u8>
    decreases names.len(),
{
    if names.len() == 0 {
        Seq::empty()
    } else {
        sp_module_bytes(names.drop_last()) + sp_char_bytes(names.last()) + seq![10u8]
    }
}

pub(crate) fn push_char_bytes(out: &mut Vec<u8>, s: &str)
    ensures
        final(out)@ == old(out)@ + sp_char_bytes(s@),
{
    let len = s.unicode_len();
    let mut i: usize = 0;
    while i < len
        invariant
            len == s@.len(),
            i <= len,
            out@ == old(out)@ + sp_char_bytes(s@).subrange(0, i as int),
        decreases len - i,
    {
        let c = s.get_char(i);
        let cu: u32 = c as u32;
        let b: u8 = (cu % 256) as u8;
        out.push(b);
        proof {
            assert(b == sp_char_bytes(s@)[i as int]);
            assert(out@ =~= old(out)@ + sp_char_bytes(s@).subrange(0, i + 1));
        }
        i += 1;
    }
    proof {
        assert(sp_char_bytes(s@).subrange(0, len as int) =~= sp_char_bytes(s@));
    }
}

/// The target-code context of one contract: the state of the two-pass
/// protocol. Declarations register a function's name; definitions are
/// only accepted for declared names, which makes declare-before-define a
/// machine-checked obligation of every caller.
#[derive(Debug)]
pub struct Context {
    pub module_name: String,
    pub include_metadata_hash: bool,
    /// Every declared function: its name and the front-end metadata
    /// attached to it at declaration, when the correlator found any.
    pub declared: Vec<(String, Option<FunctionInfo>)>,
    /// Every defined function: its name and the code-region tag that was
    /// active while its body was emitted.
    pub defined: Vec<(String, Option<CodeType>)>,
    pub code_type: Option<CodeType>,
    pub vyper_data: Option<ContextVyperData>,
    pub is_forwarder_used: bool,
}

impl Context {
    pub fn new(module_name: String, include_metadata_hash: bool) -> (r: Context)
        ensures
            r.module_name@ == module_name@,
            r.include_metadata_hash == include_metadata_hash,
            r.declared@ =~= Seq::<(String, Option<FunctionInfo>)>::empty(),
            r.defined@ =~= Seq::<(String, Option<CodeType>)>::empty(),
            r.code_type is None,
            r.vyper_data is None,
            !r.is_forwarder_used,
    {
        Context {
            module_name,
            include_metadata_hash,
            declared: Vec::new(),
            defined: Vec::new(),
            code_type: None,
            vyper_data: None,
            is_forwarder_used: false,
        }
    }

    /// Registers a function's name without a body, attaching its
    /// correlated front-end metadata, if any.
    pub fn declare_function(&mut self, name: String, metadata: Option<FunctionInfo>)
        ensures
            final(self).declared@ == old(self).declared@.push((name, metadata)),
            final(self).defined@ == old(self).defined@,
            final(self).code_type == old(self).code_type,
            final(self).vyper_data == old(self).vyper_data,
            final(self).is_forwarder_used == old(self).is_forwarder_used,
            final(self).module_name == old(self).module_name,
            final(self).include_metadata_hash == old(self).include_metadata_hash,
    {
        self.declared.push((name, metadata));
    }

    /// Emits a function's body. The name must have been declared first;
    /// emission records the active code-region tag and whether the body
    /// references the forwarder helper.
    pub fn define_function(&mut self, name: String, body: &Expression)
        requires
            contains_name(name_views(old(self).declared@), name@),
        ensures
            final(self).defined@ == old(self).defined@.push((name, old(self).code_type)),
            final(self).declared@ == old(self).declared@,
            final(self).code_type == old(self).code_type,
            final(self).vyper_data == old(self).vyper_data,
            final(self).is_forwarder_used == (old(self).is_forwarder_used || mentions(
                body.deep(),
                forwarder_ident(),
            )),
            final(self).module_name == old(self).module_name,
            final(self).include_metadata_hash == old(self).include_metadata_hash,
    {
        let used = mentions_exec(body, "__VYPER_FORWARDER_CONTRACT");
        if used {
            self.is_forwarder_used = true;
        }
        let tag = self.code_type;
        self.defined.push((name, tag));
    }

    /// Switches the active code-region tag before a body is emitted.
    pub fn set_code_type(&mut self, code_type: CodeType)
        ensures
            final(self).code_type == Some(code_type),
            final(self).declared@ == old(self).declared@,
            final(self).defined@ == old(self).defined@,
            final(self).vyper_data == old(self).vyper_data,
            final(self).is_forwarder_used == old(self).is_forwarder_used,
            final(self).module_name == old(self).module_name,
            final(self).include_metadata_hash == old(self).include_metadata_hash,
    {
        self.code_type = Some(code_type);
    }

    /// Installs the context-wide side record.
    pub fn set_vyper_data(&mut self, vyper_data: ContextVyperData)
        ensures
            final(self).vyper_data == Some(vyper_data),
            final(self).declared@ == old(self).declared@,
            final(self).defined@ == old(self).defined@,
            final(self).code_type == old(self).code_type,
            final(self).is_forwarder_used == old(self).is_forwarder_used,
            final(self).module_name == old(self).module_name,
            final(self).include_metadata_hash == old(self).include_metadata_hash,
    {
        self.vyper_data = Some(vyper_data);
    }

    /// Assembles the module: the bytecode is the module bytes of the
    /// defined functions, with the metadata hash appended verbatim when
    /// one is handed over and nothing in its place otherwise. The
    /// factory-dependency table starts empty.
    pub fn build(self, metadata_hash: Option<Vec<u8>>) -> (r: ContractBuild)
        ensures
            r.disassembly is None,
            r.factory_dependencies@ =~= Seq::<(Vec<u8>, String)>::empty(),
            (r.metadata_hash is Some <==> metadata_hash is Some),
            (match metadata_hash {
                Some(h) => r.metadata_hash matches Some(rh) && rh@ == h@ && r.bytecode@
                    == sp_module_bytes(name_views(self.defined@)) + h@,
                None => r.bytecode@ == sp_module_bytes(name_views(self.defined@)),
            }),
    {
        let mut bytecode: Vec<u8> = Vec::new();
        let ghost views = name_views(self.defined@);
        let mut i: usize = 0;
        while i < self.defined.len()
            invariant
                i <= self.defined@.len(),
                views == name_views(self.defined@),
                views.len() == self.defined@.len(),
                bytecode@ == sp_module_bytes(views.subrange(0, i as int)),
            decreases self.defined@.len() - i,
        {
            push_char_bytes(&mut bytecode, self.defined[i].0.as_str());
            bytecode.push(10);
            proof {
                assert(views.subrange(0, i + 1).drop_last() =~= views.subrange(0, i as int));
                assert(views.subrange(0, i + 1).last() == views[i as int]);
                assert(views[i as int] == self.defined@[i as int].0@);
                assert(bytecode@ =~= sp_module_bytes(views.subrange(0, i + 1)));
            }
            i += 1;
        }
        proof {
            assert(views.subrange(0, views.len() as int) =~= views);
        }
        let mut assembly = self.module_name;
        let mut k: usize = 0;
        while k < self.defined.len()
            invariant
                k <= self.defined@.len(),
            decreases self.defined@.len() - k,
        {
            assembly.append("\n");
            assembly.append(self.defined[k].0.as_str());
            k += 1;
        }
        match metadata_hash {
            Some(h) => {
                let mut bc = bytecode;
                let mut j: usize = 0;
                let ghost core = bc@;
                while j < h.len()
                    invariant
                        j <= h@.len(),
                        bc@ == core + h@.subrange(0, j as int),
                    decreases h@.len() - j,
                {
                    bc.push(h[j]);
                    proof {
                        assert(bc@ =~= core + h@.subrange(0, j + 1));
                    }
                    j += 1;
                }
                proof {
                    assert(h@.subrange(0, h@.len() as int) =~= h@);
                }
                ContractBuild {
                    assembly,
                    disassembly: None,
                    bytecode: bc,
                    metadata_hash: Some(h),
                    factory_dependencies: Vec::new(),
                }
            },
            None => ContractBuild {
                assembly,
                disassembly: None,
                bytecode,
                metadata_hash: None,
                factory_dependencies: Vec::new(),
            },
        }
    }
}

} // verus!
