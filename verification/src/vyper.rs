use vstd::prelude::*;
use crate::artifact::ContractBuild;
use crate::context::{
    contains_name, forwarder_ident, name_views, sp_module_bytes, Context, ContextVyperData,
};
use crate::deps::DependencyData;
use crate::error::Error;
use crate::expression::{
    deep_fun_seq, mentions, sp_extract_functions, sp_extract_runtime_code, ExprShape, Expression,
    SplitErr,
};
use crate::function::{correlate, sp_correlate, sp_strip_label, strip_label_suffix, CodeType, Function};
use crate::metadata::{
    clone_opt_info, sp_fingerprint, ContractMetadata, FunctionInfo, OptimizerSettings,
    SourceMetadata,
};
use crate::parser::{
    pairs_view, parse_abi, parse_expression, parse_metadata, sp_parse_abi, sp_parse_expression,
    sp_parse_metadata,
};
use crate::strutil::{digits_val, is_digit, parse_u64_digits};
use crate::version::{target_compiler_version, Version};

verus! {

pub open spec fn fn_entry_name() -> Seq<char> {
    "__entry"@
}

pub open spec fn fn_runtime_name() -> Seq<char> {
    "__runtime"@
}

pub open spec fn fn_deploy_code_name() -> Seq<char> {
    "__deploy_code"@
}

pub open spec fn fn_runtime_code_name() -> Seq<char> {
    "__runtime_code"@
}

/// The ways the definition pass can fail on a contract's expression.
pub enum LowerErr {
    MissingImmutablesSize,
    MissingRuntimeCode,
    DeployCodeShape,
    InvalidImmutablesFormat,
    ImmutablesParse,
    MalformedFunctionDefinition,
}

/// What a successful definition pass emits, derived from the root
/// expression alone: the immutables size, the two residual driver bodies,
/// and the extracted functions in order, deploy region first.
pub ghost struct LowerPlan {
    pub immutables_size: u64,
    pub deploy_residual: ExprShape,
    pub runtime_residual: ExprShape,
    pub functions: Seq<(Seq<char>, ExprShape)>,
    pub deploy_function_count: int,
}

pub open spec fn sp_default_region() -> ExprShape {
    ExprShape::List(Seq::empty())
}

pub open spec fn sp_default_immutables() -> ExprShape {
    ExprShape::Int(seq!['0'])
}

pub open spec fn sp_all_digits(s: Seq<char>) -> bool {
    s.len() >= 1 && forall|i: int| 0 <= i < s.len() ==> is_digit(#[trigger] s[i])
}

/// The definition pass as a function of the root expression: the region
/// split, the deploy-code shape check, the immutables-size literal, and
/// the function extraction of both regions, in the order the pass
/// performs them.
pub open spec fn sp_lower_plan(root: ExprShape) -> Result<LowerPlan, LowerErr> {
    match sp_extract_runtime_code(root) {
        Err(SplitErr::MissingImmutablesSize) => Err(LowerErr::MissingImmutablesSize),
        Err(SplitErr::MissingRuntimeCode) => Err(LowerErr::MissingRuntimeCode),
        Ok((rem, opt)) => {
            let runtime_code = match opt {
                Some((rt, _)) => rt,
                None => sp_default_region(),
            };
            let imm = match opt {
                Some((_, im)) => im,
                None => sp_default_immutables(),
            };
            if !(rem matches ExprShape::List(_)) {
                Err(LowerErr::DeployCodeShape)
            } else {
                match imm {
                    ExprShape::Int(digits) => if !sp_all_digits(digits) || digits_val(digits)
                        > u64::MAX {
                        Err(LowerErr::ImmutablesParse)
                    } else {
                        match sp_extract_functions(rem) {
                            Err(_) => Err(LowerErr::MalformedFunctionDefinition),
                            Ok((dres, dfuns)) => match sp_extract_functions(runtime_code) {
                                Err(_) => Err(LowerErr::MalformedFunctionDefinition),
                                Ok((rres, rfuns)) => Ok(
                                    LowerPlan {
                                        immutables_size: digits_val(digits) as u64,
                                        deploy_residual: dres,
                                        runtime_residual: rres,
                                        functions: dfuns + rfuns,
                                        deploy_function_count: dfuns.len() as int,
                                    },
                                ),
                            },
                        }
                    },
                    _ => Err(LowerErr::InvalidImmutablesFormat),
                }
            }
        },
    }
}

/// Whether any extracted function body at or after position `i` mentions
/// the forwarder helper.
pub open spec fn sp_any_body_mentions(funs: Seq<(Seq<char>, ExprShape)>, i: int) -> bool
    decreases funs.len() - i when 0 <= i <= funs.len()
{
    if i >= funs.len() {
        false
    } else {
        mentions(funs[i].1, forwarder_ident()) || sp_any_body_mentions(funs, i + 1)
    }
}

/// Whether the contract's emitted code references the forwarder helper:
/// some extracted function body or one of the two residual driver bodies
/// mentions it.
pub open spec fn sp_forwarder_referenced(plan: LowerPlan) -> bool {
    sp_any_body_mentions(plan.functions, 0) || mentions(plan.deploy_residual, forwarder_ident())
        || mentions(plan.runtime_residual, forwarder_ident())
}

/// The names of the plan's extracted functions, in emission order.
pub open spec fn sp_plan_names(plan: LowerPlan) -> Seq<Seq<char>> {
    Seq::new(plan.functions.len(), |i: int| plan.functions[i].0)
}

/// The names of every function a lowered module defines, in emission
/// order: the entry point and the runtime dispatcher, the extracted
/// functions, and the two region drivers.
pub open spec fn sp_all_defined_names(plan: LowerPlan) -> Seq<Seq<char>> {
    seq![fn_entry_name(), fn_runtime_name()] + sp_plan_names(plan) + seq![
        fn_deploy_code_name(),
        fn_runtime_code_name(),
    ]
}

/// How a lowered function's attached metadata relates to the contract's
/// source metadata: the correlator strips at most one recognized suffix
/// from the raw label and attaches the first entry whose IR identifier
/// equals the result; no match leaves the metadata absent, which is never
/// an error.
pub open spec fn sp_fun_meta_rel(
    entries: Seq<(String, FunctionInfo)>,
    label: Seq<char>,
    meta: Option<FunctionInfo>,
) -> bool {
    match sp_correlate(entries, sp_strip_label(label), 0) {
        Some(i) => meta matches Some(fi) && fi.ir_identifier@ == entries[i].1.ir_identifier@,
        None => meta is None,
    }
}

/// What compiling a Vyper contract guarantees of its result, for a given
/// path, optional source hash and optimizer settings: success exactly when
/// the definition pass succeeds on the root expression; the bytecode is
/// the module bytes of the emitted functions with the 32-byte fingerprint
/// appended exactly when a source hash was handed over; the factory table
/// holds the forwarder entry exactly when the emitted code references it;
/// a failure is a definition-pass error naming the path and the pass's
/// exact error.
pub open spec fn sp_vyper_compile_rel(
    c: Contract,
    contract_path: Seq<char>,
    source_code_hash: Option<Seq<u8>>,
    optimizer_settings: OptimizerSettings,
    r: Result<ContractBuild, Error>,
) -> bool {
    match r {
        Ok(b) => {
            &&& sp_lower_plan(c.expression.deep()) matches Ok(plan)
            &&& (sp_lower_plan(c.expression.deep()) matches Ok(plan) ==> {
                &&& (b.metadata_hash is Some <==> source_code_hash is Some)
                &&& (match source_code_hash {
                    Some(h) => b.metadata_hash matches Some(mh) && mh@ == sp_fingerprint(
                        h,
                        c.version,
                        crate::version::Version { major: 1u64, minor: 3u64, patch: 17u64 },
                        optimizer_settings,
                    ) && mh@.len() == 32 && b.bytecode@ == sp_module_bytes(
                        sp_all_defined_names(plan),
                    ) + mh@,
                    None => b.bytecode@ == sp_module_bytes(sp_all_defined_names(plan)),
                })
                &&& (sp_forwarder_referenced(plan) ==> b.factory_dependencies@.len() == 1
                    && b.factory_dependencies@[0].0@ == crate::forwarder::forwarder_hash_key()
                    && b.factory_dependencies@[0].1@ == forwarder_ident())
                &&& (!sp_forwarder_referenced(plan) ==> b.factory_dependencies@.len() == 0)
                &&& b.disassembly is None
            })
        },
        Err(e) => e matches Error::DefinitionPass { path, inner } && (path@ == contract_path && (
        sp_lower_plan(c.expression.deep()) matches Err(k) && sp_lower_err_matches(k, &inner))),
    }
}

/// Which definition-pass error an error value reports.
pub open spec fn sp_lower_err_matches(k: LowerErr, e: &Error) -> bool {
    match k {
        LowerErr::MissingImmutablesSize => e matches Error::MissingImmutablesSize,
        LowerErr::MissingRuntimeCode => e matches Error::MissingRuntimeCode,
        LowerErr::DeployCodeShape => e matches Error::DeployCodeShape,
        LowerErr::InvalidImmutablesFormat => e matches Error::InvalidImmutablesFormat,
        LowerErr::ImmutablesParse => e matches Error::ImmutablesSizeParse { .. },
        LowerErr::MalformedFunctionDefinition => e matches Error::MalformedFunctionDefinition,
    }
}

/// A contract produced by the Vyper front end: its compiler version, its
/// source text, the parsed source metadata, the root expression of its
/// IR, its ABI, and the inert dependency capability.
#[derive(Debug)]
pub struct Contract {
    pub version: Version,
    pub source_code: String,
    pub source_metadata: SourceMetadata,
    pub expression: Expression,
    pub abi: Vec<(String, String)>,
    pub dependency_data: DependencyData,
}

impl Contract {
    /// The number of front-end output lines that describe one contract.
    pub fn expected_lines() -> (r: usize)
        ensures
            r == 3,
    {
        3
    }

    pub fn new(
        version: Version,
        source_code: String,
        source_metadata: SourceMetadata,
        expression: Expression,
        abi: Vec<(String, String)>,
    ) -> (r: Contract)
        ensures
            r.version == version,
            r.source_code == source_code,
            r.source_metadata == source_metadata,
            r.expression == expression,
            r.abi == abi,
            r.dependency_data == (DependencyData {  }),
    {
        Contract {
            version,
            source_code,
            source_metadata,
            expression,
            abi,
            dependency_data: DependencyData {  },
        }
    }

    /// Parses the front end's output for one contract: strictly three
    /// lines, holding the expression tree, the function metadata, and the
    /// ABI, in that order. Any other line count, and any line that does
    /// not parse, is a hard error naming the offending line.
    pub fn try_from_lines(version: Version, source_code: String, lines: Vec<&str>) -> (r: Result<
        Contract,
        Error,
    >)
        ensures
            match r {
                Ok(c) => {
                    &&& lines@.len() == 3
                    &&& c.version == version
                    &&& c.source_code@ == source_code@
                    &&& c.dependency_data == (DependencyData {  })
                    &&& sp_parse_expression(lines@[0]@) == Some(c.expression.deep())
                    &&& sp_parse_metadata(lines@[1]@) matches Some(ev) && {
                        &&& crate::metadata::sp_entries_complete(ev)
                        &&& c.source_metadata.function_info@.len() == ev.len()
                        &&& forall|i: int|
                            0 <= i < ev.len() ==> (
                            #[trigger] c.source_metadata.function_info@[i]).0@ == ev[i].0 && Some(
                                c.source_metadata.function_info@[i].1.ir_identifier@,
                            ) == crate::metadata::sp_find_field(
                                ev[i].1,
                                crate::metadata::ir_identifier_key(),
                                0,
                            )
                    }
                    &&& sp_parse_abi(lines@[2]@) == Some(pairs_view(c.abi@))
                },
                Err(e) => match e {
                    Error::LineCount { expected, found } => expected == 3 && found == lines@.len()
                        && lines@.len() != 3,
                    Error::Syntax { line } => lines@.len() == 3 && (
                    (line == 0 && sp_parse_expression(lines@[0]@) is None) || (line == 1 && (
                    sp_parse_metadata(lines@[1]@) is None || (sp_parse_metadata(lines@[1]@)
                        matches Some(ev) && !crate::metadata::sp_entries_complete(ev)))) || (line
                        == 2 && sp_parse_expression(lines@[0]@) is Some && sp_parse_abi(lines@[2]@)
                        is None)),
                    _ => false,
                },
            },
    {
        if lines.len() != 3 {
            return Err(Error::LineCount { expected: 3, found: lines.len() });
        }
        let line0: &str = lines[0];
        let line1: &str = lines[1];
        let line2: &str = lines[2];
        let expression = match parse_expression(line0) {
            Some(e) => e,
            None => {
                return Err(Error::Syntax { line: 0 });
            },
        };
        let entries = match parse_metadata(line1) {
            Some(es) => es,
            None => {
                return Err(Error::Syntax { line: 1 });
            },
        };
        let source_metadata = match SourceMetadata::from_entries(entries) {
            Some(m) => m,
            None => {
                return Err(Error::Syntax { line: 1 });
            },
        };
        let abi = match parse_abi(line2) {
            Some(a) => a,
            None => {
                return Err(Error::Syntax { line: 2 });
            },
        };
        Ok(Contract::new(version, source_code, source_metadata, expression, abi))
    }

    /// The declaration pass: registers the entry point, the runtime
    /// dispatcher and the two region drivers, then emits the placeholder
    /// bodies of the first two. Every name is declared before any body is
    /// emitted.
    pub fn declare(&self, context: &mut Context)
        ensures
            name_views(final(context).declared@) =~= name_views(old(context).declared@) + seq![
                fn_entry_name(),
                fn_runtime_name(),
                fn_deploy_code_name(),
                fn_runtime_code_name(),
            ],
            name_views(final(context).defined@) =~= name_views(old(context).defined@) + seq![
                fn_entry_name(),
                fn_runtime_name(),
            ],
            final(context).defined@.len() == old(context).defined@.len() + 2,
            final(context).defined@[old(context).defined@.len() as int].1 == old(
                context,
            ).code_type,
            final(context).defined@[old(context).defined@.len() + 1int].1 == old(context).code_type,
            final(context).code_type == old(context).code_type,
            final(context).is_forwarder_used == old(context).is_forwarder_used,
            final(context).vyper_data == old(context).vyper_data,
            final(context).module_name == old(context).module_name,
            final(context).include_metadata_hash == old(context).include_metadata_hash,
    {
        context.declare_function(("__entry").to_owned(), None);
        context.declare_function(("__runtime").to_owned(), None);
        context.declare_function(("__deploy_code").to_owned(), None);
        context.declare_function(("__runtime_code").to_owned(), None);
        let ghost base = old(context).declared@.len() as int;
        proof {
            assert(name_views(context.declared@)[base as int] == fn_entry_name());
            assert(name_views(context.declared@)[base + 1] == fn_runtime_name());
        }
        let placeholder = Expression::List(Vec::new());
        proof {
            crate::expression::lemma_deep_seq_len(Seq::<Expression>::empty());
            assert(!mentions(placeholder.deep(), forwarder_ident()));
        }
        context.define_function(("__entry").to_owned(), &placeholder);
        context.define_function(("__runtime").to_owned(), &placeholder);
        proof {
            assert(name_views(context.declared@) =~= name_views(old(context).declared@) + seq![
                fn_entry_name(),
                fn_runtime_name(),
                fn_deploy_code_name(),
                fn_runtime_code_name(),
            ]);
            assert(name_views(context.defined@) =~= name_views(old(context).defined@) + seq![
                fn_entry_name(),
                fn_runtime_name(),
            ]);
        }
    }

    /// The definition pass: splits the root into its regions, installs
    /// the immutables-size record, extracts and correlates every
    /// function, declares them all, then emits each body under its code
    /// region's tag, and finally emits the two region drivers.
    pub fn into_llvm(self, context: &mut Context) -> (r: Result<(), Error>)
        requires
            contains_name(name_views(old(context).declared@), fn_deploy_code_name()),
            contains_name(name_views(old(context).declared@), fn_runtime_code_name()),
        ensures
            match r {
                Ok(_) => {
                    &&& sp_lower_plan(self.expression.deep()) matches Ok(plan)
                    &&& (sp_lower_plan(self.expression.deep()) matches Ok(plan) ==> {
                        &&& final(context).vyper_data == Some(
                            ContextVyperData {
                                immutables_size: plan.immutables_size,
                                is_system_mode: false,
                            },
                        )
                        &&& final(context).is_forwarder_used == (old(context).is_forwarder_used
                            || sp_forwarder_referenced(plan))
                        &&& name_views(final(context).defined@) =~= name_views(
                            old(context).defined@,
                        ) + sp_plan_names(plan) + seq![
                            fn_deploy_code_name(),
                            fn_runtime_code_name(),
                        ]
                        &&& final(context).defined@.len() == old(context).defined@.len()
                            + plan.functions.len() + 2
                        &&& (forall|j: int|
                            0 <= j < plan.functions.len() ==> (#[trigger] final(context).defined@[
                            old(context).defined@.len() + j]).1 == Some(
                                if j < plan.deploy_function_count {
                                    CodeType::Deploy
                                } else {
                                    CodeType::Runtime
                                },
                            ))
                        &&& final(context).defined@[old(context).defined@.len()
                            + plan.functions.len() + 0int].1 == Some(CodeType::Deploy)
                        &&& final(context).defined@[old(context).defined@.len()
                            + plan.functions.len() + 1int].1 == Some(CodeType::Runtime)
                        &&& final(context).declared@.len() == old(context).declared@.len()
                            + plan.functions.len()
                        &&& (forall|j: int|
                            0 <= j < plan.functions.len() ==> sp_fun_meta_rel(
                                self.source_metadata.function_info@,
                                plan.functions[j].0,
                                (#[trigger] final(context).declared@[old(context).declared@.len()
                                    + j]).1,
                            ))
                        &&& final(context).module_name == old(context).module_name
                        &&& final(context).include_metadata_hash == old(
                            context,
                        ).include_metadata_hash
                    })
                },
                Err(e) => {
                    &&& sp_lower_plan(self.expression.deep()) matches Err(k)
                        && sp_lower_err_matches(k, &e)
                    &&& final(context).declared@ == old(context).declared@
                    &&& final(context).defined@ == old(context).defined@
                    &&& final(context).is_forwarder_used == old(context).is_forwarder_used
                    &&& final(context).module_name == old(context).module_name
                    &&& final(context).include_metadata_hash == old(context).include_metadata_hash
                },
            },
    {
        let ghost root = self.expression.deep();
        let Contract { source_metadata, expression, .. } = self;
        let (remainder, opt) = match expression.extract_runtime_code() {
            Ok(p) => p,
            Err(e) => {
                return Err(e);
            },
        };
        let (runtime_code, immutables) = match opt {
            Some((rt, im)) => (rt, im),
            None => {
                let empty_region = Expression::List(Vec::new());
                let zero = Expression::IntegerLiteral(("0").to_owned());
                proof {
                    crate::expression::lemma_deep_seq_len(Seq::<Expression>::empty());
                    reveal_strlit("0");
                    assert("0"@ =~= seq!['0']);
                    assert(zero.deep() == sp_default_immutables());
                    assert(empty_region.deep() == sp_default_region());
                }
                (empty_region, zero)
            },
        };
        let deploy_code = match remainder.try_into_deploy_code() {
            Ok(d) => d,
            Err(e) => {
                return Err(e);
            },
        };
        let immutables_size: u64 = match immutables {
            Expression::IntegerLiteral(number) => {
                if !all_digits(number.as_str()) {
                    return Err(Error::ImmutablesSizeParse { digits: number });
                }
                match parse_u64_digits(number.as_str()) {
                    Some(v) => v,
                    None => {
                        return Err(Error::ImmutablesSizeParse { digits: number });
                    },
                }
            },
            _ => {
                return Err(Error::InvalidImmutablesFormat);
            },
        };
        context.set_vyper_data(ContextVyperData { immutables_size, is_system_mode: false });
        let (deploy_residual, mut function_expressions) = match deploy_code.extract_functions() {
            Ok(p) => p,
            Err(e) => {
                return Err(e);
            },
        };
        let (runtime_residual, mut runtime_functions) = match runtime_code.extract_functions() {
            Ok(p) => p,
            Err(e) => {
                return Err(e);
            },
        };
        let ghost plan = sp_lower_plan(root)->Ok_0;
        let deploy_count = function_expressions.len();
        let ghost dfuns = deep_fun_seq(function_expressions@);
        let ghost rfuns = deep_fun_seq(runtime_functions@);
        function_expressions.append(&mut runtime_functions);
        proof {
            assert(deep_fun_seq(function_expressions@) =~= dfuns + rfuns);
            assert(plan.functions == dfuns + rfuns);
            assert(plan.deploy_function_count == deploy_count as int);
        }
        let ghost worklist_shapes = deep_fun_seq(function_expressions@);

        // Correlate every extracted function with its source metadata.
        let mut functions: Vec<(Function, CodeType)> = Vec::new();
        let mut rest = function_expressions;
        let n = rest.len();
        let mut i: usize = 0;
        while i < n
            invariant
                n as int == worklist_shapes.len(),
                rest@.len() == n - i,
                i <= n,
                deep_fun_seq(rest@) =~= worklist_shapes.subrange(i as int, n as int),
                functions@.len() == i,
                forall|j: int|
                    0 <= j < i ==> (#[trigger] functions@[j]).0.label@ == worklist_shapes[j].0
                        && functions@[j].0.body.deep() == worklist_shapes[j].1,
                forall|j: int|
                    0 <= j < i ==> (#[trigger] functions@[j]).1 == (if j < deploy_count as int {
                        CodeType::Deploy
                    } else {
                        CodeType::Runtime
                    }),
                forall|j: int|
                    0 <= j < i ==> sp_fun_meta_rel(
                        source_metadata.function_info@,
                        worklist_shapes[j].0,
                        (#[trigger] functions@[j]).0.metadata,
                    ),
            decreases n - i,
        {
            let ghost rest_old = rest@;
            let (label, body) = rest.remove(0);
            proof {
                assert(deep_fun_seq(rest_old)[0] == (rest_old[0].0@, rest_old[0].1.deep()));
                assert(label@ == worklist_shapes[i as int].0);
                assert(body.deep() == worklist_shapes[i as int].1);
                assert forall|k: int| 0 <= k < rest@.len() implies deep_fun_seq(rest@)[k]
                    == worklist_shapes.subrange(i + 1, n as int)[k] by {
                    assert(rest@[k] == rest_old[k + 1]);
                    assert(deep_fun_seq(rest_old)[k + 1] == (
                        rest_old[k + 1].0@,
                        rest_old[k + 1].1.deep(),
                    ));
                }
                assert(deep_fun_seq(rest@) =~= worklist_shapes.subrange(i + 1, n as int));
            }
            let code_type = if i < deploy_count {
                CodeType::Deploy
            } else {
                CodeType::Runtime
            };
            let metadata_label = strip_label_suffix(label.as_str());
            let metadata: Option<FunctionInfo> = match correlate(
                &source_metadata,
                metadata_label.as_str(),
            ) {
                Some(idx) => Some(source_metadata.function_info[idx].1.duplicate()),
                None => None,
            };
            let ghost meta_snap = metadata;
            proof {
                assert(metadata_label@ == sp_strip_label(worklist_shapes[i as int].0));
                assert(sp_fun_meta_rel(
                    source_metadata.function_info@,
                    worklist_shapes[i as int].0,
                    meta_snap,
                ));
            }
            functions.push((Function::new(label, metadata, body), code_type));
            i += 1;
        }

        // Declare every function before defining any of their bodies, so
        // that forward references between the regions resolve.
        let mut j: usize = 0;
        while j < functions.len()
            invariant
                functions@.len() == n,
                n as int == worklist_shapes.len(),
                j <= n,
                forall|k: int|
                    0 <= k < n ==> (#[trigger] functions@[k]).0.label@ == worklist_shapes[k].0
                        && functions@[k].0.body.deep() == worklist_shapes[k].1,
                forall|k: int|
                    0 <= k < n ==> sp_fun_meta_rel(
                        source_metadata.function_info@,
                        worklist_shapes[k].0,
                        (#[trigger] functions@[k]).0.metadata,
                    ),
                name_views(context.declared@) =~= name_views(old(context).declared@) + Seq::new(
                    j as nat,
                    |k: int| worklist_shapes[k].0,
                ),
                context.declared@.len() == old(context).declared@.len() + j,
                forall|k: int|
                    0 <= k < j ==> sp_fun_meta_rel(
                        source_metadata.function_info@,
                        worklist_shapes[k].0,
                        (#[trigger] context.declared@[old(context).declared@.len() + k]).1,
                    ),
                context.defined@ == old(context).defined@,
                context.is_forwarder_used == old(context).is_forwarder_used,
                context.vyper_data == Some(
                    ContextVyperData { immutables_size, is_system_mode: false },
                ),
                context.module_name == old(context).module_name,
                context.include_metadata_hash == old(context).include_metadata_hash,
            decreases n - j,
        {
            let label = functions[j].0.label.clone();
            let metadata = clone_opt_info(&functions[j].0.metadata);
            let ghost label_snap = label;
            let ghost meta_snap = metadata;
            proof {
                assert(sp_fun_meta_rel(
                    source_metadata.function_info@,
                    worklist_shapes[j as int].0,
                    meta_snap,
                ));
            }
            let ghost pre = context.declared@;
            context.declare_function(label, metadata);
            proof {
                let nv_old = name_views(old(context).declared@);
                let prev = nv_old + Seq::new(j as nat, |k: int| worklist_shapes[k].0);
                let tgt = nv_old + Seq::new((j + 1) as nat, |k: int| worklist_shapes[k].0);
                assert(label_snap@ == worklist_shapes[j as int].0);
                assert(context.declared@ == pre.push((label_snap, meta_snap)));
                assert(name_views(pre) =~= prev);
                assert(name_views(pre).len() == pre.len());
                assert(prev.len() == nv_old.len() + j);
                assert(pre.len() == nv_old.len() + j);
                assert forall|k: int| 0 <= k < name_views(context.declared@).len() implies
                    name_views(context.declared@)[k] == tgt[k] by {
                    assert(name_views(context.declared@)[k] == context.declared@[k].0@);
                    if k < pre.len() {
                        assert(context.declared@[k] == pre[k]);
                        assert(name_views(pre)[k] == pre[k].0@);
                        assert(name_views(pre)[k] == prev[k]);
                        if k < nv_old.len() {
                            assert(prev[k] == nv_old[k] && tgt[k] == nv_old[k]);
                        } else {
                            assert(prev[k] == worklist_shapes[k - nv_old.len()].0);
                            assert(tgt[k] == worklist_shapes[k - nv_old.len()].0);
                        }
                    } else {
                        assert(context.declared@[k].0 == label_snap);
                        assert(tgt[k] == worklist_shapes[j as int].0);
                    }
                }
                assert(name_views(context.declared@) =~= tgt);
            }
            j += 1;
        }
        let ghost declared_after = name_views(context.declared@);
        let ghost declared_full = context.declared@;

        // Define every function under its region's tag.
        let mut functions_rest = functions;
        let mut d: usize = 0;
        let ghost fwd_base = context.is_forwarder_used;
        while d < n
            invariant
                functions_rest@.len() == n - d,
                d <= n,
                n as int == worklist_shapes.len(),
                forall|k: int|
                    0 <= k < functions_rest@.len() ==> (#[trigger] functions_rest@[k]).0.label@
                        == worklist_shapes[d + k].0 && functions_rest@[k].0.body.deep()
                        == worklist_shapes[d + k].1 && functions_rest@[k].1 == (if d + k
                        < deploy_count as int {
                        CodeType::Deploy
                    } else {
                        CodeType::Runtime
                    }),
                context.declared@ == declared_full,
                name_views(context.declared@) == declared_after,
                declared_after =~= name_views(old(context).declared@) + Seq::new(
                    n as nat,
                    |k: int| worklist_shapes[k].0,
                ),
                name_views(context.defined@) =~= name_views(old(context).defined@) + Seq::new(
                    d as nat,
                    |k: int| worklist_shapes[k].0,
                ),
                context.defined@.len() == old(context).defined@.len() + d,
                forall|k: int|
                    0 <= k < d ==> (#[trigger] context.defined@[old(context).defined@.len()
                        + k]).1 == Some(
                        if k < deploy_count as int {
                            CodeType::Deploy
                        } else {
                            CodeType::Runtime
                        },
                    ),
                (fwd_base || sp_any_body_mentions(worklist_shapes, 0)) == (
                context.is_forwarder_used || sp_any_body_mentions(worklist_shapes, d as int)),
                context.vyper_data == Some(
                    ContextVyperData { immutables_size, is_system_mode: false },
                ),
                context.module_name == old(context).module_name,
                context.include_metadata_hash == old(context).include_metadata_hash,
            decreases n - d,
        {
            let ghost fr_old = functions_rest@;
            let (function, code_type) = functions_rest.remove(0);
            context.set_code_type(code_type);
            proof {
                assert(function == fr_old[0].0);
                assert(function.label@ == worklist_shapes[d as int].0);
                let base = name_views(old(context).declared@).len() as int;
                assert(declared_after[base + d] == worklist_shapes[d as int].0);
                assert(contains_name(declared_after, function.label@));
                assert(code_type == fr_old[0].1);
                assert forall|k: int| 0 <= k < functions_rest@.len() implies (
                #[trigger] functions_rest@[k]).0.label@ == worklist_shapes[d + 1 + k].0
                    && functions_rest@[k].0.body.deep() == worklist_shapes[d + 1 + k].1
                    && functions_rest@[k].1 == (if d + 1 + k < deploy_count as int {
                    CodeType::Deploy
                } else {
                    CodeType::Runtime
                }) by {
                    assert(functions_rest@[k] == fr_old[k + 1]);
                }
            }
            let ghost label_val = function.label;
            let ghost pre_def = context.defined@;
            let ghost body_shape = function.body.deep();
            context.define_function(function.label, &function.body);
            proof {
                let nv_old = name_views(old(context).defined@);
                let prev = nv_old + Seq::new(d as nat, |k: int| worklist_shapes[k].0);
                let tgt = nv_old + Seq::new((d + 1) as nat, |k: int| worklist_shapes[k].0);
                assert(label_val@ == worklist_shapes[d as int].0);
                assert(context.defined@ == pre_def.push((label_val, Some(code_type))));
                assert(name_views(pre_def) =~= prev);
                assert(name_views(pre_def).len() == pre_def.len());
                assert(prev.len() == nv_old.len() + d);
                assert(pre_def.len() == nv_old.len() + d);
                assert forall|k: int| 0 <= k < name_views(context.defined@).len() implies
                    name_views(context.defined@)[k] == tgt[k] by {
                    assert(name_views(context.defined@)[k] == context.defined@[k].0@);
                    if k < pre_def.len() {
                        assert(context.defined@[k] == pre_def[k]);
                        assert(name_views(pre_def)[k] == pre_def[k].0@);
                        assert(name_views(pre_def)[k] == prev[k]);
                        if k < nv_old.len() {
                            assert(prev[k] == nv_old[k] && tgt[k] == nv_old[k]);
                        } else {
                            assert(prev[k] == worklist_shapes[k - nv_old.len()].0);
                            assert(tgt[k] == worklist_shapes[k - nv_old.len()].0);
                        }
                    } else {
                        assert(context.defined@[k].0 == label_val);
                        assert(tgt[k] == worklist_shapes[d as int].0);
                    }
                }
                assert(name_views(context.defined@) =~= tgt);
                assert(mentions(body_shape, forwarder_ident()) == mentions(
                    worklist_shapes[d as int].1,
                    forwarder_ident(),
                ));
            }
            d += 1;
        }

        // Emit the two region drivers over the residual statements.
        proof {
            let nv_old = name_views(old(context).declared@);
            let iw = choose|iw: int|
                0 <= iw < nv_old.len() && nv_old[iw] == fn_deploy_code_name();
            assert(declared_after[iw] == fn_deploy_code_name());
            assert(contains_name(declared_after, fn_deploy_code_name()));
            let iw2 = choose|iw2: int|
                0 <= iw2 < nv_old.len() && nv_old[iw2] == fn_runtime_code_name();
            assert(declared_after[iw2] == fn_runtime_code_name());
            assert(contains_name(declared_after, fn_runtime_code_name()));
        }
        let ghost defined_after_funs = context.defined@;
        context.set_code_type(CodeType::Deploy);
        context.define_function(("__deploy_code").to_owned(), &deploy_residual);
        context.set_code_type(CodeType::Runtime);
        context.define_function(("__runtime_code").to_owned(), &runtime_residual);
        proof {
            assert(plan.deploy_residual == deploy_residual.deep());
            assert(plan.runtime_residual == runtime_residual.deep());
            assert(worklist_shapes == plan.functions);
            assert(Seq::new(n as nat, |k: int| worklist_shapes[k].0) =~= sp_plan_names(plan));
            assert(name_views(context.defined@) =~= name_views(old(context).defined@)
                + sp_plan_names(plan) + seq![fn_deploy_code_name(), fn_runtime_code_name()]);
            assert(context.is_forwarder_used == (fwd_base || sp_forwarder_referenced(plan)));
            let base_def = old(context).defined@.len() as int;
            assert(context.defined@.len() == base_def + plan.functions.len() + 2);
            assert forall|j: int| 0 <= j < plan.functions.len() implies (#[trigger] context.defined@[
                base_def + j]).1 == Some(
                if j < plan.deploy_function_count {
                    CodeType::Deploy
                } else {
                    CodeType::Runtime
                },
            ) by {
                assert(context.defined@[base_def + j] == defined_after_funs[base_def + j]);
            }
            assert(context.defined@[base_def + plan.functions.len()].1 == Some(CodeType::Deploy));
            assert(context.defined@[base_def + plan.functions.len() + 1].1 == Some(
                CodeType::Runtime,
            ));
            let base_dec = old(context).declared@.len() as int;
            assert(context.declared@ == declared_full);
            assert(context.declared@.len() == base_dec + plan.functions.len());
            assert forall|j: int| 0 <= j < plan.functions.len() implies sp_fun_meta_rel(
                source_metadata.function_info@,
                plan.functions[j].0,
                (#[trigger] context.declared@[base_dec + j]).1,
            ) by {
                assert(sp_fun_meta_rel(
                    source_metadata.function_info@,
                    worklist_shapes[j].0,
                    context.declared@[base_dec + j].1,
                ));
            }
        }
        Ok(())
    }

    /// Compiles the contract: fingerprints its metadata when a source
    /// hash is handed over, runs the two passes, and assembles the build,
    /// adding the forwarder to the factory dependencies exactly when the
    /// emitted code references it. A definition-pass failure aborts the
    /// compilation with an error naming the contract path and the pass.
    pub fn compile(
        self,
        contract_path: &str,
        source_code_hash: Option<Vec<u8>>,
        optimizer_settings: OptimizerSettings,
    ) -> (r: Result<ContractBuild, Error>)
        ensures
            sp_vyper_compile_rel(
                self,
                contract_path@,
                crate::artifact::sp_opt_bytes(source_code_hash),
                optimizer_settings,
                r,
            ),
    {
        let metadata_hash: Option<Vec<u8>> = match source_code_hash {
            Some(h) => Some(
                ContractMetadata::new(
                    h,
                    self.version,
                    target_compiler_version(),
                    optimizer_settings,
                ).keccak256(),
            ),
            None => None,
        };
        let include_metadata_hash = metadata_hash.is_some();
        let mut context = Context::new(contract_path.to_owned(), include_metadata_hash);
        self.declare(&mut context);
        proof {
            assert(name_views(context.declared@)[2] == fn_deploy_code_name());
            assert(name_views(context.declared@)[3] == fn_runtime_code_name());
            assert(contains_name(name_views(context.declared@), fn_deploy_code_name()));
            assert(contains_name(name_views(context.declared@), fn_runtime_code_name()));
        }
        let ghost defined_before = context.defined@;
        match self.into_llvm(&mut context) {
            Ok(_) => {},
            Err(e) => {
                return Err(
                    Error::DefinitionPass { path: contract_path.to_owned(), inner: Box::new(e) },
                );
            },
        }
        let ghost plan = sp_lower_plan(self.expression.deep())->Ok_0;
        proof {
            assert(name_views(context.defined@) =~= sp_all_defined_names(plan));
        }
        let is_forwarder_used = context.is_forwarder_used;
        let mut build = context.build(metadata_hash);
        if is_forwarder_used {
            build.factory_dependencies.push(
                (crate::forwarder::forwarder_hash(), crate::forwarder::forwarder_name()),
            );
        }
        Ok(build)
    }
}

/// Decides whether a string is a non-empty run of decimal digits.
fn all_digits(s: &str) -> (r: bool)
    ensures
        r == sp_all_digits(s@),
{
    let len = s.unicode_len();
    if len == 0 {
        return false;
    }
    let mut i: usize = 0;
    while i < len
        invariant
            len == s@.len(),
            i <= len,
            forall|k: int| 0 <= k < i ==> is_digit(#[trigger] s@[k]),
        decreases len - i,
    {
        let c = s.get_char(i);
        let cu = c as u32;
        if !(cu >= 48 && cu <= 57) {
            proof {
                assert(!is_digit(s@[i as int]));
            }
            return false;
        }
        proof {
            assert(is_digit(s@[i as int]));
        }
        i += 1;
    }
    true
}

} // verus!
