use vyper_backend::artifact::ContractBuild;
use vyper_backend::contract::{Contract, LlvmIrContract};
use vyper_backend::deps::DependencyData;
use vyper_backend::error::Error;
use vyper_backend::expression::Expression;
use vyper_backend::forwarder::{forwarder_bytecode, forwarder_hash, forwarder_name};
use vyper_backend::function::strip_label_suffix;
use vyper_backend::hash::keccak256;
use vyper_backend::metadata::{ContractMetadata, OptimizerSettings, SourceMetadata};
use vyper_backend::parser::{parse_abi, parse_expression, parse_metadata};
use vyper_backend::project::{aggregate_results, EncodingMode, Project};
use vyper_backend::strutil::{ends_with, parse_u64_digits, str_eq};
use vyper_backend::version::Version;
use vyper_backend::vyper::Contract as VyperContract;

fn vyper_from_lines(lines: Vec<&str>) -> VyperContract {
    VyperContract::try_from_lines(Version::new(0, 3, 10), String::from("source"), lines)
        .expect("contract parses")
}

fn default_settings() -> OptimizerSettings {
    OptimizerSettings::default()
}

#[test]
fn parse_expression_integer_headed_list() {
    let e = parse_expression("[1,[]]").expect("parses");
    match e {
        Expression::List(items) => {
            assert_eq!(items.len(), 2);
            assert!(matches!(&items[0], Expression::IntegerLiteral(t) if t == "1"));
            assert!(matches!(&items[1], Expression::List(inner) if inner.is_empty()));
        }
        _ => panic!("expected a list"),
    }
}

#[test]
fn parse_expression_strings_and_whitespace() {
    let e = parse_expression(" [ \"seq\" , 42 , [ \"x\" ] ] ").expect("parses");
    match e {
        Expression::List(items) => {
            assert_eq!(items.len(), 3);
            assert!(matches!(&items[0], Expression::Identifier(t) if t == "seq"));
            assert!(matches!(&items[1], Expression::IntegerLiteral(t) if t == "42"));
        }
        _ => panic!("expected a list"),
    }
}

#[test]
fn parse_expression_rejects_garbage() {
    assert!(parse_expression("[1,[]] x").is_none());
    assert!(parse_expression("[1,").is_none());
    assert!(parse_expression("\"unclosed").is_none());
    assert!(parse_expression("[\"a\\\"b\"]").is_none());
    assert!(parse_expression("").is_none());
    assert!(parse_expression("[1,]").is_none());
}

#[test]
fn parse_abi_objects() {
    let empty = parse_abi("{}").expect("parses");
    assert!(empty.is_empty());
    let two = parse_abi("{\"a\": \"b\", \"c\": \"d\"}").expect("parses");
    assert_eq!(two.len(), 2);
    assert_eq!(two[0].0, "a");
    assert_eq!(two[0].1, "b");
    assert_eq!(two[1].0, "c");
    assert_eq!(two[1].1, "d");
    assert!(parse_abi("{\"a\": 1}").is_none());
    assert!(parse_abi("[]").is_none());
}

#[test]
fn parse_metadata_entries() {
    let empty = parse_metadata("{}").expect("parses");
    assert!(empty.is_empty());
    let one = parse_metadata(
        "{\"function_info\": {\"transfer\": {\"ir_identifier\": \"transfer_3\", \"visibility\": \"external\"}}}",
    )
    .expect("parses");
    assert_eq!(one.len(), 1);
    assert_eq!(one[0].0, "transfer");
    assert_eq!(one[0].1.len(), 2);
    assert_eq!(one[0].1[0].0, "ir_identifier");
    assert_eq!(one[0].1[0].1, "transfer_3");
    assert!(parse_metadata("{\"other\": {}}").is_none());
}

#[test]
fn metadata_requires_ir_identifier() {
    let entries = parse_metadata("{\"function_info\": {\"f\": {\"visibility\": \"external\"}}}")
        .expect("parses");
    assert!(SourceMetadata::from_entries(entries).is_none());
}

#[test]
fn strip_label_suffixes() {
    assert_eq!(strip_label_suffix("foo_deploy"), "foo");
    assert_eq!(strip_label_suffix("foo_runtime"), "foo");
    assert_eq!(strip_label_suffix("foo_common"), "foo");
    assert_eq!(strip_label_suffix("bar"), "bar");
    assert_eq!(strip_label_suffix("_deploy"), "");
}

#[test]
fn strip_label_precedence_and_stacking() {
    // The common tag wins over the runtime tag; a stacked label loses one
    // suffix per strip, so a second strip can change it further.
    assert_eq!(strip_label_suffix("f_runtime_common"), "f_runtime");
    let once = strip_label_suffix("f_runtime_common");
    let twice = strip_label_suffix(&once);
    assert_eq!(twice, "f");
}

#[test]
fn strip_label_idempotent_when_single_suffix() {
    let once = strip_label_suffix("transfer_deploy");
    let twice = strip_label_suffix(&once);
    assert_eq!(once, twice);
}

#[test]
fn parse_u64_digit_bounds() {
    assert_eq!(parse_u64_digits("0"), Some(0));
    assert_eq!(parse_u64_digits("18446744073709551615"), Some(u64::MAX));
    assert_eq!(parse_u64_digits("18446744073709551616"), None);
}

#[test]
fn string_utilities() {
    assert!(str_eq("abc", "abc"));
    assert!(!str_eq("abc", "abd"));
    assert!(ends_with("foo_deploy", "_deploy"));
    assert!(!ends_with("deploy", "_deploy"));
}

#[test]
fn keccak_is_a_real_digest() {
    let empty = keccak256(&[]);
    assert_eq!(empty.len(), 32);
    // Keccak-256 of the empty input starts with c5 d2 46 01.
    assert_eq!(&empty[..4], &[0xc5, 0xd2, 0x46, 0x01]);
    let a = keccak256(b"a");
    assert_ne!(a, empty);
    assert_ne!(a.as_slice(), b"a");
}

#[test]
fn fingerprint_deterministic_and_field_sensitive() {
    let hash = vec![7u8; 32];
    let m1 = ContractMetadata::new(hash.clone(), Version::new(0, 3, 10), Version::new(1, 3, 17), default_settings());
    let m2 = ContractMetadata::new(hash.clone(), Version::new(0, 3, 10), Version::new(1, 3, 17), default_settings());
    assert_eq!(m1.keccak256(), m2.keccak256());
    let m3 = ContractMetadata::new(hash.clone(), Version::new(0, 3, 9), Version::new(1, 3, 17), default_settings());
    assert_ne!(m1.keccak256(), m3.keccak256());
    let m4 = ContractMetadata::new(vec![8u8; 32], Version::new(0, 3, 10), Version::new(1, 3, 17), default_settings());
    assert_ne!(m1.keccak256(), m4.keccak256());
    let m5 = ContractMetadata::new(hash.clone(), Version::new(0, 3, 10), Version::new(1, 3, 18), default_settings());
    assert_ne!(m1.keccak256(), m5.keccak256());
    let m6 = ContractMetadata::new(
        hash,
        Version::new(0, 3, 10),
        Version::new(1, 3, 17),
        OptimizerSettings::new(0, 0, true),
    );
    assert_ne!(m1.keccak256(), m6.keccak256());
}

#[test]
fn region_split_round_trip_counts() {
    // [["deploy", 7, ["x"]], "rest"]: splitting removes the marker list
    // and its heading identifier (two nodes) and yields the remainder,
    // the runtime region and the immutables literal.
    let root = parse_expression("[[\"deploy\",7,[\"x\"]],\"rest\"]").expect("parses");
    let total = count_nodes_of(&root);
    let (rem, opt) = root.extract_runtime_code().expect("splits");
    let (runtime, imm) = opt.expect("marker present");
    let split_total =
        count_nodes_of(&rem) + count_nodes_of(&runtime) + count_nodes_of(&imm) + 2;
    assert_eq!(total, split_total);
    assert!(matches!(&imm, Expression::IntegerLiteral(t) if t == "7"));
    let deploy = rem.try_into_deploy_code().expect("remainder is a list");
    match deploy {
        Expression::List(items) => {
            assert_eq!(items.len(), 1);
            assert!(matches!(&items[0], Expression::Identifier(t) if t == "rest"));
        }
        _ => panic!("expected a list"),
    }
}

fn count_nodes_of(e: &Expression) -> usize {
    match e {
        Expression::IntegerLiteral(_) => 1,
        Expression::Identifier(_) => 1,
        Expression::List(items) => 1 + items.iter().map(count_nodes_of).sum::<usize>(),
    }
}

#[test]
fn region_split_shape_errors() {
    let no_imm = parse_expression("[[\"deploy\"]]").expect("parses");
    assert!(matches!(no_imm.extract_runtime_code(), Err(Error::MissingImmutablesSize)));
    let no_runtime = parse_expression("[[\"deploy\",1]]").expect("parses");
    assert!(matches!(no_runtime.extract_runtime_code(), Err(Error::MissingRuntimeCode)));
    let no_marker = parse_expression("[1,2]").expect("parses");
    let (rem, opt) = no_marker.extract_runtime_code().expect("no marker is fine");
    assert!(opt.is_none());
    assert!(rem.try_into_deploy_code().is_ok());
    let not_list = parse_expression("5").expect("parses");
    let (rem2, opt2) = not_list.extract_runtime_code().expect("not a list is fine");
    assert!(opt2.is_none());
    assert!(matches!(rem2.try_into_deploy_code(), Err(Error::DeployCodeShape)));
}

#[test]
fn function_extraction() {
    let region = parse_expression("[[\"label\",\"f\",\"body\"],\"stmt\"]").expect("parses");
    let (residual, funs) = region.extract_functions().expect("extracts");
    assert_eq!(funs.len(), 1);
    assert_eq!(funs[0].0, "f");
    assert!(matches!(&funs[0].1, Expression::List(items) if items.len() == 1));
    match residual {
        Expression::List(items) => {
            assert_eq!(items.len(), 1);
            assert!(matches!(&items[0], Expression::Identifier(t) if t == "stmt"));
        }
        _ => panic!("expected a list"),
    }
    let bad = parse_expression("[[\"label\"]]").expect("parses");
    assert!(matches!(bad.extract_functions(), Err(Error::MalformedFunctionDefinition)));
    let bad_name = parse_expression("[[\"label\",5]]").expect("parses");
    assert!(matches!(bad_name.extract_functions(), Err(Error::MalformedFunctionDefinition)));
}

#[test]
fn try_from_lines_scenario() {
    let contract = vyper_from_lines(vec!["[1,[]]", "{}", "{}"]);
    assert!(contract.abi.is_empty());
    assert!(contract.source_metadata.function_info.is_empty());
    match &contract.expression {
        Expression::List(items) => {
            assert!(matches!(&items[0], Expression::IntegerLiteral(t) if t == "1"));
        }
        _ => panic!("expected an integer-literal-headed list"),
    }
    let build = contract
        .compile("greeter.vy", None, default_settings())
        .expect("compiles");
    assert!(build.metadata_hash.is_none());
    assert!(build.factory_dependencies.is_empty());
}

#[test]
fn metadata_hash_embedded_only_on_request() {
    let without = vyper_from_lines(vec!["[1,[]]", "{}", "{}"])
        .compile("a.vy", None, default_settings())
        .expect("compiles");
    let with = vyper_from_lines(vec!["[1,[]]", "{}", "{}"])
        .compile("a.vy", Some(vec![9u8; 32]), default_settings())
        .expect("compiles");
    assert!(without.metadata_hash.is_none());
    let hash = with.metadata_hash.clone().expect("hash embedded");
    assert_eq!(hash.len(), 32);
    assert_eq!(without.bytecode.len() + 32, with.bytecode.len());
    assert_eq!(&with.bytecode[with.bytecode.len() - 32..], hash.as_slice());
    assert_eq!(&with.bytecode[..without.bytecode.len()], without.bytecode.as_slice());
}

#[test]
fn try_from_lines_wrong_count() {
    let r = VyperContract::try_from_lines(
        Version::new(0, 3, 10),
        String::from("source"),
        vec!["[]", "{}"],
    );
    assert!(matches!(r, Err(Error::LineCount { expected: 3, found: 2 })));
}

#[test]
fn try_from_lines_bad_line_positions() {
    let bad0 = VyperContract::try_from_lines(
        Version::new(0, 3, 10),
        String::from("s"),
        vec!["nope", "{}", "{}"],
    );
    assert!(matches!(bad0, Err(Error::Syntax { line: 0 })));
    let bad1 = VyperContract::try_from_lines(
        Version::new(0, 3, 10),
        String::from("s"),
        vec!["[]", "nope", "{}"],
    );
    assert!(matches!(bad1, Err(Error::Syntax { line: 1 })));
    let bad2 = VyperContract::try_from_lines(
        Version::new(0, 3, 10),
        String::from("s"),
        vec!["[]", "{}", "nope"],
    );
    assert!(matches!(bad2, Err(Error::Syntax { line: 2 })));
}

#[test]
fn missing_immutables_position_names_the_field() {
    let contract = vyper_from_lines(vec!["[[\"deploy\"]]", "{}", "{}"]);
    let r = contract.compile("broken.vy", None, default_settings());
    match r {
        Err(Error::DefinitionPass { path, inner }) => {
            assert_eq!(path, "broken.vy");
            assert!(matches!(*inner, Error::MissingImmutablesSize));
        }
        _ => panic!("expected a definition-pass error naming the immutables size"),
    }
}

#[test]
fn immutables_must_be_a_machine_word_literal() {
    let huge = vyper_from_lines(vec![
        "[[\"deploy\",18446744073709551616,[]]]",
        "{}",
        "{}",
    ]);
    match huge.compile("big.vy", None, default_settings()) {
        Err(Error::DefinitionPass { inner, .. }) => {
            assert!(matches!(*inner, Error::ImmutablesSizeParse { .. }));
        }
        _ => panic!("expected an immutables-size parsing error"),
    }
    let not_literal = vyper_from_lines(vec!["[[\"deploy\",[],[]]]", "{}", "{}"]);
    match not_literal.compile("shape.vy", None, default_settings()) {
        Err(Error::DefinitionPass { inner, .. }) => {
            assert!(matches!(*inner, Error::InvalidImmutablesFormat));
        }
        _ => panic!("expected an immutables format error"),
    }
}

#[test]
fn forwarder_reference_recorded_in_factory_dependencies() {
    let referencing = vyper_from_lines(vec![
        "[[\"deploy\",0,[\"__VYPER_FORWARDER_CONTRACT\"]]]",
        "{}",
        "{}",
    ]);
    let build = referencing
        .compile("proxy.vy", None, default_settings())
        .expect("compiles");
    assert_eq!(build.factory_dependencies.len(), 1);
    assert_eq!(build.factory_dependencies[0].0, forwarder_hash());
    assert_eq!(build.factory_dependencies[0].1, forwarder_name());

    let plain = vyper_from_lines(vec!["[[\"deploy\",0,[]]]", "{}", "{}"]);
    let build2 = plain.compile("plain.vy", None, default_settings()).expect("compiles");
    assert!(build2.factory_dependencies.is_empty());
}

fn proxy_contract() -> Contract {
    Contract::Vyper(vyper_from_lines(vec![
        "[[\"deploy\",0,[\"__VYPER_FORWARDER_CONTRACT\"]]]",
        "{}",
        "{}",
    ]))
}

fn plain_contract() -> Contract {
    Contract::Vyper(vyper_from_lines(vec!["[1,[]]", "{}", "{}"]))
}

fn broken_contract() -> Contract {
    Contract::Vyper(vyper_from_lines(vec!["[[\"deploy\"]]", "{}", "{}"]))
}

#[test]
fn forwarder_injected_exactly_once() {
    let project = Project::new(
        Version::new(0, 3, 10),
        vec![1u8; 32],
        vec![
            (String::from("a.vy"), proxy_contract()),
            (String::from("b.vy"), proxy_contract()),
            (String::from("c.vy"), plain_contract()),
        ],
    );
    let build = project
        .compile(default_settings(), false, EncodingMode::Production)
        .expect("compiles");
    let fwd_entries = build
        .contracts
        .iter()
        .filter(|(name, _)| name == "__VYPER_FORWARDER_CONTRACT")
        .count();
    assert_eq!(fwd_entries, 1);
    assert_eq!(build.contracts.len(), 4);
    assert_eq!(build.contracts[0].1.bytecode, forwarder_bytecode());

    let none = Project::new(
        Version::new(0, 3, 10),
        vec![1u8; 32],
        vec![(String::from("c.vy"), plain_contract())],
    )
    .compile(default_settings(), false, EncodingMode::Production)
    .expect("compiles");
    let fwd_none = none
        .contracts
        .iter()
        .filter(|(name, _)| name == "__VYPER_FORWARDER_CONTRACT")
        .count();
    assert_eq!(fwd_none, 0);
}

#[test]
fn fail_fast_aggregation() {
    let project = Project::new(
        Version::new(0, 3, 10),
        vec![1u8; 32],
        vec![
            (String::from("good.vy"), plain_contract()),
            (String::from("bad.vy"), broken_contract()),
            (String::from("other.vy"), plain_contract()),
        ],
    );
    match project.compile(default_settings(), true, EncodingMode::Testing) {
        Err(Error::ContractCompile { path, .. }) => assert_eq!(path, "bad.vy"),
        _ => panic!("expected the project compilation to fail"),
    }
}

#[test]
fn aggregate_results_surfaces_first_error() {
    let results: Vec<(String, Result<ContractBuild, Error>)> = vec![
        (String::from("x"), Err(Error::MissingRuntimeCode)),
        (String::from("y"), Err(Error::MissingImmutablesSize)),
    ];
    match aggregate_results(results) {
        Err(Error::ContractCompile { path, inner }) => {
            assert_eq!(path, "x");
            assert!(matches!(*inner, Error::MissingRuntimeCode));
        }
        _ => panic!("expected the first error"),
    }
}

#[test]
fn project_metadata_hash_decision_is_project_wide() {
    let project = Project::new(
        Version::new(0, 3, 10),
        vec![2u8; 32],
        vec![
            (String::from("a.vy"), plain_contract()),
            (String::from("b.vy"), proxy_contract()),
        ],
    );
    let build = project
        .compile(default_settings(), true, EncodingMode::Production)
        .expect("compiles");
    for (name, contract_build) in build.contracts.iter() {
        if name == "__VYPER_FORWARDER_CONTRACT" {
            assert!(contract_build.metadata_hash.is_none());
        } else {
            assert!(contract_build.metadata_hash.is_some());
        }
    }
}

#[test]
fn correlation_attaches_metadata_by_ir_identifier() {
    let contract = vyper_from_lines(vec![
        "[[\"deploy\",0,[[\"label\",\"transfer_3_runtime\",\"b\"]]]]",
        "{\"function_info\": {\"transfer\": {\"ir_identifier\": \"transfer_3\"}}}",
        "{}",
    ]);
    let idx = vyper_backend::function::correlate(
        &contract.source_metadata,
        &strip_label_suffix("transfer_3_runtime"),
    );
    assert_eq!(idx, Some(0));
    assert!(vyper_backend::function::correlate(&contract.source_metadata, "other").is_none());
    assert!(contract.compile("t.vy", None, default_settings()).is_ok());
}

#[test]
fn dependency_capability_is_inert() {
    let deps = DependencyData::default();
    assert!(matches!(deps.resolve_path("x"), Err(Error::DependencyUnavailable)));
    assert!(matches!(deps.resolve_library("y"), Err(Error::DependencyUnavailable)));
    let hash = deps
        .compile("anything", OptimizerSettings::default(), false, false)
        .expect("always succeeds");
    assert_eq!(hash, forwarder_hash());
}

#[test]
fn passthrough_contracts_keep_their_text() {
    let c = LlvmIrContract::new(Version::new(1, 4, 1), String::from("define void @f()"));
    let build = c
        .compile("m.ll", None, OptimizerSettings::default())
        .expect("compiles");
    assert_eq!(build.assembly, "define void @f()");
    assert!(build.metadata_hash.is_none());
}

#[test]
fn project_well_formedness() {
    let good = Project::new(
        Version::new(0, 3, 10),
        vec![1u8; 32],
        vec![
            (String::from("a.vy"), plain_contract()),
            (String::from("b.vy"), plain_contract()),
        ],
    );
    assert!(good.is_well_formed());
    let dup = Project::new(
        Version::new(0, 3, 10),
        vec![1u8; 32],
        vec![
            (String::from("a.vy"), plain_contract()),
            (String::from("a.vy"), plain_contract()),
        ],
    );
    assert!(!dup.is_well_formed());
}

#[test]
fn source_text_digest_matches_keccak_of_ascii_bytes() {
    let text = "abc";
    let via_library = vyper_backend::project::source_text_digest(text);
    let via_bytes = keccak256(text.as_bytes());
    assert_eq!(via_library, via_bytes);
}

#[test]
fn single_file_projects() {
    let p = Project::try_from_llvm_ir_path(String::from("m.ll"), String::from("define"));
    assert_eq!(p.contracts.len(), 1);
    assert_eq!(p.contracts[0].0, "m.ll");
    assert_eq!(p.source_code_hash.len(), 32);
    let q = Project::try_from_zkasm_path(String::from("m.zasm"), String::from("add r0, r0"));
    assert_eq!(q.contracts.len(), 1);
    assert!(q.compile(OptimizerSettings::default(), true, EncodingMode::Production).is_ok());
}

#[test]
fn contract_enum_conversions_and_source_code() {
    let vy = vyper_from_lines(vec!["[1,[]]", "{}", "{}"]);
    let c: Contract = vy.into();
    assert_eq!(c.source_code(), "source");
    let ll: Contract = LlvmIrContract::new(Version::new(1, 4, 1), String::from("ir")).into();
    assert_eq!(ll.source_code(), "ir");
    let zk: Contract = vyper_backend::contract::ZkasmContract::new(
        Version::new(1, 3, 2),
        String::from("asm"),
    )
    .into();
    assert_eq!(zk.source_code(), "asm");
}

#[test]
fn expected_lines_and_versions() {
    assert_eq!(VyperContract::expected_lines(), 3);
    let v = Version::new(0, 3, 10);
    assert_eq!(v.major, 0);
    assert_eq!(v.minor, 3);
    assert_eq!(v.patch, 10);
    assert_eq!(vyper_backend::version::target_compiler_version(), Version::new(1, 3, 17));
}

#[test]
fn aggregate_results_keeps_paths_in_order() {
    let a = vyper_from_lines(vec!["[1,[]]", "{}", "{}"])
        .compile("a.vy", None, default_settings())
        .expect("compiles");
    let b = vyper_from_lines(vec!["[2,[]]", "{}", "{}"])
        .compile("b.vy", None, default_settings())
        .expect("compiles");
    let build = aggregate_results(vec![
        (String::from("a.vy"), Ok(a)),
        (String::from("b.vy"), Ok(b)),
    ])
    .expect("aggregates");
    assert_eq!(build.contracts.len(), 2);
    assert_eq!(build.contracts[0].0, "a.vy");
    assert_eq!(build.contracts[1].0, "b.vy");
}

#[test]
fn bytecode_lists_defined_functions() {
    // The module bytes hold one line per defined function: the two
    // placeholder hooks, the extracted function, and the two drivers.
    let contract = vyper_from_lines(vec![
        "[[\"deploy\",0,[[\"label\",\"f\",\"x\"]]]]",
        "{}",
        "{}",
    ]);
    let build = contract.compile("m.vy", None, default_settings()).expect("compiles");
    let text = String::from_utf8(build.bytecode.clone()).expect("listing is text");
    let names: Vec<&str> = text.lines().collect();
    assert_eq!(names, vec!["__entry", "__runtime", "f", "__deploy_code", "__runtime_code"]);
}
