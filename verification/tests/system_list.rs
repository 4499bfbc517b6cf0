use nixci::eval::{
    nix_eval_impure_expr, nix_import_flake, DecodeError, EvalError, EvalFailure, EvalStep,
    ImportState, ProcessInvocationError, Step,
};
use nixci::eval::{decode_path, decode_systems, path_resolved, value_imported};
use nixci::registry::KnownRegistry;
use nixci::system_list::{SystemsList, SystemsListFlakeRef};

const REGISTRY: &str = "{\"x86_64-linux\": \"/nix/store/x86_64-linux\", \
    \"aarch64-linux\": \"/nix/store/aarch64-linux\", \
    \"x86_64-darwin\": \"/nix/store/x86_64-darwin\", \
    \"aarch64-darwin\": \"/nix/store/aarch64-darwin\"}";

fn registry() -> KnownRegistry {
    KnownRegistry::from_json(REGISTRY).unwrap()
}

fn strings(items: &[&str]) -> Vec<String> {
    items.iter().map(|s| s.to_string()).collect()
}

/// Stands in for `nix`: answers the two evaluations of the flakes it knows.
fn fake_nix(args: &[String]) -> Result<Vec<u8>, ProcessInvocationError> {
    assert_eq!(args.len(), 5);
    assert_eq!(&args[..4], &strings(&["eval", "--impure", "--json", "--expr"])[..]);
    let expr = args[4].as_str();
    let known: Vec<(&str, &str)> = vec![
        ("github:nix-systems/default-linux", "[\"aarch64-linux\",\"x86_64-linux\"]"),
        ("github:nix-systems/default-darwin", "[\"aarch64-darwin\",\"x86_64-darwin\"]"),
        ("github:nix-systems/aarch64-linux", "[\"aarch64-linux\"]"),
        ("github:nix-systems/aarch64-darwin", "[\"aarch64-darwin\"]"),
        ("github:nix-systems/x86_64-linux", "[\"x86_64-linux\"]"),
        ("github:nix-systems/x86_64-darwin", "[\"x86_64-darwin\"]"),
        ("github:nix-systems/empty", "[]"),
    ];
    for (url, systems) in known {
        let path = format!("/nix/store/{}", &url["github:nix-systems/".len()..]);
        if expr == format!("builtins.getFlake \"{}\"", url) {
            return Ok(format!("\"{}-source\"", path).into_bytes());
        }
        if expr == format!("import {}-source", path) {
            return Ok(systems.as_bytes().to_vec());
        }
    }
    Err(ProcessInvocationError::Failed {
        exit_code: Some(1),
        stderr: Some(format!("error: cannot evaluate {}", expr)),
    })
}

/// Runs a resolution to its end against `fake_nix`, and counts the runs.
fn resolve(registry: &KnownRegistry, url: &SystemsListFlakeRef) -> (Result<SystemsList, EvalError>, usize) {
    let mut runs = 0;
    let mut step = SystemsList::from_flake(registry, url);
    loop {
        match step {
            Step::Done(result) => return (result, runs),
            Step::Run { args, state } => {
                runs += 1;
                assert!(runs <= 2);
                step = SystemsList::from_remote_flake(state, fake_nix(&args));
            }
        }
    }
}

fn assert_systems_list(url: &str, expected: Vec<String>) {
    let registry = registry();
    let (systems, _) = resolve(&registry, &SystemsListFlakeRef(url.to_string()));
    assert_eq!(systems.unwrap().0, expected);
}

#[test]
fn test_empty_systems_list() {
    let registry = registry();
    let (systems, _) = resolve(
        &registry,
        &SystemsListFlakeRef("github:nix-systems/empty".to_string()),
    );
    assert_eq!(systems.unwrap().0, Vec::<String>::new());
}

#[test]
fn test_systems_list() {
    assert_systems_list(
        "github:nix-systems/default-linux",
        vec!["aarch64-linux".into(), "x86_64-linux".into()],
    );
    assert_systems_list(
        "github:nix-systems/default-darwin",
        vec!["aarch64-darwin".into(), "x86_64-darwin".into()],
    );
    assert_systems_list("github:nix-systems/aarch64-linux", vec!["aarch64-linux".into()]);
    assert_systems_list("github:nix-systems/aarch64-darwin", vec!["aarch64-darwin".into()]);
    assert_systems_list("github:nix-systems/x86_64-linux", vec!["x86_64-linux".into()]);
    assert_systems_list("github:nix-systems/x86_64-darwin", vec!["x86_64-darwin".into()]);
    assert_systems_list("github:nix-systems/empty", vec![]);
}

#[test]
fn registry_is_read_from_json_in_order_of_names() {
    let registry = registry();
    assert_eq!(registry.len(), 4);
    assert_eq!(
        registry.lookup_by_name("aarch64-linux"),
        Some("/nix/store/aarch64-linux".to_string())
    );
    assert_eq!(registry.lookup_by_name("riscv64-linux"), None);
    assert_eq!(
        registry.lookup_name_by_locator("/nix/store/x86_64-darwin"),
        Some("x86_64-darwin".to_string())
    );
    assert_eq!(registry.lookup_name_by_locator("x86_64-darwin"), None);
    let shared = KnownRegistry::from_json("{\"b\": \"u\", \"a\": \"u\"}").unwrap();
    assert_eq!(shared.lookup_name_by_locator("u"), Some("a".to_string()));
}

#[test]
fn registry_refuses_malformed_json() {
    let broken = KnownRegistry::from_json("{\"a\": ");
    assert!(broken.is_err());
    assert!(!broken.unwrap_err().message.is_empty());
    assert!(KnownRegistry::from_json("[\"a\"]").is_err());
    assert!(KnownRegistry::from_json("{\"a\": 1}").is_err());
    assert_eq!(KnownRegistry::from_json("{}").unwrap().len(), 0);
}

#[test]
fn registry_keeps_the_first_of_equal_entries() {
    let registry = KnownRegistry::new(vec![
        ("one".to_string(), "u".to_string()),
        ("two".to_string(), "u".to_string()),
        ("one".to_string(), "v".to_string()),
    ]);
    assert_eq!(registry.lookup_by_name("one"), Some("u".to_string()));
    assert_eq!(registry.lookup_name_by_locator("u"), Some("one".to_string()));
    assert_eq!(registry.lookup_name_by_locator("v"), Some("one".to_string()));
}

#[test]
fn reference_is_normalized_by_the_registry() {
    let registry = registry();
    assert_eq!(
        SystemsListFlakeRef::from_str(&registry, "x86_64-linux"),
        SystemsListFlakeRef("/nix/store/x86_64-linux".to_string())
    );
    assert_eq!(
        SystemsListFlakeRef::from_str(&registry, "github:nix-systems/default"),
        SystemsListFlakeRef("github:nix-systems/default".to_string())
    );
}

#[test]
fn registered_names_resolve_without_running_anything() {
    let registry = registry();
    for name in ["x86_64-linux", "aarch64-linux", "x86_64-darwin", "aarch64-darwin"] {
        let url = SystemsListFlakeRef::from_str(&registry, name);
        let (systems, runs) = resolve(&registry, &url);
        assert_eq!(systems.unwrap().0, vec![name.to_string()]);
        assert_eq!(runs, 0);
    }
}

#[test]
fn name_and_url_resolve_alike() {
    let registry = registry();
    let by_name = SystemsListFlakeRef::from_str(&registry, "aarch64-darwin");
    let by_url = SystemsListFlakeRef::from_str(&registry, "/nix/store/aarch64-darwin");
    assert_eq!(by_name, by_url);
    let (a, runs_a) = resolve(&registry, &by_name);
    let (b, runs_b) = resolve(&registry, &by_url);
    assert_eq!(a.unwrap().0, vec!["aarch64-darwin".to_string()]);
    assert_eq!(b.unwrap().0, vec!["aarch64-darwin".to_string()]);
    assert_eq!((runs_a, runs_b), (0, 0));
}

#[test]
fn known_flake_is_found_by_its_url_only() {
    let registry = registry();
    let hit = SystemsList::from_known_flake(
        &registry,
        &SystemsListFlakeRef("/nix/store/aarch64-linux".to_string()),
    );
    assert_eq!(hit, Some(SystemsList(vec!["aarch64-linux".to_string()])));
    let miss = SystemsList::from_known_flake(
        &registry,
        &SystemsListFlakeRef("aarch64-linux".to_string()),
    );
    assert_eq!(miss, None);
}

#[test]
fn unregistered_flake_takes_two_evaluations_in_order() {
    let registry = registry();
    let url = SystemsListFlakeRef::from_str(&registry, "github:nix-systems/default-linux");
    let first = SystemsList::from_flake(&registry, &url);
    let expr_1 = "builtins.getFlake \"github:nix-systems/default-linux\"";
    assert_eq!(
        first,
        Step::Run {
            args: strings(&["eval", "--impure", "--json", "--expr", expr_1]),
            state: ImportState::ResolvingPath { expr: expr_1.to_string() },
        }
    );
    let state = ImportState::ResolvingPath { expr: expr_1.to_string() };
    let second = SystemsList::from_remote_flake(state, Ok(b"\"/nix/store/abc-source\"".to_vec()));
    let expr_2 = "import /nix/store/abc-source";
    assert_eq!(
        second,
        Step::Run {
            args: strings(&["eval", "--impure", "--json", "--expr", expr_2]),
            state: ImportState::Importing { expr: expr_2.to_string() },
        }
    );
    let state = ImportState::Importing { expr: expr_2.to_string() };
    let last = SystemsList::from_remote_flake(
        state,
        Ok(b"[\"x86_64-linux\", \"aarch64-linux\", \"x86_64-linux\"]".to_vec()),
    );
    assert_eq!(
        last,
        Step::Done(Ok(SystemsList(strings(&["x86_64-linux", "aarch64-linux", "x86_64-linux"]))))
    );
    let (systems, runs) = resolve(&registry, &url);
    assert_eq!(systems.unwrap().0, strings(&["aarch64-linux", "x86_64-linux"]));
    assert_eq!(runs, 2);
}

#[test]
fn failure_of_the_first_evaluation_ends_the_import() {
    let registry = registry();
    let url = SystemsListFlakeRef("github:nowhere/nothing".to_string());
    let (result, runs) = resolve(&registry, &url);
    assert_eq!(runs, 1);
    let expr = "builtins.getFlake \"github:nowhere/nothing\"".to_string();
    assert_eq!(
        result.unwrap_err(),
        EvalError {
            step: EvalStep::ResolvePath,
            expr: expr.clone(),
            failure: EvalFailure::Process(ProcessInvocationError::Failed {
                exit_code: Some(1),
                stderr: Some(format!("error: cannot evaluate {}", expr)),
            }),
        }
    );
}

#[test]
fn spawn_failure_is_reported_at_either_step() {
    let spawn = || ProcessInvocationError::SpawnFailed { message: "nix: not found".to_string() };
    let first = ImportState::ResolvingPath { expr: "e1".to_string() }.advance(Err(spawn()));
    assert_eq!(
        first,
        Step::Done(Err(EvalError {
            step: EvalStep::ResolvePath,
            expr: "e1".to_string(),
            failure: EvalFailure::Process(spawn()),
        }))
    );
    let second = ImportState::Importing { expr: "e2".to_string() }.advance(Err(spawn()));
    assert_eq!(
        second,
        Step::Done(Err(EvalError {
            step: EvalStep::Import,
            expr: "e2".to_string(),
            failure: EvalFailure::Process(spawn()),
        }))
    );
}

#[test]
fn output_that_is_not_the_json_asked_for_is_a_decode_error() {
    let first = ImportState::ResolvingPath { expr: "e1".to_string() }.advance(Ok(b"[]".to_vec()));
    match first {
        Step::Done(Err(e)) => {
            assert_eq!(e.step, EvalStep::ResolvePath);
            assert_eq!(e.expr, "e1");
            assert!(matches!(e.failure, EvalFailure::Decode(_)));
        }
        other => panic!("unexpected step: {:?}", other),
    }
    let second = ImportState::Importing { expr: "e2".to_string() }.advance(Ok(b"\"x\"".to_vec()));
    match second {
        Step::Done(Err(e)) => {
            assert_eq!(e.step, EvalStep::Import);
            assert_eq!(e.expr, "e2");
            match e.failure {
                EvalFailure::Decode(d) => assert!(!d.message.is_empty()),
                other => panic!("unexpected failure: {:?}", other),
            }
        }
        other => panic!("unexpected step: {:?}", other),
    }
    let garbage = ImportState::Importing { expr: "e2".to_string() }.advance(Ok(vec![0xff, 0xfe]));
    assert!(matches!(garbage, Step::Done(Err(_))));
}

#[test]
fn evaluation_arguments_and_expressions_are_exact() {
    assert_eq!(
        nix_eval_impure_expr("1 + 1"),
        strings(&["eval", "--impure", "--json", "--expr", "1 + 1"])
    );
    assert_eq!(
        nix_import_flake("path:/tmp/x"),
        Step::Run {
            args: strings(&["eval", "--impure", "--json", "--expr", "builtins.getFlake \"path:/tmp/x\""]),
            state: ImportState::ResolvingPath { expr: "builtins.getFlake \"path:/tmp/x\"".to_string() },
        }
    );
}

#[test]
fn decoders_read_json_text() {
    assert_eq!(decode_path(b"\"/nix/store/a\\nb\"").unwrap(), "/nix/store/a\nb");
    assert!(decode_path(b"/nix/store/a").is_err());
    assert_eq!(decode_systems(b" [ \"a\" , \"b\" ] ").unwrap(), strings(&["a", "b"]));
    assert_eq!(decode_systems(b"[]").unwrap(), Vec::<String>::new());
    assert!(decode_systems(b"[1]").is_err());
}

#[test]
fn steps_after_decoding_are_exact() {
    let failed = path_resolved("e1".to_string(), Err(DecodeError { message: "m".to_string() }));
    assert_eq!(
        failed,
        Step::Done(Err(EvalError {
            step: EvalStep::ResolvePath,
            expr: "e1".to_string(),
            failure: EvalFailure::Decode(DecodeError { message: "m".to_string() }),
        }))
    );
    let next = path_resolved("e1".to_string(), Ok("/p".to_string()));
    assert_eq!(
        next,
        Step::Run {
            args: strings(&["eval", "--impure", "--json", "--expr", "import /p"]),
            state: ImportState::Importing { expr: "import /p".to_string() },
        }
    );
    let done = value_imported("e2".to_string(), Ok(strings(&["s"])));
    assert_eq!(done, Step::Done(Ok(strings(&["s"]))));
    let lost = value_imported("e2".to_string(), Err(DecodeError { message: "m".to_string() }));
    assert_eq!(
        lost,
        Step::Done(Err(EvalError {
            step: EvalStep::Import,
            expr: "e2".to_string(),
            failure: EvalFailure::Decode(DecodeError { message: "m".to_string() }),
        }))
    );
}
