use indexed_run::evaluator::Evaluator;
use indexed_run::ir::{FullBlock, FullExecution, FullInstruction, FullProgram, FullTag, Name};
use indexed_run::process::{
    bytes_less, env_put, parse_i32, splice_to_argv, value_to_argv_bytes, CommandPlan, CommandRedirection,
    FileRedirectionMode, ProcessRedirection, RedirectionStream,
};
use indexed_run::records::PathValue;
use indexed_run::runs::{RedirectionKind, RunArg, RunEnv, RunRedirection};
use indexed_run::value::{Span, Value};

fn span() -> Span {
    Span::new(0, 0, 0)
}

fn env(pairs: &[(&str, &str)]) -> Vec<(Vec<u8>, Vec<u8>)> {
    pairs.iter().map(|(k, v)| (k.as_bytes().to_vec(), v.as_bytes().to_vec())).collect()
}

fn plan(pairs: &[(&str, &str)]) -> CommandPlan {
    CommandPlan {
        target: b"ls".to_vec(),
        argv: vec![b"-l".to_vec()],
        env: pairs.iter().map(|(k, v)| (k.to_string(), v.to_string())).collect(),
        cwd: None,
        redirections: vec![],
        timeout: Some(1500),
        cpu_max: None,
    }
}

#[test]
fn a_plan_puts_its_environment_over_the_evaluators() {
    let mut ev = Evaluator::new(env(&[("HOME", "/root"), ("PATH", "/bin")]), b"/work".to_vec());
    let inv = ev.invocation_from_command_plan(&plan(&[("PATH", "/usr/bin"), ("B", "2"), ("A", "1"), ("B", "3")]), span()).unwrap();
    assert_eq!(inv.env_overlay, env(&[("A", "1"), ("B", "3"), ("PATH", "/usr/bin")]));
    assert_eq!(inv.env, env(&[("A", "1"), ("B", "3"), ("HOME", "/root"), ("PATH", "/usr/bin")]));
    assert_eq!(inv.target, b"ls".to_vec());
    assert_eq!(inv.argv, vec![b"-l".to_vec()]);
    assert_eq!(inv.cwd, b"/work".to_vec());
    assert_eq!(inv.timeout, Some(1500));
    assert_eq!(inv.cpu_max, None);
}

#[test]
fn a_plan_refuses_bad_environment_names_and_values() {
    let mut ev = Evaluator::new(Vec::new(), b"/".to_vec());
    for name in ["", "A=B", "A\0"] {
        let err = ev.invocation_from_command_plan(&plan(&[(name, "x")]), span()).unwrap_err();
        assert_eq!(err.kind, "env-name");
        assert_eq!(err.message, "environment names cannot be empty or contain NUL or `=`");
    }
    let err = ev.invocation_from_command_plan(&plan(&[("A", "x\0y")]), span()).unwrap_err();
    assert_eq!(err.kind, "env-value");
    assert_eq!(err.message, "environment values cannot contain NUL");
}

#[test]
fn a_plan_takes_its_paths_from_the_working_directory() {
    let mut ev = Evaluator::new(Vec::new(), b"/work".to_vec());
    let mut p = plan(&[]);
    p.cwd = Some(PathValue { bytes: b"sub".to_vec() });
    p.redirections = vec![
        CommandRedirection::File {
            stream: RedirectionStream::Stdout,
            mode: FileRedirectionMode::Append,
            path: PathValue { bytes: b"log.txt".to_vec() },
        },
        CommandRedirection::File {
            stream: RedirectionStream::Stdin,
            mode: FileRedirectionMode::Read,
            path: PathValue { bytes: b"/etc/input".to_vec() },
        },
    ];
    let inv = ev.invocation_from_command_plan(&p, span()).unwrap();
    assert_eq!(inv.cwd, b"/work/sub".to_vec());
    match &inv.redirections[0] {
        ProcessRedirection::File { stream, mode, path } => {
            assert_eq!(*stream, RedirectionStream::Stdout);
            assert_eq!(*mode, FileRedirectionMode::Append);
            assert_eq!(path, &b"/work/log.txt".to_vec());
        }
        other => panic!("expected a file redirection, found {other:?}"),
    }
    match &inv.redirections[1] {
        ProcessRedirection::File { path, .. } => assert_eq!(path, &b"/etc/input".to_vec()),
        other => panic!("expected a file redirection, found {other:?}"),
    }
}

#[test]
fn environment_tables_stay_sorted() {
    let mut table = Vec::new();
    env_put(&mut table, b"b".to_vec(), b"1".to_vec());
    env_put(&mut table, b"a".to_vec(), b"2".to_vec());
    env_put(&mut table, b"ab".to_vec(), b"3".to_vec());
    env_put(&mut table, b"b".to_vec(), b"4".to_vec());
    assert_eq!(table, env(&[("a", "2"), ("ab", "3"), ("b", "4")]));
    assert!(bytes_less(&b"a".to_vec(), &b"ab".to_vec()));
    assert!(!bytes_less(&b"ab".to_vec(), &b"a".to_vec()));
    assert!(bytes_less(&b"B".to_vec(), &b"a".to_vec()));
    assert!(!bytes_less(&b"x".to_vec(), &b"x".to_vec()));
}

#[test]
fn argv_items_from_values() {
    assert_eq!(value_to_argv_bytes(&Value::Str("héllo".to_string()), span()).unwrap(), "héllo".as_bytes().to_vec());
    assert_eq!(value_to_argv_bytes(&Value::Int(-12), span()).unwrap(), b"-12".to_vec());
    assert_eq!(value_to_argv_bytes(&Value::Path(b"/tmp/x".to_vec()), span()).unwrap(), b"/tmp/x".to_vec());
    let err = value_to_argv_bytes(&Value::Bytes(vec![1, 0, 2]), span()).unwrap_err();
    assert_eq!(err.kind, "argv-conversion");
    assert_eq!(err.message, "process arguments cannot contain NUL");
    let err = value_to_argv_bytes(&Value::Bool(true), span()).unwrap_err();
    assert_eq!(err.message, "cannot pass Bool as a process argument");
    let items = splice_to_argv(&Value::List(vec![Value::Int(1), Value::Str("b".to_string())]), span()).unwrap();
    assert_eq!(items, vec![b"1".to_vec(), b"b".to_vec()]);
    let err = splice_to_argv(&Value::Int(1), span()).unwrap_err();
    assert_eq!(err.message, "cannot splice Int into argv");
}

#[test]
fn descriptors_parse_as_i32() {
    assert_eq!(parse_i32("42"), Some(42));
    assert_eq!(parse_i32("-7"), Some(-7));
    assert_eq!(parse_i32("+3"), Some(3));
    assert_eq!(parse_i32("2147483647"), Some(i32::MAX));
    assert_eq!(parse_i32("-2147483648"), Some(i32::MIN));
    assert_eq!(parse_i32("2147483648"), None);
    assert_eq!(parse_i32("99999999999999999999"), None);
    assert_eq!(parse_i32(""), None);
    assert_eq!(parse_i32("-"), None);
    assert_eq!(parse_i32("1x"), None);
    assert_eq!(parse_i32(" 1"), None);
}

/// `run "echo" ["a", 3] ...[1, 2] with X=1 2>&1 > out`, lowered by hand.
fn run_program() -> FullProgram {
    let instructions = vec![
        FullInstruction { tag: FullTag::ExprStr, words: vec![0] },
        FullInstruction { tag: FullTag::ExprStr, words: vec![1] },
        FullInstruction { tag: FullTag::ExprInt, words: vec![3, 0] },
        FullInstruction { tag: FullTag::ExprInt, words: vec![1, 0] },
        FullInstruction { tag: FullTag::ExprInt, words: vec![2, 0] },
        FullInstruction { tag: FullTag::ExprList, words: vec![0] },
        FullInstruction { tag: FullTag::ExprStr, words: vec![2] },
        FullInstruction { tag: FullTag::ExprStr, words: vec![3] },
    ];
    let blocks = vec![FullBlock { kind: indexed_run::ir::BLOCK_LIST, words: vec![2, 3, 4] }];
    let strings = vec!["echo".to_string(), "a".to_string(), " 1 ".to_string(), "out".to_string(), "X".to_string()];
    FullProgram { execution: FullExecution { instructions, blocks, stages: vec![], strings }, functions: vec![] }
}

fn arg(mode: u32, value: u32) -> RunArg {
    RunArg { mode, value, span: span() }
}

#[test]
fn a_run_segment_becomes_a_process() {
    let p = run_program();
    let mut ev = Evaluator::new(env(&[("X", "0"), ("Y", "9")]), b"/home".to_vec());
    let mut slots = Vec::new();
    let target = arg(0, 0);
    let args = vec![arg(0, 1), arg(1, 2), arg(2, 5)];
    let run_env = vec![RunEnv { name: Name { id: 4 }, value: arg(0, 3) }];
    let redirections = vec![
        RunRedirection { kind: RedirectionKind::StdoutDup, target: arg(0, 6), span: span() },
        RunRedirection { kind: RedirectionKind::StdoutWrite, target: arg(0, 7), span: span() },
    ];
    let inv = match ev
        .indexed_process_invocation(&p, 8, &target, &args, &run_env, &redirections, None, None, &mut slots, span())
        .unwrap()
    {
        Ok(inv) => inv,
        Err(v) => panic!("an expression exited with {v:?}"),
    };
    assert_eq!(inv.target, b"echo".to_vec());
    assert_eq!(inv.argv, vec![b"a".to_vec(), b"3".to_vec(), b"1".to_vec(), b"2".to_vec()]);
    assert_eq!(inv.env_overlay, env(&[("X", "1")]));
    assert_eq!(inv.env, env(&[("X", "1"), ("Y", "9")]));
    assert_eq!(inv.cwd, b"/home".to_vec());
    match &inv.redirections[0] {
        ProcessRedirection::Dup { stream, fd } => {
            assert_eq!(*stream, RedirectionStream::Stdout);
            assert_eq!(*fd, 1);
        }
        other => panic!("expected a descriptor, found {other:?}"),
    }
    match &inv.redirections[1] {
        ProcessRedirection::File { stream, mode, path } => {
            assert_eq!(*stream, RedirectionStream::Stdout);
            assert_eq!(*mode, FileRedirectionMode::Write);
            assert_eq!(path, &b"/home/out".to_vec());
        }
        other => panic!("expected a file, found {other:?}"),
    }
    assert_eq!(inv.timeout, None);
}

#[test]
fn a_run_segment_checks_its_parts() {
    let p = run_program();
    let mut ev = Evaluator::new(Vec::new(), b"/".to_vec());
    let mut slots = Vec::new();
    let err = ev
        .indexed_process_invocation(&p, 8, &arg(2, 5), &vec![], &vec![], &vec![], None, None, &mut slots, span())
        .err()
        .unwrap();
    assert_eq!(err.kind, "argv-conversion");
    assert_eq!(err.message, "run target must produce one argv item");
    let run_env = vec![RunEnv { name: Name { id: 4 }, value: arg(2, 5) }];
    let err = ev
        .indexed_process_invocation(&p, 8, &arg(0, 0), &vec![], &run_env, &vec![], None, None, &mut slots, span())
        .err()
        .unwrap();
    assert_eq!(err.kind, "env-value");
    let bad_fd = vec![RunRedirection { kind: RedirectionKind::StdinDup, target: arg(0, 7), span: span() }];
    let err = ev
        .indexed_process_invocation(&p, 8, &arg(0, 0), &vec![], &vec![], &bad_fd, None, None, &mut slots, span())
        .err()
        .unwrap();
    assert_eq!(err.kind, "redirection-target");
    assert_eq!(err.message, "fd redirection target must be a number");
    let err = ev
        .indexed_process_invocation(&p, 8, &arg(0, 0), &vec![], &vec![], &vec![], Some(2), None, &mut slots, span())
        .err()
        .unwrap();
    assert_eq!(err.kind, "type-error");
    assert_eq!(err.message, "run timeout expected Duration, found Int");
    let err = ev
        .indexed_process_invocation(&p, 8, &arg(0, 0), &vec![], &vec![], &vec![], None, Some(0), &mut slots, span())
        .err()
        .unwrap();
    assert_eq!(err.message, "run cpumax expected Int, found Str");
    let inv = ev
        .indexed_process_invocation(&p, 8, &arg(0, 0), &vec![], &vec![], &vec![], None, Some(2), &mut slots, span())
        .unwrap()
        .ok()
        .unwrap();
    assert_eq!(inv.cpu_max, Some(3));
}
