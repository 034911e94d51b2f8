//! Expressions and `hashFiles`.

use sha2::{Digest, Sha256};
use toolu_runner::error::RunnerError;
use toolu_runner::execution::expressions::evaluator::{
    access_index, access_property, compare_numbers, eval_comparison, eval_expr, evaluate,
    resolve_context, wildcard_access, EvalContext, Host, JobStatus,
};
use toolu_runner::execution::expressions::functions::glob_walk::{
    literal_prefix, read_dir_error, search_roots, walk, Found,
};
use toolu_runner::execution::expressions::functions::hash::{
    hash_files, matches_patterns, parse_patterns, reject_relative_segments, split_options,
    strip_negation, FileRead, HashStep,
};
use toolu_runner::execution::expressions::number_bits;
use toolu_runner::execution::expressions::types::{
    copy_value, BinaryOperator, Expr, ExprValue, UnaryOperator,
};

fn num(n: f64) -> ExprValue {
    ExprValue::Number(n.to_bits())
}

fn text(s: &str) -> ExprValue {
    ExprValue::String(s.to_owned())
}

fn show(v: &ExprValue) -> String {
    match v {
        ExprValue::Null => "null".to_owned(),
        ExprValue::Bool(b) => b.to_string(),
        ExprValue::Number(n) => f64::from_bits(*n).to_string(),
        ExprValue::String(s) => format!("'{s}'"),
        ExprValue::Array(items) => format!("[{}]", items.iter().map(show).collect::<Vec<_>>().join(",")),
        ExprValue::Object(entries) => format!(
            "{{{}}}",
            entries.iter().map(|(k, v)| format!("{k}:{}", show(v))).collect::<Vec<_>>().join(",")
        ),
    }
}

fn truthy(v: &ExprValue) -> bool {
    match v {
        ExprValue::Null => false,
        ExprValue::Bool(b) => *b,
        ExprValue::Number(n) => f64::from_bits(*n) != 0.0,
        ExprValue::String(s) => !s.is_empty(),
        _ => true,
    }
}

fn loose_eq(a: &ExprValue, b: &ExprValue) -> bool {
    show(a) == show(b)
}

fn number(v: &ExprValue) -> u64 {
    match v {
        ExprValue::Number(n) => *n,
        ExprValue::Bool(b) => f64::from(u8::from(*b)).to_bits(),
        ExprValue::String(s) => s.parse::<f64>().unwrap_or(f64::NAN).to_bits(),
        ExprValue::Null => 0f64.to_bits(),
        _ => f64::NAN.to_bits(),
    }
}

fn string(v: &ExprValue) -> String {
    match v {
        ExprValue::String(s) => s.clone(),
        _ => String::new(),
    }
}

fn call(name: &String, args: &Vec<ExprValue>) -> Result<ExprValue, RunnerError> {
    if name == "boom" {
        return Err(RunnerError::Expression("boom".to_owned()));
    }
    Ok(ExprValue::String(format!("{name}/{}", args.len())))
}

type Calls = fn(&String, &Vec<ExprValue>) -> Result<ExprValue, RunnerError>;

fn host() -> Host<
    fn(&ExprValue) -> bool,
    fn(&ExprValue, &ExprValue) -> bool,
    fn(&ExprValue) -> u64,
    fn(&ExprValue) -> String,
    Calls,
> {
    Host { truthy, loose_eq, number, string, call }
}

fn context() -> EvalContext {
    EvalContext {
        contexts: vec![(
            "GitHub".to_owned(),
            ExprValue::Object(vec![
                ("Actor".to_owned(), text("octocat")),
                ("list".to_owned(), ExprValue::Array(vec![num(1.0), num(2.0)])),
            ]),
        )],
        job_status: JobStatus::Success,
        workspace: None,
    }
}

fn lit(v: ExprValue) -> Box<Expr> {
    Box::new(Expr::Literal(v))
}

#[test]
fn contexts_are_found_whatever_their_case() {
    let ctx = context();
    assert_eq!(show(&access_property(&resolve_context(&ctx, "github"), "ACTOR")), "'octocat'");
    assert_eq!(show(&resolve_context(&ctx, "env")), "null");
    assert_eq!(show(&access_property(&num(1.0), "x")), "null");
}

#[test]
fn indexing_arrays_takes_the_floor() {
    let items = ExprValue::Array(vec![num(10.0), num(20.0)]);
    let h = host();
    assert_eq!(show(&access_index(&h, &items, &num(0.0))), "10");
    assert_eq!(show(&access_index(&h, &items, &num(1.9))), "20");
    assert_eq!(show(&access_index(&h, &items, &num(2.0))), "null");
    assert_eq!(show(&access_index(&h, &items, &num(-1.0))), "null");
    assert_eq!(show(&access_index(&h, &items, &num(f64::NAN))), "null");
    assert_eq!(show(&access_index(&h, &items, &num(f64::INFINITY))), "null");
    // A position beyond the largest index reads as the first.
    assert_eq!(show(&access_index(&h, &items, &num(1e300))), "10");
    let object = ExprValue::Object(vec![("Key".to_owned(), num(5.0))]);
    assert_eq!(show(&access_index(&h, &object, &text("key"))), "5");
    assert_eq!(show(&access_index(&h, &ExprValue::Null, &num(0.0))), "null");
}

#[test]
fn wildcards_collect_values() {
    let object = ExprValue::Object(vec![("a".to_owned(), num(1.0)), ("b".to_owned(), num(2.0))]);
    assert_eq!(show(&wildcard_access(&object)), "[1,2]");
    assert_eq!(show(&wildcard_access(&ExprValue::Array(vec![num(3.0)]))), "[3]");
    assert_eq!(show(&wildcard_access(&text("x"))), "null");
}

#[test]
fn comparisons_follow_floating_point() {
    let values = [
        0.0, -0.0, 1.0, -1.0, 1.5, f64::MIN_POSITIVE, -f64::MIN_POSITIVE, f64::MAX, f64::MIN,
        f64::INFINITY, f64::NEG_INFINITY, f64::NAN, 5e-324,
    ];
    for a in values {
        for b in values {
            let (x, y) = (a.to_bits(), b.to_bits());
            assert_eq!(compare_numbers(BinaryOperator::Lt, x, y), a < b, "{a} < {b}");
            assert_eq!(compare_numbers(BinaryOperator::Le, x, y), a <= b, "{a} <= {b}");
            assert_eq!(compare_numbers(BinaryOperator::Gt, x, y), a > b, "{a} > {b}");
            assert_eq!(compare_numbers(BinaryOperator::Ge, x, y), a >= b, "{a} >= {b}");
            if !a.is_nan() && !b.is_nan() {
                assert_eq!(number_bits::less(x, y), a < b);
            }
        }
        assert_eq!(number_bits::nan(a.to_bits()), a.is_nan());
    }
}

#[test]
fn positions_are_floors() {
    for n in [0.0, 0.5, 1.0, 7.99, 4294967296.0, 9007199254740993.0] {
        assert_eq!(number_bits::to_position((n as f64).to_bits()), Some((n as f64).floor() as usize), "{n}");
    }
    assert_eq!(number_bits::to_position((-0.0f64).to_bits()), Some(0));
    assert_eq!(number_bits::to_position((-1.0f64).to_bits()), None);
    assert_eq!(number_bits::to_position(f64::NAN.to_bits()), None);
}

#[test]
fn comparison_rejects_logical_operators() {
    let h = host();
    let r = eval_comparison(&h, BinaryOperator::And, &num(1.0), &num(1.0));
    assert_eq!(r.err().map(|e| e.message().to_owned()), Some("unexpected && or || in comparison".to_owned()));
    assert!(eval_comparison(&h, BinaryOperator::Eq, &text("a"), &text("a")).ok() == Some(true));
    assert!(eval_comparison(&h, BinaryOperator::Neq, &text("a"), &text("a")).ok() == Some(false));
}

#[test]
fn logical_operators_short_circuit() {
    let h = host();
    let ctx = context();
    let boom = || Box::new(Expr::FunctionCall { name: "boom".to_owned(), args: vec![] });
    let and = Expr::BinaryOp { op: BinaryOperator::And, left: lit(text("")), right: boom() };
    assert_eq!(show(&eval_expr(&h, &and, &ctx).ok().unwrap()), "''");
    let or = Expr::BinaryOp { op: BinaryOperator::Or, left: lit(text("x")), right: boom() };
    assert_eq!(show(&eval_expr(&h, &or, &ctx).ok().unwrap()), "'x'");
    let and = Expr::BinaryOp { op: BinaryOperator::And, left: lit(text("x")), right: boom() };
    assert_eq!(eval_expr(&h, &and, &ctx).err().unwrap().message(), "boom");
}

#[test]
fn expressions_without_calls_never_fail() {
    let h = host();
    let ctx = context();
    let values = || vec![ExprValue::Null, ExprValue::Bool(true), num(f64::NAN), text("x"), ExprValue::Array(vec![])];
    for value in values() {
        let odd = Expr::IndexAccess {
            object: Box::new(Expr::PropertyAccess {
                object: lit(copy_value(&value)),
                property: "none".to_owned(),
            }),
            index: Box::new(Expr::UnaryOp { op: UnaryOperator::Not, operand: lit(copy_value(&value)) }),
        };
        assert_eq!(show(&eval_expr(&h, &odd, &ctx).ok().unwrap()), "null");
        for other in values() {
            for op in [BinaryOperator::And, BinaryOperator::Or, BinaryOperator::Eq, BinaryOperator::Lt] {
                let e = Expr::BinaryOp { op, left: lit(copy_value(&value)), right: lit(copy_value(&other)) };
                assert!(eval_expr(&h, &e, &ctx).is_ok());
            }
        }
    }
}

#[test]
fn expressions_evaluate() {
    let h = host();
    let ctx = context();
    let member = Expr::IndexAccess {
        object: Box::new(Expr::PropertyAccess {
            object: Box::new(Expr::Context { name: "github".to_owned() }),
            property: "list".to_owned(),
        }),
        index: lit(num(1.0)),
    };
    assert_eq!(show(&eval_expr(&h, &member, &ctx).ok().unwrap()), "2");
    let not = Expr::UnaryOp { op: UnaryOperator::Not, operand: lit(ExprValue::Null) };
    assert_eq!(show(&eval_expr(&h, &not, &ctx).ok().unwrap()), "true");
    let less = Expr::BinaryOp { op: BinaryOperator::Lt, left: lit(num(1.0)), right: lit(text("2")) };
    assert_eq!(show(&eval_expr(&h, &less, &ctx).ok().unwrap()), "true");
    let called = Expr::FunctionCall {
        name: "format".to_owned(),
        args: vec![Expr::Literal(num(1.0)), Expr::Literal(num(2.0))],
    };
    assert_eq!(show(&eval_expr(&h, &called, &ctx).ok().unwrap()), "'format/2'");
    let star = Expr::WildcardAccess { object: Box::new(Expr::Context { name: "GITHUB".to_owned() }) };
    assert_eq!(show(&eval_expr(&h, &star, &ctx).ok().unwrap()), "['octocat',[1,2]]");
    let failing = Expr::FunctionCall {
        name: "format".to_owned(),
        args: vec![Expr::FunctionCall { name: "boom".to_owned(), args: vec![] }],
    };
    assert_eq!(eval_expr(&h, &failing, &ctx).err().unwrap().message(), "boom");
}

#[test]
fn evaluating_text_parses_it_first() {
    let h = host();
    let ctx = context();
    let parse = |s: &str| -> Result<Expr, RunnerError> {
        if s == "?" {
            Err(RunnerError::Expression("bad".to_owned()))
        } else {
            Ok(Expr::Context { name: s.to_owned() })
        }
    };
    assert_eq!(evaluate(&parse, &h, "?", &ctx).err().unwrap().message(), "bad");
    assert!(matches!(evaluate(&parse, &h, "github", &ctx), Ok(ExprValue::Object(_))));
}

#[test]
fn copies_are_deep() {
    let v = ExprValue::Object(vec![("a".to_owned(), ExprValue::Array(vec![num(1.0), ExprValue::Bool(true)]))]);
    assert_eq!(show(&copy_value(&v)), show(&v));
}

#[test]
fn literal_prefixes_stop_at_wildcards() {
    assert_eq!(literal_prefix("/ws/**/Cargo.lock"), "/ws");
    assert_eq!(literal_prefix("/ws/Cargo.lock"), "/ws/Cargo.lock");
    assert_eq!(literal_prefix("/ws/a?/b"), "/ws");
    assert_eq!(literal_prefix("/ws/a[b]"), "/ws");
    assert_eq!(literal_prefix("*"), "");
}

#[test]
fn nested_search_roots_are_dropped() {
    let roots: Vec<String> = ["/b", "/a/x", "/a", "/b", "/ab"].iter().map(|s| s.to_string()).collect();
    assert_eq!(search_roots(&roots), ["/b", "/a", "/ab"]);
}

#[test]
fn walks_are_depth_first_in_name_order() {
    let list = |p: &str| -> Found {
        let names = |v: &[&str]| Found::Directory(v.iter().map(|s| s.to_string()).collect());
        match p {
            "/r" => names(&["b", "a", "A"]),
            "/r/a" => names(&["2", "1"]),
            "/r/b" => Found::Missing,
            _ => Found::Other,
        }
    };
    let mut w = walk("/r");
    let mut visited = Vec::new();
    while let Some(item) = w.next_path() {
        let found = list(&item);
        if w.settle(&item, found) {
            visited.push(item);
        }
    }
    assert_eq!(visited, ["/r/A", "/r/a/1", "/r/a/2"]);
    let e = read_dir_error("/r", "denied");
    assert_eq!(e.message(), "hashFiles read_dir /r: denied");
}

#[test]
fn options_are_recognised_only_in_front() {
    let args = |v: &[&str]| -> Vec<String> { v.iter().map(|s| s.to_string()).collect() };
    assert_eq!(split_options(&args(&[])).ok(), Some((false, 0)));
    assert_eq!(split_options(&args(&["a"])).ok(), Some((false, 0)));
    assert_eq!(split_options(&args(&["--Follow-Symbolic-Links", "a"])).ok(), Some((true, 1)));
    assert_eq!(split_options(&args(&["a", "--x"])).ok(), Some((false, 0)));
    assert_eq!(
        split_options(&args(&["--x"])).err().unwrap().message(),
        "hashFiles: invalid option '--x'"
    );
}

#[test]
fn each_exclamation_mark_toggles() {
    assert_eq!(strip_negation("a"), (false, "a"));
    assert_eq!(strip_negation("!a"), (true, "a"));
    assert_eq!(strip_negation("! ! a"), (false, "a"));
    assert_eq!(strip_negation("!"), (true, ""));
}

#[test]
fn relative_segments_are_rejected() {
    assert!(reject_relative_segments("./a").is_ok());
    assert!(reject_relative_segments("a/b").is_ok());
    assert!(reject_relative_segments("a/./b").is_err());
    assert_eq!(
        reject_relative_segments("../a").err().unwrap().message(),
        "hashFiles: relative pathing '.' and '..' is not allowed in '../a'"
    );
}

#[test]
fn patterns_select_in_turn() {
    let args = vec!["**/*.lock\r\n# a comment\n!sub/b.lock".to_owned()];
    let patterns = parse_patterns("/ws", &args, 0).ok().unwrap();
    assert_eq!(patterns.len(), 4);
    assert!(matches_patterns(&patterns, "/ws/a.lock"));
    assert!(matches_patterns(&patterns, "/ws/sub/a.lock"));
    assert!(matches_patterns(&patterns, "/ws/sub/.hidden.lock"));
    assert!(!matches_patterns(&patterns, "/ws/sub/b.lock"));
    assert!(!matches_patterns(&patterns, "/ws/a.txt"));
    assert!(!matches_patterns(&patterns, "/other/a.lock"));
    let bad = parse_patterns("/ws", &vec!["a[".to_owned()], 0).err().unwrap();
    assert_eq!(
        bad.message(),
        format!("hashFiles pattern '/ws/a[': {}", glob::Pattern::new("/ws/a[").err().unwrap())
    );
}

fn run_hash(args: &[&str], files: &[(&str, &[u8])], dirs: &[(&str, &[&str])]) -> Result<String, String> {
    let args: Vec<String> = args.iter().map(|s| s.to_string()).collect();
    let mut run = hash_files("/ws", &args).map_err(|e| e.message().to_owned())?;
    loop {
        match run.next_step() {
            HashStep::Done(hash) => return Ok(hash),
            HashStep::Look(item) => {
                let dir = dirs.iter().find(|(d, _)| *d == item);
                let file = files.iter().find(|(f, _)| *f == item);
                let found = match (dir, file) {
                    (Some((_, names)), _) => Found::Directory(names.iter().map(|s| s.to_string()).collect()),
                    (_, Some(_)) => Found::Other,
                    _ => Found::Missing,
                };
                if run.looked(&item, found) {
                    let content = file.unwrap().1.to_vec();
                    run.read(&item, FileRead::Content(content)).map_err(|e| e.message().to_owned())?;
                }
            }
        }
    }
}

#[test]
fn hashes_fold_raw_digests_in_walk_order() {
    let files: [(&str, &[u8]); 3] = [("/ws/b.lock", b"two"), ("/ws/a.lock", b"one"), ("/ws/c.txt", b"no")];
    let dirs: [(&str, &[&str]); 1] = [("/ws", &["b.lock", "c.txt", "a.lock"])];
    let mut outer = Sha256::new();
    outer.update(Sha256::digest(b"one"));
    outer.update(Sha256::digest(b"two"));
    let expected = format!("{:x}", outer.finalize());
    assert_eq!(run_hash(&["*.lock"], &files, &dirs), Ok(expected.clone()));
    let dirs: [(&str, &[&str]); 1] = [("/ws", &["c.txt", "a.lock", "b.lock"])];
    assert_eq!(run_hash(&["*.lock"], &files, &dirs), Ok(expected));
}

#[test]
fn nothing_selected_hashes_to_nothing() {
    let dirs: [(&str, &[&str]); 1] = [("/ws", &[])];
    assert_eq!(run_hash(&["*.lock"], &[], &dirs), Ok(String::new()));
    assert_eq!(run_hash(&[], &[], &dirs), Ok(String::new()));
    assert_eq!(run_hash(&["# only a comment"], &[], &dirs), Ok(String::new()));
}

#[test]
fn unreadable_files_fail_the_hash() {
    let args = vec!["a".to_owned()];
    let mut run = hash_files("/ws", &args).ok().unwrap();
    assert!(!run.follows_symlinks());
    match run.next_step() {
        HashStep::Look(item) => {
            assert_eq!(item, "/ws/a");
            assert!(run.looked(&item, Found::Other));
            let e = run.read(&item, FileRead::ReadFailed("denied".to_owned())).err().unwrap();
            assert_eq!(e.message(), "hashFiles read /ws/a: denied");
        }
        HashStep::Done(_) => panic!("the file is looked at first"),
    }
}
