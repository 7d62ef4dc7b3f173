use logana::input::split::builds;

#[test]
fn should_split_builds() {
    let expected = vec![
        "emily@dione ~/t/some_project (main)> cargo build\n   Compiling some_project v0.1.0 (/home/emily/tmp/some_project)\n    Finished dev [unoptimized + debuginfo] target(s) in 0.43s\n",
        "emily@dione ~/t/some_project (main)> cargo build\n    Finished dev [unoptimized + debuginfo] target(s) in 0.00s\n",
        "emily@dione ~/t/some_project (main)> cargo build\n    Finished dev [unoptimized + debuginfo] target(s) in 0.00s\n",
        "emily@dione ~/t/some_project (main)> cargo build\n    Finished dev [unoptimized + debuginfo] target(s) in 0.00s\n",
        "emily@dione ~/t/some_project (main)> cargo build\n    Finished dev [unoptimized + debuginfo] target(s) in 0.00s\n",
        "emily@dione ~/t/some_project (main)> cargo build\n    Finished dev [unoptimized + debuginfo] target(s) in 0.00s\n",
        "emily@dione ~/t/some_project (main)> cargo build\n    Finished dev [unoptimized + debuginfo] target(s) in 0.00s\n",
        "emily@dione ~/t/some_project (main)> cargo build\n    Finished dev [unoptimized + debuginfo] target(s) in 0.00s\n",
        "emily@dione ~/t/some_project (main)> cargo build\n    Finished dev [unoptimized + debuginfo] target(s) in 0.00s\n",
        "emily@dione ~/t/some_project (main)> cargo build\n    Finished dev [unoptimized + debuginfo] target(s) in 0.00s\n",
        "emily@dione ~/t/some_project (main)> cargo build\n    Finished dev [unoptimized + debuginfo] target(s) in 0.00s\n",
        "emily@dione ~/t/some_project (main)> cargo build\n    Finished dev [unoptimized + debuginfo] target(s) in 0.00s\n",
        "emily@dione ~/t/some_project (main)> cargo build\n    Finished dev [unoptimized + debuginfo] target(s) in 0.00s\n",
        "emily@dione ~/t/some_project (main)> nvim src/main.rs\n",
        "emily@dione ~/t/some_project (main)> cargo build\n   Compiling some_project v0.1.0 (/home/emily/tmp/some_project)\nerror[E0425]: cannot find value `asd` in this scope\n --> src/main.rs:2:5\n  |\n2 |     asd\n  |     ^^^ not found in this scope\n\nFor more information about this error, try `rustc --explain E0425`.\nerror: could not compile `some_project` due to previous error\n",
        "emily@dione ~/t/some_project (main) [101]> cargo build\n   Compiling some_project v0.1.0 (/home/emily/tmp/some_project)\nerror[E0425]: cannot find value `asd` in this scope\n --> src/main.rs:2:5\n  |\n2 |     asd\n  |     ^^^ not found in this scope\n\nFor more information about this error, try `rustc --explain E0425`.\nerror: could not compile `some_project` due to previous error\n",
        "emily@dione ~/t/some_project (main) [101]> nvim src/main.rs\n",
        "emily@dione ~/t/some_project (main)> cargo build\n   Compiling some_project v0.1.0 (/home/emily/tmp/some_project)\n    Finished dev [unoptimized + debuginfo] target(s) in 0.14s\n\n",
    ];
    let joined: String = expected.concat();
    let log = &joined[..joined.len() - 1];
    let out = builds(log, "emily@dione ");
    assert_eq!(out, expected);
}

#[test]
fn should_split_builds_2() {
    let expected = vec![
        "emily@dione ~/D/r/moxy (master)> cargo build                \n   Compiling moxy v0.1.0 (/home/emily/Documents/rust/moxy)\nerror: expected `;`, found `#`\n --> src/main.rs:2:16\n  |\n2 | pub mod builder\n  |                ^ help: add `;` here\n3 | #[warn(missing_docs)]\n  | - unexpected token\n\nerror: expected item, found `<eof>`\n  --> src/main.rs:22:1\n   |\n22 | }\n   | ^ expected item\n\nerror: could not compile `moxy` due to 2 previous errors\n",
        "emily@dione ~/D/r/moxy (master) [101]> \n\n\n",
    ];
    let joined: String = expected.concat();
    let log = &joined[..joined.len() - 1];
    let out = builds(log, "emily@dione ");
    assert_eq!(out, expected);
}

#[test]
fn text_before_the_first_prompt_is_dropped() {
    let out = builds("noise\n$ make\nok\n  $ make again", "$ ");
    assert_eq!(out, vec!["$ make\nok\n", "  $ make again\n"]);
}

#[test]
fn no_prompt_means_no_builds() {
    assert!(builds("a\nb\n", "$ ").is_empty());
    assert!(builds("", "$ ").is_empty());
}
