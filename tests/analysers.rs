use logana::analyser::{
    alire, angular, biome, cargo, clang, dune, eslint, gcc, go, gradle, karma_jasmine, maven, nix,
    odin, v, zig,
};
use logana::types::{Location, Message};

fn msg(error: &str, path: &str, row: usize, col: usize) -> Message {
    Message {
        error: error.to_string(),
        locations: vec![Location { path: path.to_string(), row, col }],
    }
}

#[test]
fn alire_error_1() {
    let log = "Compile\n   [Ada]          buildbuddy.adb\nbuildbuddy.adb:5:31: missing string quote\ngprbuild: *** compilation phase failed\n";
    let result = alire::analyse(log, "/tmp/project");
    assert_eq!(
        result,
        vec![msg("missing string quote", "/tmp/project/src/buildbuddy.adb", 5, 31)]
    );
}

#[test]
fn angular_error_1() {
    let log = "Build at: 2021-08-12T08:01:06.123Z - Hash: 0123456789abcdef - Time: 1234ms\n\nError: src/file.ts:8:26 - error TS2307: Cannot find module '../../../response' or its corresponding type declarations.\n\n8 import { Response } from '../../../response';\n\nsrc/file.ts:27:27 - error TS2339: Property 'showMsg' does not exist on type '{ type: string; }'.\n";
    let result = angular::analyse(log, "/tmp/project");
    assert_eq!(
        result,
        vec![
            msg("error TS2307: Cannot find module '../../../response' or its corresponding type declarations.", "/tmp/project/src/file.ts", 8, 26),
            msg("error TS2339: Property 'showMsg' does not exist on type '{ type: string; }'.", "/tmp/project/src/file.ts", 27, 27),
        ]
    );
}

#[test]
fn error_syntax_error() {
    let log = "./src/app/app.component.ts\nSyntaxError: /tmp/project/src/app/app.component.ts: Unexpected token (37:20)\n\nError: src/app/app.component.ts:12:1 - error TS1109: Expression expected.\n";
    let result = angular::analyse(log, "/tmp/project");
    assert_eq!(
        result,
        vec![
            msg("Unexpected token", "/tmp/project/src/app/app.component.ts", 37, 20),
            msg("error TS1109: Expression expected.", "/tmp/project/src/app/app.component.ts", 12, 1),
        ]
    );
}

#[test]
fn error_no_hash() {
    let log = "Build at: 2023-01-01T00:00:00.000Z - Time: 99ms\n\nsrc/app/app.component.ts:12:1 - error TS1109: Expression expected.\n\n12 }\n   ~\n";
    let result = angular::analyse(log, "/tmp/project");
    assert_eq!(
        result,
        vec![msg("error TS1109: Expression expected.", "/tmp/project/src/app/app.component.ts", 12, 1)]
    );
}

#[test]
fn biome_error_1() {
    let log = "/tmp/project/src/app/util/functions/date-format.functions.ts:44:15 parse ━━━━━━━━━━━━━━━━━━━━━━━━━━━━━━━━━━━━━━━━━━━━━━\n\n  \u{d7} Decorators are not valid here.\n\n    43 \u{2502}\n  > 44 \u{2502}   @Input()\n";
    let result = biome::analyse(log, "/tmp/project");
    assert_eq!(
        result,
        vec![msg("Decorators are not valid here.", "/tmp/project/src/app/util/functions/date-format.functions.ts", 44, 15)]
    );
}

#[test]
fn should_find_clippy_error() {
    let warnings = [
        ("unused variable: `i`", "src/loader/split.rs", 9, 19),
        ("unused variable: `last`", "src/loader/split.rs", 4, 9),
        ("unused variable: `split_lines`", "src/loader/split.rs", 6, 9),
        ("variable does not need to be mutable", "src/loader/split.rs", 2, 9),
        ("function `get_pane_content` is never used", "src/loader/fetch.rs", 4, 8),
        ("function `split_builds` is never used", "src/loader/split.rs", 1, 8),
        ("single-character string constant used as pattern", "src/analyser/cargo.rs", 43, 43),
        ("accessing first element with `parts.get(0)`", "src/analyser/cargo.rs", 45, 25),
        ("you are deriving `PartialEq` and can implement `Eq`", "src/types.rs", 3, 17),
    ];
    let mut log = String::from("    Checking logana v0.1.0 (/tmp/project)\n");
    for (text, path, row, col) in warnings.iter() {
        log.push_str(&format!("warning: {text}\n --> {path}:{row}:{col}\n  |\n  = note: `#[warn(unused)]` on by default\n\n"));
    }
    log.push_str("warning: `logana` (bin \"logana\") generated 9 warnings\n    Finished dev [unoptimized + debuginfo] target(s) in 0.50s\n");
    let result = cargo::analyse(&log, "/tmp/project");
    let expected: Vec<Message> = warnings
        .iter()
        .map(|(text, path, row, col)| msg(text, &format!("/tmp/project/{path}"), *row, *col))
        .collect();
    assert_eq!(result, expected);
}

#[test]
fn should_detect_failing_assert_1() {
    let log = "running 1 test\ntest analyser::cargo::tests::check ... FAILED\n\nfailures:\n\n---- analyser::cargo::tests::check stdout ----\nthread 'analyser::cargo::tests::check' panicked at 'assertion failed: false', src/analyser/cargo.rs:64:9\nnote: run with `RUST_BACKTRACE=1` environment variable to display a backtrace\n";
    let result = cargo::analyse(log, "/tmp/project");
    assert_eq!(
        result,
        vec![msg("assertion failed: false", "/tmp/project/src/analyser/cargo.rs", 64, 9)]
    );
}

#[test]
fn should_detect_failing_assert_2() {
    let log = "---- analyser::cargo::tests::compare stdout ----\nthread 'analyser::cargo::tests::compare' panicked at 'assertion failed: `(left == right)`\n  left: `1`,\n right: `2`\n', src/analyser/cargo.rs:174:9\nnote: run with `RUST_BACKTRACE=1` environment variable to display a backtrace\n";
    let result = cargo::analyse(log, "/tmp/project");
    assert_eq!(
        result,
        vec![msg("assertion failed: `(left == right)`", "/tmp/project/src/analyser/cargo.rs", 174, 9)]
    );
}

#[test]
fn cargo_should_find_build_error() {
    let build = "emily@dione ~/t/some_project (main)> cargo build\n   Compiling some_project v0.1.0 (/home/emily/tmp/some_project)\nerror[E0425]: cannot find value `asd` in this scope\n --> src/main.rs:2:5\n  |\n2 |     asd\n  |     ^^^ not found in this scope\n\nFor more information about this error, try `rustc --explain E0425`.\nerror: could not compile `some_project` due to previous error\n";
    let log = format!("{build}{build}");
    let result = cargo::analyse(&log, "/tmp/project");
    assert_eq!(
        result,
        vec![
            msg("cannot find value `asd` in this scope", "/tmp/project/src/main.rs", 2, 5),
            msg("cannot find value `asd` in this scope", "/tmp/project/src/main.rs", 2, 5),
        ]
    );
}

#[test]
fn should_find_typos_error() {
    let log = "error: `ba` should be `by`, `be`\n  --> ./tests/java_1.log:13:38\n   |\n13 |     at ba\n   |        ^^\n   |\n";
    let result = cargo::analyse(log, "/tmp/project");
    assert_eq!(
        result,
        vec![msg("`ba` should be `by`, `be`", "/tmp/project/tests/java_1.log", 13, 38)]
    );
}

#[test]
fn clang_error() {
    let log = "/tmp/project/main.c:47:5: warning: this style of line directive is a GNU extension [-Wgnu-line-marker]\n# 47 \"main.c\"\n    ^\n/tmp/project/main.c:48:14: error: type specifier missing, defaults to 'int'; ISO C99 and later do not support implicit int [-Wimplicit-int]\nstatic y = 1;\n~~~~~~ ^\n2 warnings and 1 error generated.\n";
    let result = clang::analyse(log, "/tmp/project");
    assert_eq!(
        result,
        vec![
            msg("warning: this style of line directive is a GNU extension [-Wgnu-line-marker]", "/tmp/project/main.c", 47, 5),
            msg("error: type specifier missing, defaults to 'int'; ISO C99 and later do not support implicit int [-Wimplicit-int]", "/tmp/project/main.c", 48, 14),
        ]
    );
}

#[test]
fn error_version_14() {
    let line = "src/string_map.cpp:148:16: warning: 'always_inline' function might not be inlinable [-Wattributes]";
    let log = format!("In file included from src/main.cpp\n{line}\n  148 | inline void put()\n{line}\n");
    let result = clang::analyse(&log, "/tmp/project");
    let expected = msg("warning: 'always_inline' function might not be inlinable [-Wattributes]", "/tmp/project/src/string_map.cpp", 148, 16);
    assert_eq!(result, vec![expected.clone(), expected]);
}

#[test]
fn dune_should_find_build_error() {
    let log = "File \"bin/main.ml\", line 21, characters 35-39:\n21 |   let t = x.time in\n                                        ^^^^\nError: Unbound record field time\n";
    let result = dune::analyse(log, "/tmp/project");
    assert_eq!(
        result,
        vec![msg("Error: Unbound record field time", "/tmp/project/bin/main.ml", 21, 35)]
    );
}

#[test]
fn dune_parse_location_test() {
    let result = dune::parse_location("File \"bin/main.ml\", line 21, characters 35-39:", "/tmp/project");
    assert_eq!(
        result,
        Some(Location { path: "/tmp/project/bin/main.ml".to_string(), row: 21, col: 35 })
    );
}

#[test]
fn should_find_lint() {
    let log = "\n/tmp/project/file.ts\n  1:8  error  Parsing error: ','  parser\n\n/tmp/project/index.ts\n  1:1  error    Unexpected var, use let or const instead  no-var\n  1:5  warning  'as' is assigned a value but never used   @typescript-eslint/no-unused-vars\n\n\u{2716} 3 problems (2 errors, 1 warning)\n";
    let result = eslint::analyse(log, "/tmp/project");
    assert_eq!(
        result,
        vec![
            msg("error Parsing error: ','", "/tmp/project/file.ts", 1, 8),
            msg("error Unexpected var, use let or const instead", "/tmp/project/index.ts", 1, 1),
            msg("warning 'as' is assigned a value but never used", "/tmp/project/index.ts", 1, 5),
        ]
    );
}

#[test]
fn gcc_error() {
    let log = "/tmp/project/./main.c: In function \u{2018}main\u{2019}:\n/tmp/project/./main.c:315:14: warning: unused parameter \u{2018}argc\u{2019} [-Wunused-parameter]\n  315 | int main(int argc, char **argv)\n/tmp/project/./main.c:312:1: warning: control reaches end of non-void function [-Wreturn-type]\n";
    let result = gcc::analyse(log, "/tmp/project");
    assert_eq!(
        result,
        vec![
            msg("warning: unused parameter \u{2018}argc\u{2019} [-Wunused-parameter]", "/tmp/project/./main.c", 315, 14),
            msg("warning: control reaches end of non-void function [-Wreturn-type]", "/tmp/project/./main.c", 312, 1),
        ]
    );
}

#[test]
fn should_find_build_error_1() {
    let log = "# command-line-arguments\n./main.go:4:2: string literal not terminated\n";
    let result = go::analyse(log, "/tmp/project");
    assert_eq!(
        result,
        vec![msg("string literal not terminated", "/tmp/project/main.go", 4, 2)]
    );
}

#[test]
fn should_find_build_error_2() {
    let log = "# example.com/hello\n./main.go:8:6: undefined: fmt.PrintLn\n";
    let result = go::analyse(log, "/tmp/project");
    assert_eq!(
        result,
        vec![msg("undefined: fmt.PrintLn", "/tmp/project/main.go", 8, 6)]
    );
}

#[test]
fn should_find_failed_test() {
    let log = "--- FAIL: TestHello (0.00s)\n    hello_test.go:11: got '\\x10', wanted '\\n'\nFAIL\nexit status 1\nFAIL\texample.com/hello\t0.002s\n";
    let result = go::analyse(log, "/tmp/project");
    assert_eq!(
        result,
        vec![msg("got '\\x10', wanted '\\n'", "/tmp/project/hello_test.go", 11, 0)]
    );
}

#[test]
fn gradle_should_find_syntax_error() {
    let caret = format!("{}^", " ".repeat(29));
    let log = format!("> Task :app:compileJava FAILED\n/home/emily/tmp/gradle-test/app/src/main/java/gradle/test/App.java:8: error: ';' expected\n        return \"Hello World!\"\n{caret}\n1 error\n\nFAILURE: Build failed with an exception.\n");
    let result = gradle::analyse(&log, "/home/emily/tmp/gradle-test");
    assert_eq!(
        result,
        vec![msg("error ';' expected", "/home/emily/tmp/gradle-test/app/src/main/java/gradle/test/App.java", 8, 30)]
    );
}

#[test]
fn should_find_test_error() {
    let log = "> Task :test FAILED\n\nAppTest > appHasAGreeting() FAILED\n    org.opentest4j.AssertionFailedError: expected: not <null>\n        at app//org.junit.jupiter.api.AssertionUtils.fail(AssertionUtils.java:39)\n        at app//org.example.AppTest.appHasAGreeting(AppTest.java:13)\n\n1 test completed, 1 failed\n";
    let result = gradle::analyse(log, "/home/emily/tmp/gradle-test");
    assert_eq!(
        result,
        vec![msg("not <null>", "/home/emily/tmp/gradle-test/src/test/java/org/example/AppTest.java", 13, 0)]
    );
}

#[test]
fn should_find_test_error_in_kotlin() {
    let log = "> Task :common:test\n\nAppTest > testSomething() FAILED\n    org.opentest4j.AssertionFailedError: expected: <true> but was: <false>\n        at app//org.junit.jupiter.api.AssertionFailureBuilder.build(AssertionFailureBuilder.java:151)\n        at app//org.example.AppTest.testSomething(AppTest.kt:14)\n\n1 test completed, 1 failed\n";
    let result = gradle::analyse(log, "/home/emily/tmp/gradle-test");
    assert_eq!(
        result,
        vec![msg("<true> but was: <false>", "/home/emily/tmp/gradle-test/common/src/test/kotlin/org/example/AppTest.kt", 14, 0)]
    );
}

#[test]
fn karma_jasmine_should_find_syntax_error() {
    let log = "Chrome Headless 92.0.4515.107 (Linux x86_64) AppComponent should create the app FAILED\n\tExpected true to be false.\n\t    at <Jasmine>\n\t    at UserContext.<anonymous> (src/app/app.component.spec.ts:35:18)\n\t    at ZoneDelegate.invoke (node_modules/zone.js/fesm2015/zone.js:372:1)\nChrome Headless 92.0.4515.107 (Linux x86_64) OtherServiceService should be created FAILED\n\tExpected OtherServiceService({  }) to be false.\n\t    at <Jasmine>\n\t    at UserContext.<anonymous> (src/app/components/other-service.service.spec.ts:14:21)\n\t    at ZoneDelegate.invoke (node_modules/zone.js/fesm2015/zone.js:372:1)\n";
    let result = karma_jasmine::analyse(log, "/tmp/project");
    assert_eq!(
        result,
        vec![
            msg("Expected true to be false.", "/tmp/project/src/app/app.component.spec.ts", 35, 18),
            msg("Expected OtherServiceService({  }) to be false.", "/tmp/project/src/app/components/other-service.service.spec.ts", 14, 21),
        ]
    );
}

#[test]
fn should_find_test_compile_error() {
    let log = "\nError: src/app/some.facade.spec.ts:36:32 - error TS2345: Argument of type '(name: string) => MemoizedSelector...\n\n36     store.overrideSelector(select, true);\n";
    let result = karma_jasmine::analyse(log, "/tmp/project");
    assert_eq!(
        result,
        vec![msg("TS2345: Argument of type '(name: string) => MemoizedSelector...", "/tmp/project/src/app/some.facade.spec.ts", 36, 32)]
    );
}

#[test]
fn should_parse_failed_test_2() {
    let log = "Chrome Headless (Linux x86_64) SomeFunctions should map FAILED\n\tExpected object to have properties\n\t    at <Jasmine>\n\t    at UserContext.<anonymous> (src/app/some.functions.spec.ts:51:20)\n\tError: Expected object to have properties\n\t    at <Jasmine>\nChrome Headless (Linux x86_64) SomeFunctions should map again FAILED\n\tExpected object to have properties\n\t    at <Jasmine>\n\t    at UserContext.<anonymous> (src/app/some.functions.spec.ts:34:20)\n\tError: Expected object to have properties\n\t    at <Jasmine>\n";
    let result = karma_jasmine::analyse(log, "/tmp/project");
    assert_eq!(
        result,
        vec![
            msg("Expected object to have properties", "/tmp/project/src/app/some.functions.spec.ts", 51, 20),
            Message { error: "Expected object to have properties".to_string(), locations: vec![] },
            msg("Expected object to have properties", "/tmp/project/src/app/some.functions.spec.ts", 34, 20),
            Message { error: "Expected object to have properties".to_string(), locations: vec![] },
        ]
    );
}

#[test]
fn should_parse_exception_1() {
    let log = "TypeError: Cannot read property 'component' of undefined\n      at MapSubscriber.call [as project] (http://localhost:9876/_karma_webpack_/webpack:/src/app/components/layout/main/command-info-dialog-modal/command-info-dialog-modal.component.ts:83:1)\n";
    let result = karma_jasmine::analyse(log, "/tmp/project");
    assert_eq!(
        result,
        vec![msg("Cannot read property 'component' of undefined", "/tmp/project/src/app/components/layout/main/command-info-dialog-modal/command-info-dialog-modal.component.ts", 83, 1)]
    );
}

#[test]
fn should_parse_exception_2() {
    let log = "Error: Expected '12.08.2021 08:01:06' to equal '12.08.2021 09:01:06'.\n    at <Jasmine>\n    at UserContext.<anonymous> (src/app/components/layout/main/alarm-info-dialog-modal/functions/alarm-info-calculated-fields.functions.spec.ts:80:22)\n";
    let result = karma_jasmine::analyse(log, "/tmp/project");
    assert_eq!(
        result,
        vec![msg("Expected '12.08.2021 08:01:06' to equal '12.08.2021 09:01:06'.", "/tmp/project/src/app/components/layout/main/alarm-info-dialog-modal/functions/alarm-info-calculated-fields.functions.spec.ts", 80, 22)]
    );
}

#[test]
fn karma_jasmine_parse_location_test() {
    let result = karma_jasmine::parse_location("src/app/some.facade.spec.ts:36:32", "/tmp/project");
    assert_eq!(
        result,
        Some(Location { path: "/tmp/project/src/app/some.facade.spec.ts".to_string(), row: 36, col: 32 })
    );
}

#[test]
fn maven_should_find_syntax_error() {
    let log = "[INFO] BUILD FAILURE\n[ERROR] COMPILATION ERROR : \n[ERROR] /tmp/project/src/main/java/some/thing/project/Main.java:[18,54] ';' expected\n[INFO] 1 error\n[ERROR] Failed to execute goal org.apache.maven.plugins:maven-compiler-plugin:3.8.1:compile (default-compile) on project project: Compilation failure\n[ERROR] /tmp/project/src/main/java/some/thing/project/Main.java:[18,54] ';' expected\n";
    let result = maven::analyse(log, "/tmp/project");
    assert_eq!(
        result,
        vec![msg("';' expected", "/tmp/project/src/main/java/some/thing/project/Main.java", 18, 54)]
    );
}

#[test]
fn should_find_unknown_symbol() {
    let log = "[ERROR] /tmp/project/src/main/java/some/thing/project/Main.java:[45,4] cannot find symbol\n[ERROR]   symbol:   variable thing\n[ERROR]   location: class some.thing.project.Main\n";
    let result = maven::analyse(log, "/tmp/project");
    assert_eq!(
        result,
        vec![msg("cannot find symbol", "/tmp/project/src/main/java/some/thing/project/Main.java", 45, 4)]
    );
}

#[test]
fn should_find_expected_symbol_on_windows() {
    let log = "[ERROR] C:\\Users\\michael\\testproject\\src\\main\\java\\com\\micmine\\test\\Service.java:[604,98] error: ';' expected\n";
    let result = maven::analyse(log, "C:\\Users\\michael\\testproject");
    assert_eq!(
        result,
        vec![msg("error: ';' expected", "C:\\Users\\michael\\testproject\\src\\main\\java\\com\\micmine\\test\\Service.java", 604, 98)]
    );
}

#[test]
fn should_find_failed_test_1() {
    let log = "[ERROR] should_Test  Time elapsed: 0.01 s  <<< FAILURE!\norg.opentest4j.AssertionFailedError: expected: <true> but was: <false>\n\tat some.thing.project.controller.AnalyzerTest.should_Test(AnalyzerTest.java:34)\n\n[ERROR] should_Testasd  Time elapsed: 0 s  <<< FAILURE!\norg.opentest4j.AssertionFailedError: expected: <1> but was: <2>\n\tat org.junit.jupiter.api.AssertionUtils.fail(AssertionUtils.java:55)\n\tat some.thing.project.controller.AnalyzerTest.should_Testasd(AnalyzerTest.java:39)\n";
    let result = maven::analyse(log, "/tmp/project");
    assert_eq!(
        result,
        vec![
            msg("org.opentest4j.AssertionFailedError: expected: <true> but was: <false>", "/tmp/project/src/test/java/some/thing/project/controller/AnalyzerTest.java", 34, 0),
            msg("org.opentest4j.AssertionFailedError: expected: <1> but was: <2>", "/tmp/project/src/test/java/some/thing/project/controller/AnalyzerTest.java", 39, 0),
        ]
    );
}

#[test]
fn should_find_failed_test_2() {
    let log = "[ERROR] Tests run: 1, Failures: 0, Errors: 1, Skipped: 0, Time elapsed: 0.2 s <<< FAILURE! - in sone.thing.project.ThingTest\n[ERROR] thingTest  Time elapsed: 0.1 s  <<< ERROR!\njava.util.ConcurrentModificationException\n\tat sone.thing.project.ThingTest.thingTest(ThingTest.java:145)\n\tat java.base/java.util.ArrayList$Itr.checkForComodification(ArrayList.java:1013)\n";
    let result = maven::analyse(log, "/tmp/project");
    assert_eq!(
        result,
        vec![msg("java.util.ConcurrentModificationException", "/tmp/project/src/test/java/sone/thing/project/ThingTest.java", 145, 0)]
    );
}

#[test]
fn should_find_failed_test_3() {
    let log = "[ERROR] thingTest  Time elapsed: 0.02 s  <<< FAILURE!\norg.opentest4j.AssertionFailedError: expected: <a> but was: <>\n\tat org.junit.jupiter.api.AssertionFailureBuilder.build(AssertionFailureBuilder.java:151)\n\tat some.project.thing.ThingTest.thingTest(ThingTest.java:21)\n";
    let result = maven::analyse(log, "/tmp/project");
    assert_eq!(
        result,
        vec![msg("org.opentest4j.AssertionFailedError: expected: <a> but was: <>", "/tmp/project/src/test/java/some/project/thing/ThingTest.java", 21, 0)]
    );
}

#[test]
fn should_find_failed_test_mockito() {
    let log = "[ERROR] publishTest  Time elapsed: 0.3 s  <<< FAILURE!\norg.mockito.exceptions.verification.WantedButNotInvoked: \nWanted but not invoked:\npublisher.publish(EventDTO(user=123, source=swiss));\n-> at some.project.thing.Publisher.publish(Publisher.java:10)\nActually, there were zero interactions with this mock.\n\n\tat some.project.thing.ThingTest.publishTest(ThingTest.java:34)\n";
    let result = maven::analyse(log, "/tmp/project");
    assert_eq!(
        result,
        vec![msg("org.mockito.exceptions.verification.WantedButNotInvoked:Wanted but not invoked:publisher.publish(EventDTO(user=123, source=swiss));Actually, there were zero interactions with this mock.", "/tmp/project/src/test/java/some/project/thing/ThingTest.java", 34, 0)]
    );
}

#[test]
fn parse_test_location_test() {
    let location = "some.thing.project.controller.AnalyzerTest.should_Test(AnalyzerTest.java:34)";
    assert_eq!(
        maven::parse_test_location(location, "/tmp/project"),
        Some(Location {
            path: "/tmp/project/src/test/java/some/thing/project/controller/AnalyzerTest.java".to_string(),
            row: 34,
            col: 0
        })
    );
}

#[test]
fn should_find_test_exception() {
    let log = "[ERROR] Tests run: 3, Failures: 0, Errors: 1, Skipped: 0, Time elapsed: 0.5 s <<< FAILURE! - in some.thing.project.ServiceTest\n[ERROR] serviceTest  Time elapsed: 0.1 s  <<< ERROR!\njava.util.ConcurrentModificationException\n\tat some.thing.project.ServiceTest.serviceTest(ServiceTest.java:145)\n";
    let result = maven::analyse(log, "/tmp/project");
    assert_eq!(
        result,
        vec![msg("java.util.ConcurrentModificationException", "/tmp/project/src/test/java/some/thing/project/ServiceTest.java", 145, 0)]
    );
}

#[test]
fn should_find_mockito_error() {
    let log = "[ERROR] publishTest  Time elapsed: 0.3 s  <<< FAILURE!\norg.mockito.exceptions.verification.WantedButNotInvoked: \nWanted but not invoked:\nchannel.publish(null);\n-> at some.thing.project.Service.publish(Service.java:20)\nActually, there were zero interactions with this mock.\n\n\tat some.thing.project.ServiceTest.publishTest(ServiceTest.java:34)\n";
    let result = maven::analyse(log, "/tmp/project");
    assert_eq!(
        result,
        vec![msg("org.mockito.exceptions.verification.WantedButNotInvoked:Wanted but not invoked:channel.publish(null);Actually, there were zero interactions with this mock.", "/tmp/project/src/test/java/some/thing/project/ServiceTest.java", 34, 0)]
    );
}

#[test]
fn fmt_1() {
    let log = "Failed! 1 error found at:\n- ./overlays/default.nix: unexpected token at 317..318\nnixfmt: ./overlays/default.nix failed on line 13 col 2\n";
    let result = nix::analyse(log, "/tmp/project");
    assert_eq!(
        result,
        vec![msg("unexpected token at 317..318", "/tmp/project/overlays/default.nix", 13, 0)]
    );
}

#[test]
fn parse_location_basic() {
    let result = odin::parse_location("/tmp/project/main.odin(7:1)");
    assert_eq!(
        result,
        Some(Location { path: "/tmp/project/main.odin".to_string(), row: 7, col: 1 })
    );
}

#[test]
fn odin_error() {
    let log = "/tmp/project/main.odin(7:1) Syntax Error: Expected a statement, got '}'\n\t}\n\t^\n/tmp/project/main.odin(6:2) Syntax Error: Only declarations are allowed at file scope, got expression statement\n/tmp/project/main.odin(6:14) Error: Cannot convert untyped value '\"Hellope!\"' to 'untyped integer' from 'untyped string'\n/tmp/project/main.odin(6:14) Error: 'len' is not supported for 'untyped integer'\n";
    let result = odin::analyse(log, "/tmp/project");
    assert_eq!(
        result,
        vec![
            msg("Syntax Error: Expected a statement, got '}'", "/tmp/project/main.odin", 7, 1),
            msg("Syntax Error: Only declarations are allowed at file scope, got expression statement", "/tmp/project/main.odin", 6, 2),
            msg("Error: Cannot convert untyped value '\"Hellope!\"' to 'untyped integer' from 'untyped string'", "/tmp/project/main.odin", 6, 14),
            msg("Error: 'len' is not supported for 'untyped integer'", "/tmp/project/main.odin", 6, 14),
        ]
    );
}

#[test]
fn v_error() {
    let log = "src/main.v:5:1: error: unexpected token `}`, expecting `,`\n    3 | fn main() {\n    5 | }\n      | ^\n";
    let result = v::analyse(log, "/tmp/project");
    assert_eq!(
        result,
        vec![msg("unexpected token `}`, expecting `,`", "/tmp/project/src/main.v", 5, 1)]
    );
}

#[test]
fn details() {
    let log = "src/main.v:6:1: error: unfinished string literal\n    6 |\n      | ^\nsrc/main.v:4:10: details: literal started here\n    4 |     println('hello)\n";
    let result = v::analyse(log, "/tmp/project");
    assert_eq!(
        result,
        vec![
            msg("unfinished string literal", "/tmp/project/src/main.v", 6, 1),
            msg("literal started here", "/tmp/project/src/main.v", 4, 10),
        ]
    );
}

#[test]
fn zig_error() {
    let log = "exercises/011_while.zig:24:15: error: expected type expression, found ')'\n    while (n < 1024)) {\n              ^\n";
    let result = zig::analyse(log, "/tmp/project");
    assert_eq!(
        result,
        vec![msg("expected type expression, found ')'", "/tmp/project/exercises/011_while.zig", 24, 15)]
    );
}

#[test]
fn note() {
    let log = "exercises/012_while2.zig:28:27: error: all non-void values must be used\n    while (n < 1000) : (n * 2) {\n                          ^\nexercises/012_while2.zig:28:27: note: this error can be suppressed by assigning the value to '_'\n";
    let result = zig::analyse(log, "/tmp/project");
    assert_eq!(
        result,
        vec![
            msg("all non-void values must be used", "/tmp/project/exercises/012_while2.zig", 28, 27),
            msg("this error can be suppressed by assigning the value to '_'", "/tmp/project/exercises/012_while2.zig", 28, 27),
        ]
    );
}
