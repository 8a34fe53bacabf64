use rust_markdown_notebook::kernel::{Code, TopLevel};
use rust_markdown_notebook::program::{
    File, ENTRY, EVAL_CLOSE, EVAL_OPEN, IDLE_ENTRY, NEWLINE, SPACE, TERMINATOR,
};
use std::str::FromStr;

fn printed(source: &str) -> String {
    proc_macro2::TokenStream::from_str(source).unwrap().to_string()
}

fn file_of(cells: &[&str]) -> File {
    let mut file = File::new();
    for cell in cells {
        file.push(Code::try_from(cell).unwrap());
    }
    file
}

const OPEN: &str = "fn eval_context () -> impl std :: any :: Any + std :: fmt :: Debug { ";
const MAIN: &str = "fn main () { print ! (\"{:#?}\" , eval_context ()) }\n";

#[test]
fn scaffold_is_what_the_token_printer_prints() {
    let routine = printed("fn eval_context() -> impl std::any::Any + std::fmt::Debug { x }");
    assert_eq!(routine, format!("{}{}{}", EVAL_OPEN, "x", EVAL_CLOSE));
    assert_eq!(printed("fn main() { print!(\"{:#?}\", eval_context()) }"), ENTRY);
    assert_eq!(printed("fn main() {}"), IDLE_ENTRY);
    assert_eq!(printed("a;"), format!("a{}", TERMINATOR));
    assert_eq!(printed("a b"), format!("a{}b", SPACE));
    assert_eq!(NEWLINE, "\n");
}

#[test]
fn sum_of_two_lets_is_the_tail() {
    let file = file_of(&["let a = 1; let b = 2;", "a + b"]);
    let expected = format!("{}let a = 1 ; let b = 2 ; a + b }}\n{}", OPEN, MAIN);
    assert_eq!(file.to_source(), Some(expected));
}

#[test]
fn only_the_last_form_keeps_its_value() {
    let first = file_of(&["let a = 1;"]);
    assert_eq!(first.to_source(), Some(format!("{}let a = 1 ; }}\n{}", OPEN, MAIN)));
    let second = file_of(&["let a = 1;", "a"]);
    assert_eq!(second.to_source(), Some(format!("{}let a = 1 ; a }}\n{}", OPEN, MAIN)));
    let third = file_of(&["let a = 1;", "a", "a + 1"]);
    assert_eq!(third.to_source(), Some(format!("{}let a = 1 ; a ; a + 1 }}\n{}", OPEN, MAIN)));
}

#[test]
fn declarations_come_first_one_per_line() {
    let file = file_of(&["let b = 2;\nfn some_fn() -> i32 { 42 }", "struct T;", "b + some_fn()"]);
    let expected = format!(
        "fn some_fn () -> i32 {{ 42 }}\nstruct T ;\n{}let b = 2 ; b + some_fn () }}\n{}",
        OPEN, MAIN
    );
    assert_eq!(file.to_source(), Some(expected));
}

#[test]
fn declarations_alone_get_an_idle_entry() {
    let file = file_of(&["fn f() {}"]);
    assert_eq!(file.to_source(), Some("fn f () { }\nfn main () { }\n".to_string()));
}

#[test]
fn nothing_is_synthesized_from_nothing() {
    assert_eq!(File::new().to_source(), None);
    assert_eq!(file_of(&["// a comment", ""]).to_source(), None);
    assert_eq!(Code::default().to_source(), None);
}

#[test]
fn statement_tail_is_rendered_as_it_is() {
    let code = Code::try_from("f(); g();").unwrap();
    assert_eq!(code.to_source(), Some(format!("{}f () ; g () ; }}\n{}", OPEN, MAIN)));
}

#[test]
fn one_record_is_a_program_of_its_own() {
    let code = Code::try_from("fn f() -> i32 { 1 }\nlet a = f();\na").unwrap();
    let expected = format!("fn f () -> i32 {{ 1 }}\n{}let a = f () ; a }}\n{}", OPEN, MAIN);
    assert_eq!(code.to_source(), Some(expected));
}

#[test]
fn snapshot_concatenates_in_record_order() {
    let file = file_of(&["fn f() {}\nlet a = 1;", "a", "fn g() {}\na + 1"]);
    let all = file.snapshot();
    assert_eq!(all.items(), &vec!["fn f () { }".to_string(), "fn g () { }".to_string()]);
    assert_eq!(
        all.top_levels(),
        &vec![
            TopLevel::Stmt("let a = 1 ;".to_string()),
            TopLevel::Expr("a".to_string()),
            TopLevel::Expr("a + 1".to_string()),
        ]
    );
    assert_eq!(file.len(), 3);
    assert_eq!(all.to_source(), file.to_source());
}

#[test]
fn push_only_appends() {
    let mut file = file_of(&["fn f() {}", "let a = 1;"]);
    let before = file.snapshot();
    file.push(Code::try_from("fn g() {}\na").unwrap());
    let after = file.snapshot();
    assert_eq!(&after.items()[..before.items().len()], &before.items()[..]);
    assert_eq!(&after.top_levels()[..before.top_levels().len()], &before.top_levels()[..]);
    assert_eq!(after.items().len(), 2);
    assert_eq!(after.top_levels().len(), 2);
}

#[test]
fn synthesis_is_repeatable() {
    let file = file_of(&["let a = 1;", "a + 1"]);
    assert_eq!(file.to_source(), file.to_source());
    assert_eq!(file.to_source(), file_of(&["let a = 1;", "a + 1"]).to_source());
}

#[test]
fn earlier_program_does_not_depend_on_later_cells() {
    let short = file_of(&["let a = 1;", "a"]);
    let mut long = File::new();
    long.push(Code::try_from("let a = 1;").unwrap());
    long.push(Code::try_from("a").unwrap());
    let at_second = long.to_source();
    long.push(Code::try_from("a + 1").unwrap());
    assert_eq!(at_second, short.to_source());
}

#[test]
fn synthesized_program_is_rust() {
    let file = file_of(&["#[derive(Debug)] struct T { x: i32 }\nlet t = T { x: 1 };", "t"]);
    let source = file.to_source().unwrap();
    let parsed = syn::parse_file(&source).unwrap();
    assert_eq!(parsed.items.len(), 3);
}
