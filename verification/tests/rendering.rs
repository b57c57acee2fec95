use batch_requester::outcome::FailureCause;
use batch_requester::render::{append_decimal, decimal_string, render_list};

#[test]
fn decimal_numerals_are_exact() {
    assert_eq!(decimal_string(0), "0");
    assert_eq!(decimal_string(7), "7");
    assert_eq!(decimal_string(9), "9");
    assert_eq!(decimal_string(10), "10");
    assert_eq!(decimal_string(11), "11");
    assert_eq!(decimal_string(109), "109");
    assert_eq!(decimal_string(1000), "1000");
    assert_eq!(decimal_string(1234567890), "1234567890");
    assert_eq!(decimal_string(4294967295), "4294967295");
}

#[test]
fn decimal_numerals_agree_with_the_standard_form() {
    for n in (0u32..3000).chain(4294960000..=4294967295) {
        assert_eq!(decimal_string(n), format!("{}", n));
    }
}

#[test]
fn append_decimal_keeps_what_was_written() {
    let mut text = String::from("code ");
    append_decimal(&mut text, 404);
    assert_eq!(text, "code 404");
    append_decimal(&mut text, 0);
    assert_eq!(text, "code 4040");
}

#[test]
fn lists_are_bracketed_and_comma_separated() {
    assert_eq!(render_list(&vec![]), "[]");
    assert_eq!(render_list(&vec![5]), "[5]");
    assert_eq!(render_list(&vec![3, 7]), "[3, 7]");
    assert_eq!(render_list(&vec![0, 10, 4294967295]), "[0, 10, 4294967295]");
    assert_eq!(render_list(&vec![7, 3, 3]), "[7, 3, 3]");
}

#[test]
fn lists_agree_with_the_debug_form() {
    let values: Vec<u32> = vec![0, 1, 2, 3, 4, 5, 6, 7, 8, 9, 10];
    assert_eq!(render_list(&values), format!("{:?}", values));
    let none: Vec<u32> = Vec::new();
    assert_eq!(render_list(&none), format!("{:?}", none));
}

#[test]
fn failure_descriptions_are_exact() {
    assert_eq!(FailureCause::Transport.description(), "Failure sending HTTP request");
    assert_eq!(
        FailureCause::Status(404).description(),
        "Server responded with failure code 404"
    );
    assert_eq!(
        FailureCause::Status(500).description(),
        "Server responded with failure code 500"
    );
    assert_eq!(
        FailureCause::Status(65535).description(),
        "Server responded with failure code 65535"
    );
    assert_eq!(FailureCause::Body.description(), "Failure reading response body");
    assert_eq!(FailureCause::Parse.description(), "Failure parsing server response");
}
