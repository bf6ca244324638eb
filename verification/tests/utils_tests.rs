use genealogy::post::exception::Exception;
use genealogy::utils::{remove_outer_quotation_marks, QuotationParser, Utils, UtilsQuotationTests};

#[test]
fn utils_quotation_tests() {
    assert!(genealogy::text_parser_tests::test_text_parser::<QuotationParser>());
    assert!(genealogy::post::text_parser_tests::test_text_parser::<UtilsQuotationTests>());
}

#[test]
fn only_outer_quotation_marks_are_removed() {
    assert_eq!("", remove_outer_quotation_marks("\""));
    assert_eq!("", remove_outer_quotation_marks("\"\""));
    assert_eq!("a\"b", remove_outer_quotation_marks("\"a\"b\""));
    assert_eq!("a", remove_outer_quotation_marks("a\""));
    assert_eq!(" \"a\" ", remove_outer_quotation_marks(" \"a\" "));
    assert_eq!("x", Utils::remove_outer_quotation_marks("\"x\"").unwrap());
}

#[test]
#[allow(non_snake_case)]
fn empty_stream__empty_optional() {
    let element = Utils::collect_equal_element(Vec::<i32>::new()).unwrap();
    assert_eq!(None, element);
}

#[test]
#[allow(non_snake_case)]
fn single_element_stream__optional_with_that_element() {
    let element = Utils::collect_equal_element(vec![String::from("element")]).unwrap();
    assert_eq!(Some(String::from("element")), element);
}

#[test]
#[allow(non_snake_case)]
fn equal_element_stream__optional_with_that_element() {
    let elements = vec![String::from("element"), String::from("element"), String::from("element")];
    let element = Utils::collect_equal_element(elements).unwrap();
    assert_eq!(Some(String::from("element")), element);
}

#[test]
#[allow(non_snake_case)]
fn non_equal_element_stream__throws_exception() {
    let elements = vec![String::from("element"), String::from("other_element")];
    match Utils::collect_equal_element(elements) {
        Err(Exception::IllegalArgumentException(message)) => assert_eq!(
            "Unequal elements in stream: Some(\"element\") vs \"other_element\"",
            message
        ),
        _ => panic!("unequal elements must be refused"),
    }
}

#[test]
fn numbers_are_collected_by_equality() {
    assert_eq!(Some(7), Utils::collect_equal_element(vec![7u64, 7, 7]).unwrap());
    match Utils::collect_equal_element(vec![1, 1, 2, 2]) {
        Err(Exception::IllegalArgumentException(message)) => {
            assert_eq!("Unequal elements in stream: Some(1) vs 2", message)
        },
        _ => panic!("unequal elements must be refused"),
    }
}

#[test]
fn concat_keeps_every_element_in_order() {
    let all = Utils::concat(vec![vec![1, 2], vec![], vec![3]]);
    assert_eq!(vec![1, 2, 3], all);
    assert!(Utils::concat(Vec::<Vec<u8>>::new()).is_empty());
}
