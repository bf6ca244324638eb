//! Text utilities: removal of outer quotation marks, and helpers on lists of
//! elements (concatenation, collecting a stream of equal elements).

use crate::pattern::{quote_char, quotes_pattern, regex_replace_all, strip_outer};
use crate::post::exception::{Exception, ExceptionView};
use crate::post::text_parser_tests::QuotationTests;
use crate::text_parser_tests::TextParser;
use vstd::prelude::*;

verus! {

/// `text` without one leading and one trailing `"`.
pub open spec fn unquoted(text: Seq<char>) -> Seq<char> {
    strip_outer(text, quote_char(), quote_char())
}

/// Removes a leading and a trailing quotation mark from `text` (inner ones stay).
pub fn remove_outer_quotation_marks(text: &str) -> (r: String)
    ensures
        r@ == unquoted(text@),
{
    let pattern = "^\"|\"$";
    let empty = "";
    proof {
        reveal_strlit("");
        assert(pattern@ == quotes_pattern());
    }
    match regex_replace_all(pattern, text, empty) {
        Some(s) => s,
        None => {
            proof {
                assert(false);
            }
            String::new()
        },
    }
}

/// A text without outer quotation marks is left as it is.
pub proof fn lemma_unquoted_unchanged(text: Seq<char>)
    requires
        text.len() == 0 || (text[0] != quote_char() && text.last() != quote_char()),
    ensures
        unquoted(text) == text,
{
}

/// A test of two elements for equality.
pub trait BiPredicate<T> {
    spec fn spec_test(&self, left: T, right: T) -> bool;

    fn test(&self, left: &T, right: &T) -> (r: bool)
        ensures
            r == self.spec_test(*left, *right),
    ;
}

/// Equality of values.
pub struct Equals;

impl BiPredicate<String> for Equals {
    open spec fn spec_test(&self, left: String, right: String) -> bool {
        left@ == right@
    }

    fn test(&self, left: &String, right: &String) -> (r: bool) {
        *left == *right
    }
}

impl BiPredicate<i32> for Equals {
    open spec fn spec_test(&self, left: i32, right: i32) -> bool {
        left == right
    }

    fn test(&self, left: &i32, right: &i32) -> (r: bool) {
        *left == *right
    }
}

impl BiPredicate<u64> for Equals {
    open spec fn spec_test(&self, left: u64, right: u64) -> bool {
        left == right
    }

    fn test(&self, left: &u64, right: &u64) -> (r: bool) {
        *left == *right
    }
}

/// What collecting `s` into its one element gives: `None` for no element,
/// the last element where each element passes `equals` against the one
/// before it, else the first pair of neighbours that fails.
pub open spec fn equal_element<T>(s: Seq<T>, equals: spec_fn(T, T) -> bool) -> Result<Option<T>, (T, T)>
    decreases s.len(),
{
    if s.len() == 0 {
        Ok(None)
    } else {
        match equal_element(s.drop_last(), equals) {
            Err(pair) => Err(pair),
            Ok(None) => Ok(Some(s.last())),
            Ok(Some(left)) => if equals(left, s.last()) {
                Ok(Some(s.last()))
            } else {
                Err((left, s.last()))
            },
        }
    }
}

/// The test `p` as a spec function.
pub open spec fn test_fn<T, P: BiPredicate<T>>(p: P) -> spec_fn(T, T) -> bool {
    |left: T, right: T| p.spec_test(left, right)
}

/// The prefix of the message that reports two unequal elements.
pub open spec fn unequal_elements_prefix() -> Seq<char> {
    "Unequal elements in stream: "@
}

/// The `Debug` rendering of `value` (`format!("{:?}", value)`).
///
/// Trusted: nothing is stated of the text; it only goes into an error message.
#[verifier::external_body]
fn debug_text<T: std::fmt::Debug>(value: &T) -> String {
    format!("{:?}", value)
}

proof fn lemma_equal_element_last<T>(s: Seq<T>, equals: spec_fn(T, T) -> bool)
    ensures
        equal_element(s, equals) matches Ok(Some(x)) ==> s.len() > 0 && x == s.last(),
        equal_element(s, equals) matches Ok(None) ==> s.len() == 0,
    decreases s.len(),
{
    if s.len() > 0 {
        lemma_equal_element_last(s.drop_last(), equals);
    }
}

proof fn lemma_equal_element_error<T>(a: Seq<T>, b: Seq<T>, equals: spec_fn(T, T) -> bool)
    requires
        equal_element(a, equals) is Err,
    ensures
        equal_element(a + b, equals) == equal_element(a, equals),
    decreases b.len(),
{
    if b.len() == 0 {
        assert(a + b =~= a);
    } else {
        lemma_equal_element_error(a, b.drop_last(), equals);
        assert((a + b).drop_last() =~= a + b.drop_last());
    }
}

/// Collecting texts by equality gives their one text exactly where
/// there is at least one and all are equal; it is then that text.
pub proof fn law_equal_element_of_texts(s: Seq<String>)
    ensures
        equal_element(s, test_fn::<String, Equals>(Equals)) matches Ok(Some(x)) ==> forall|i: int| 0 <= i < s.len() ==> (#[trigger] s[i])@ == x@,
        (s.len() > 0 && forall|i: int| 0 <= i < s.len() ==> (#[trigger] s[i])@ == s[0]@) ==> (equal_element(s, test_fn::<String, Equals>(Equals)) matches Ok(Some(x)) && x@ == s[0]@),
        equal_element(s, test_fn::<String, Equals>(Equals)) == Ok::<Option<String>, (String, String)>(None) <==> s.len() == 0,
    decreases s.len(),
{
    let p = test_fn::<String, Equals>(Equals);
    lemma_equal_element_last(s, p);
    if s.len() > 0 {
        let rest = s.drop_last();
        law_equal_element_of_texts(rest);
        lemma_equal_element_last(rest, p);
        if let Ok(Some(x)) = equal_element(s, p) {
            assert forall|i: int| 0 <= i < s.len() implies (#[trigger] s[i])@ == x@ by {
                if i < s.len() - 1 {
                    assert(rest[i] == s[i]);
                }
            }
        }
        if forall|i: int| 0 <= i < s.len() ==> (#[trigger] s[i])@ == s[0]@ {
            assert forall|i: int| 0 <= i < rest.len() implies (#[trigger] rest[i])@ == rest[0]@ by {
                assert(rest[i] == s[i]);
            }
            assert(s[s.len() - 1]@ == s[0]@);
        }
    }
}

/// Where a test holds exactly when two elements agree on `key`, collecting
/// gives an element exactly when all elements agree, and then the last one.
proof fn lemma_equal_element_by_key<T, K>(s: Seq<T>, p: spec_fn(T, T) -> bool, key: spec_fn(T) -> K)
    requires
        forall|a: T, b: T| #[trigger] p(a, b) <==> key(a) == key(b),
    ensures
        equal_element(s, p) is Ok <==> forall|i: int| 0 <= i < s.len() ==> key(#[trigger] s[i]) == key(s[0]),
        equal_element(s, p) matches Ok(Some(x)) ==> s.len() > 0 && x == s.last() && forall|i: int| 0 <= i < s.len() ==> key(#[trigger] s[i]) == key(x),
        equal_element(s, p) matches Ok(None) <==> s.len() == 0,
    decreases s.len(),
{
    lemma_equal_element_last(s, p);
    if s.len() > 0 {
        let rest = s.drop_last();
        lemma_equal_element_by_key(rest, p, key);
        lemma_equal_element_last(rest, p);
        assert forall|i: int| 0 <= i < rest.len() implies #[trigger] rest[i] == s[i] by {}
        if let Ok(Some(x)) = equal_element(s, p) {
            assert forall|i: int| 0 <= i < s.len() implies key(#[trigger] s[i]) == key(x) by {
                if i < s.len() - 1 {
                    assert(rest[i] == s[i]);
                }
            }
        }
        if forall|i: int| 0 <= i < s.len() ==> key(#[trigger] s[i]) == key(s[0]) {
            assert forall|i: int| 0 <= i < rest.len() implies key(#[trigger] rest[i]) == key(rest[0]) by {
                assert(rest[i] == s[i]);
                assert(key(s[i]) == key(s[0]));
            }
            if rest.len() > 0 {
                assert(key(s[s.len() - 1]) == key(s[0]));
                assert(key(rest.last()) == key(s[0]));
                assert(p(rest.last(), s.last()));
            }
        }
        if equal_element(s, p) is Ok {
            assert(key(s[0]) == key(s.last()));
        }
    }
}

/// `Equals` holds of two texts exactly when they are the same text, and of
/// two numbers exactly when they are the same number.
pub proof fn law_equals_is_equality()
    ensures
        forall|a: String, b: String| #[trigger] Equals.spec_test(a, b) <==> a@ == b@,
        forall|a: u64, b: u64| #[trigger] Equals.spec_test(a, b) <==> a == b,
        forall|a: i32, b: i32| #[trigger] Equals.spec_test(a, b) <==> a == b,
{
}

/// Collecting numbers by equality succeeds exactly when all of them are the
/// same number; it then gives that number, or nothing for no numbers.
pub proof fn law_equal_element_of_u64(s: Seq<u64>)
    ensures
        equal_element(s, test_fn::<u64, Equals>(Equals)) is Ok <==> forall|i: int| 0 <= i < s.len() ==> #[trigger] s[i] == s[0],
        equal_element(s, test_fn::<u64, Equals>(Equals)) matches Ok(Some(x)) ==> s.len() > 0 && forall|i: int| 0 <= i < s.len() ==> #[trigger] s[i] == x,
        equal_element(s, test_fn::<u64, Equals>(Equals)) matches Ok(None) <==> s.len() == 0,
{
    law_equals_is_equality();
    lemma_equal_element_by_key(s, test_fn::<u64, Equals>(Equals), |x: u64| x);
}

/// Collecting numbers by equality succeeds exactly when all of them are the
/// same number; it then gives that number, or nothing for no numbers.
pub proof fn law_equal_element_of_i32(s: Seq<i32>)
    ensures
        equal_element(s, test_fn::<i32, Equals>(Equals)) is Ok <==> forall|i: int| 0 <= i < s.len() ==> #[trigger] s[i] == s[0],
        equal_element(s, test_fn::<i32, Equals>(Equals)) matches Ok(Some(x)) ==> s.len() > 0 && forall|i: int| 0 <= i < s.len() ==> #[trigger] s[i] == x,
        equal_element(s, test_fn::<i32, Equals>(Equals)) matches Ok(None) <==> s.len() == 0,
{
    law_equals_is_equality();
    lemma_equal_element_by_key(s, test_fn::<i32, Equals>(Equals), |x: i32| x);
}

/// Collecting texts by equality succeeds exactly when all of them are the same text.
pub proof fn law_equal_element_of_texts_succeeds_iff_equal(s: Seq<String>)
    ensures
        equal_element(s, test_fn::<String, Equals>(Equals)) is Ok <==> forall|i: int| 0 <= i < s.len() ==> (#[trigger] s[i])@ == s[0]@,
{
    law_equals_is_equality();
    lemma_equal_element_by_key(s, test_fn::<String, Equals>(Equals), |x: String| x@);
}

/// Helpers on texts and lists of elements; it has no instances (its field is private).
pub struct Utils {
    no_instances: (),
}

impl Utils {
    /// Removes a leading and a trailing quotation mark from `string`.
    pub fn remove_outer_quotation_marks(string: &str) -> (r: Result<String, Exception>)
        ensures
            r matches Ok(s) && s@ == unquoted(string@),
    {
        Ok(remove_outer_quotation_marks(string))
    }

    /// The elements of all the lists, list after list.
    pub fn concat<T>(streams: Vec<Vec<T>>) -> (r: Vec<T>)
        ensures
            r@ == streams@.map_values(|s: Vec<T>| s@).flatten(),
    {
        let mut streams = streams;
        let ghost all = streams@.map_values(|s: Vec<T>| s@);
        let mut out: Vec<T> = Vec::new();
        let mut i: usize = 0;
        let n = streams.len();
        while i < n
            invariant
                i <= n,
                n == streams@.len(),
                all.len() == n,
                forall|k: int| i <= k < n ==> #[trigger] streams@[k]@ == all[k],
                out@ == all.take(i as int).flatten(),
            decreases n - i,
        {
            let mut stream: Vec<T> = Vec::new();
            std::mem::swap(&mut stream, &mut streams[i]);
            assert(stream@ == all[i as int]);
            let ghost before = out@;
            out.append(&mut stream);
            proof {
                assert(all.take(i + 1) =~= all.take(i as int).push(all[i as int]));
                all.take(i as int).lemma_flatten_push(all[i as int]);
            }
            i = i + 1;
        }
        assert(all.take(n as int) =~= all);
        out
    }

    /// The one element of `elements` (where there is one), by equality of values.
    pub fn collect_equal_element<T: std::fmt::Debug>(elements: Vec<T>) -> (r: Result<Option<T>, Exception>)
        where
            Equals: BiPredicate<T>,
        ensures
            r is Ok <==> equal_element(elements@, test_fn::<T, Equals>(Equals)) is Ok,
            r matches Ok(o) ==> o == equal_element(elements@, test_fn::<T, Equals>(Equals))->Ok_0,
            r matches Err(e) ==> e@ matches ExceptionView::IllegalArgumentException(m) && unequal_elements_prefix().is_prefix_of(m),
    {
        Self::collect_equal_element_with_predicate(elements, Equals)
    }

    /// The one element of `elements` (where there is one): `None` for no
    /// element, the last element where each element equals the one before it
    /// by `equals`, else an `IllegalArgumentException` that names the first
    /// two neighbours that differ.
    pub fn collect_equal_element_with_predicate<T: std::fmt::Debug, P: BiPredicate<T>>(elements: Vec<T>, equals: P) -> (r: Result<Option<T>, Exception>)
        ensures
            r is Ok <==> equal_element(elements@, test_fn::<T, P>(equals)) is Ok,
            r matches Ok(o) ==> o == equal_element(elements@, test_fn::<T, P>(equals))->Ok_0,
            r matches Err(e) ==> e@ matches ExceptionView::IllegalArgumentException(m) && unequal_elements_prefix().is_prefix_of(m),
    {
        let ghost p = test_fn::<T, P>(equals);
        let mut items = elements;
        let n = items.len();
        let mut i: usize = 1;
        if n == 0 {
            return Ok(None);
        }
        assert(items@.take(1).drop_last() =~= Seq::<T>::empty());
        assert(equal_element(items@.take(1).drop_last(), p) == Ok::<Option<T>, (T, T)>(None));
        while i < n
            invariant
                1 <= i <= n,
                n == items@.len(),
                items@ == elements@,
                p == test_fn::<T, P>(equals),
                equal_element(items@.take(i as int), p) == Ok::<Option<T>, (T, T)>(Some(items@[i - 1])),
            decreases n - i,
        {
            assert(items@.take(i + 1).drop_last() =~= items@.take(i as int));
            if !equals.test(&items[i - 1], &items[i]) {
                proof {
                    assert(items@.take(i + 1).last() == items@[i as int]);
                    assert(!p(items@[i - 1], items@[i as int]));
                    assert(equal_element(items@.take(i + 1), p) is Err);
                    lemma_equal_element_error(items@.take(i + 1), items@.skip(i + 1), p);
                    assert(items@.take(i + 1) + items@.skip(i + 1) =~= items@);
                }
                let mut message = String::from_str("Unequal elements in stream: ");
                let left = Some(&items[i - 1]);
                message.append(debug_text(&left).as_str());
                message.append(" vs ");
                message.append(debug_text(&items[i]).as_str());
                proof {
                    reveal_strlit("Unequal elements in stream: ");
                    assert(message@.take(unequal_elements_prefix().len() as int) =~= unequal_elements_prefix());
                }
                return Err(Exception::IllegalArgumentException(message));
            }
            i = i + 1;
        }
        assert(items@.take(n as int) =~= items@);
        let last = items.pop();
        match last {
            Some(x) => Ok(Some(x)),
            None => Ok(None),
        }
    }
}

/// Removal of outer quotation marks, as a text parser.
pub struct QuotationParser;

impl TextParser for QuotationParser {
    open spec fn spec_parse(text: Seq<char>) -> Result<Seq<char>, crate::exception::ExceptionView> {
        Ok(unquoted(text))
    }

    fn parse_create_extract(text: String) -> (r: Result<String, crate::exception::Exception>) {
        Ok(remove_outer_quotation_marks(text.as_str()))
    }
}

/// [`Utils::remove_outer_quotation_marks`], as a text parser.
pub struct UtilsQuotationTests;

impl QuotationTests for UtilsQuotationTests {
    open spec fn spec_parse(text: Seq<char>) -> Result<Seq<char>, ExceptionView> {
        Ok(unquoted(text))
    }

    fn parse_create_extract(text: String) -> (r: Result<String, Exception>) {
        Utils::remove_outer_quotation_marks(text.as_str())
    }
}

} // verus!
