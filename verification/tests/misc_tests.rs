use genealogy::article::article_factory::{IsNotSeparator, TrimLine};
use genealogy::exception::Exception;
use genealogy::genealogist::relation_type::RelationType;
use genealogy::genealogist::typed_relation::TypedRelation;
use genealogy::article::content::Content;
use genealogy::article::Article;
use genealogy::process_details::ProcessDetails;
use genealogy::try_iterator::{TryItems, TryIterator};

fn article(slug: &str) -> Article {
    let lines = vec![
        String::from("---"),
        String::from("title: T"),
        String::from("tags: [t]"),
        String::from("date: 2020-01-01"),
        String::from("description: D"),
        format!("slug: {}", slug),
        String::from("---"),
    ];
    genealogy::article::article_factory::ArticleFactory::create_from_lines(lines)
}

fn items(texts: &[Result<&str, &str>]) -> TryItems<String, Exception> {
    TryItems::new(
        texts
            .iter()
            .map(|t| match t {
                Ok(text) => Ok(text.to_string()),
                Err(message) => Err(Exception::IO(message.to_string())),
            })
            .collect(),
    )
}

fn drain<I: TryIterator<Ok = String, Error = Exception>>(mut iterator: I) -> Vec<Result<String, String>> {
    let mut out = Vec::new();
    while let Some(item) = iterator.try_next() {
        out.push(item.map_err(|e| e.message()));
    }
    out
}

#[test]
fn process_details_name_the_process_and_the_release() {
    assert_eq!("Process ID: 4242 | Rust version: 1.76.0", ProcessDetails::details(4242, "1.76.0"));
    assert_eq!("Process ID: 0 | Rust version: ", ProcessDetails::details(0, ""));
}

#[test]
fn relation_types_must_not_be_blank() {
    assert_eq!("tag", RelationType::try_from(String::from("tag")).unwrap().value);
    match RelationType::try_from(String::from("  ")) {
        Err(Exception::IllegalArgument(message)) => assert_eq!("Relation types can't have an empty value.", message),
        _ => panic!("a blank relation type must be refused"),
    }
}

#[test]
fn typed_relation_scores_range_from_zero_to_one_hundred() {
    let relation_type = || RelationType::try_from(String::from("tag")).unwrap();
    let relation = TypedRelation::new(article("a"), article("b"), relation_type(), 99).unwrap();
    assert_eq!(99, relation.score);
    assert_eq!("b", relation.article2.slug.value);
    assert_eq!(0, TypedRelation::new(article("a"), article("b"), relation_type(), 0).unwrap().score);
    assert_eq!(100, TypedRelation::new(article("a"), article("b"), relation_type(), 100).unwrap().score);
    match TypedRelation::new(article("a"), article("b"), relation_type(), 101) {
        Err(Exception::IllegalArgument(message)) => assert_eq!("Score should be in interval [0; 100]: 101", message),
        _ => panic!("a score above 100 must be refused"),
    }
}

#[test]
fn fused_iteration_stops_after_the_first_error() {
    let fused = items(&[Ok("a"), Err("x"), Ok("b")]).try_fused();
    assert_eq!(
        vec![Ok(String::from("a")), Err(String::from("IOException: x\n"))],
        drain(fused)
    );
}

#[test]
fn adapters_act_on_ok_values_and_pass_errors_through() {
    let mapped = items(&[Ok(" a "), Ok("b ")]).map_ok(TrimLine);
    assert_eq!(vec![Ok(String::from("a")), Ok(String::from("b"))], drain(mapped));
    let skipped = items(&[Err("e"), Ok("a"), Ok("b")]).try_skip(1);
    assert_eq!(vec![Err(String::from("IOException: e\n"))], drain(skipped));
    let skipped = items(&[Ok("a"), Ok("b"), Ok("c")]).try_skip(2);
    assert_eq!(vec![Ok(String::from("c"))], drain(skipped));
    let after = items(&[Ok("x"), Ok("---"), Ok("y")]).try_skip_while(IsNotSeparator);
    assert_eq!(vec![Ok(String::from("---")), Ok(String::from("y"))], drain(after));
    let before = items(&[Ok("x"), Ok("y"), Ok("---"), Ok("z")]).try_take_while(IsNotSeparator);
    assert_eq!(vec![Ok(String::from("x")), Ok(String::from("y"))], drain(before));
}

#[test]
fn front_matter_iterators_split_a_file() {
    let file = items(&[Ok("intro"), Ok(" --- "), Ok(" a: 1 "), Ok("---"), Ok("body")]);
    let front_matter = genealogy::article::article_factory::ArticleFactory::extract_front_matter(file);
    assert_eq!(vec![Ok(String::from("a: 1"))], drain(front_matter));
    let file = items(&[Ok("intro"), Ok(" --- "), Ok(" a: 1 "), Ok("---"), Ok("body")]);
    let content = genealogy::article::article_factory::ArticleFactory::extract_content(file);
    assert_eq!(vec![Ok(String::from("body"))], drain(content));
    let content = Content::from_lines(vec![String::from("l")]);
    assert_eq!(1, content.items.len());
}

#[test]
fn take_while_stops_for_good() {
    let mut taken = items(&[Ok("x"), Err("e"), Ok("---"), Ok("y")]).try_take_while(IsNotSeparator);
    assert_eq!(Some(Ok(String::from("x"))), taken.try_next().map(|r| r.map_err(|e| e.message())));
    assert!(matches!(taken.try_next(), Some(Err(_))));
    assert!(taken.try_next().is_none());
    assert!(taken.try_next().is_none());
}

#[test]
fn fused_iteration_ends_when_the_inner_iterator_runs_out() {
    let mut fused = items(&[Ok("a")]).try_fused();
    assert!(matches!(fused.try_next(), Some(Ok(_))));
    assert!(fused.try_next().is_none());
    assert!(fused.try_next().is_none());
}
