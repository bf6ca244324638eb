use genealogy::article::article_factory::{ArticleFactory, FrontMatterLine};
use genealogy::article::content::Content;
use genealogy::article::description::Description;
use genealogy::article::slug::Slug;
use genealogy::article::tag::Tag;
use genealogy::article::title::Title;
use genealogy::date::Date;
use genealogy::exception::Exception;
use genealogy::try_iterator::TryItems;
use std::collections::BTreeSet;

fn lines(texts: &[&str]) -> Vec<String> {
    texts.iter().map(|t| t.to_string()).collect()
}

fn read(texts: &[&str]) -> Vec<Result<String, Exception>> {
    texts.iter().map(|t| Ok(t.to_string())).collect()
}

fn tag_set(tags: &[Tag]) -> BTreeSet<String> {
    tags.iter().map(|t| t.text.clone()).collect()
}

fn expected_set(texts: &[&str]) -> BTreeSet<String> {
    texts.iter().map(|t| t.to_string()).collect()
}

fn set_from_text(text: &str) -> Vec<Tag> {
    let tags = Tag::set_from_text(text).unwrap();
    let set = tag_set(&tags);
    assert_eq!(set.len(), tags.len());
    tags
}

#[test]
#[allow(non_snake_case)]
fn article_factory_create_from_front_matter__multiple_colons__get_valid_article() {
    let front_matter = TryItems::new(read(&[
        "title: Cool: A blog post",
        "tags: [$TAG, $TOG]",
        "date: 2020-01-23",
        "description: \"Very blog, much post, so wow\"",
        "slug: cool-blog-post",
    ]));
    let article = ArticleFactory::create_from_iterators(front_matter, Content::new(Vec::new())).unwrap();
    assert_eq!("Cool: A blog post", article.title.text);
    assert_eq!(expected_set(&["$TAG", "$TOG"]), tag_set(&article.tags));
    assert_eq!(Date { year: 2020, month: 1, day: 23 }, article.date);
    assert_eq!("Very blog, much post, so wow", article.description.text);
    assert_eq!("cool-blog-post", article.slug.value);

    let file = lines(&[
        "---",
        "title: Cool: A blog post",
        "tags: [$TAG, $TOG]",
        "date: 2020-01-23",
        "description: \"Very blog, much post, so wow\"",
        "slug: cool-blog-post",
        "---",
        "",
    ]);
    let post = genealogy::post::factories::article_factory::ArticleFactory::create_article_from_lines(file).unwrap();
    assert_eq!("Cool: A blog post", post.title.text);
    assert_eq!(expected_set(&["$TAG", "$TOG"]), post.tags().iter().map(|t| t.text.clone()).collect());
    assert_eq!(Date { year: 2020, month: 1, day: 23 }, post.date);
    assert_eq!("Very blog, much post, so wow", post.description.text);
    assert_eq!("cool-blog-post", post.slug.value);
}

#[test]
#[allow(non_snake_case)]
fn article_factory_create_from_front_matter__all_tags_correct__get_valid_article() {
    let front_matter = TryItems::new(read(&[
        "title: A blog post",
        "tags: [$TAG, $TOG]",
        "date: 2020-01-23",
        "description: \"Very blog, much post, so wow\"",
        "slug: cool-blog-post",
    ]));
    let article = ArticleFactory::create_from_iterators(front_matter, Content::new(Vec::new())).unwrap();
    assert_eq!("A blog post", article.title.text);
    assert_eq!(expected_set(&["$TAG", "$TOG"]), tag_set(&article.tags));
    assert_eq!(Date { year: 2020, month: 1, day: 23 }, article.date);
    assert_eq!("Very blog, much post, so wow", article.description.text);
    assert_eq!("cool-blog-post", article.slug.value);

    let file = lines(&[
        "---",
        "title: A cool blog post",
        "tags: [$TAG, $TOG]",
        "date: 2020-01-23",
        "description: \"Very blog, much post, so wow\"",
        "slug: cool-blog-post",
        "---",
        "",
    ]);
    let post = genealogy::post::factories::article_factory::ArticleFactory::create_article_from_lines(file).unwrap();
    assert_eq!("A cool blog post", post.title.text);
    assert_eq!(expected_set(&["$TAG", "$TOG"]), post.tags().iter().map(|t| t.text.clone()).collect());
    assert_eq!(Date { year: 2020, month: 1, day: 23 }, post.date);
    assert_eq!("Very blog, much post, so wow", post.description.text);
    assert_eq!("cool-blog-post", post.slug.value);
}

#[test]
#[allow(non_snake_case)]
fn create_from_file__all_tags_correct__get_valid_article() {
    let file = lines(&[
        "---",
        "title: A cool blog post",
        "tags: [$TAG, $TOG]",
        "date: 2020-01-23",
        "description: \"Very blog, much post, so wow\"",
        "slug: cool-blog-post",
        "---",
        "",
        "Lorem ipsum dolor sit amet.",
        "Ut enim ad minim veniam.",
        "Duis aute irure dolor in reprehenderit.",
        "Excepteur sint occaecat cupidatat non proident.",
    ]);
    let article = ArticleFactory::create_from_lines(file);
    assert_eq!("A cool blog post", article.title.text);
    assert_eq!(expected_set(&["$TAG", "$TOG"]), tag_set(&article.tags));
    assert_eq!(Date { year: 2020, month: 1, day: 23 }, article.date);
    assert_eq!("Very blog, much post, so wow", article.description.text);
    assert_eq!("cool-blog-post", article.slug.value);
    let expected_content = lines(&[
        "",
        "Lorem ipsum dolor sit amet.",
        "Ut enim ad minim veniam.",
        "Duis aute irure dolor in reprehenderit.",
        "Excepteur sint occaecat cupidatat non proident.",
    ]);
    let actual_content: Vec<String> = article.content.items.into_iter().map(|item| item.unwrap()).collect();
    assert_eq!(expected_content, actual_content);
}

#[test]
fn title_empty_text_exception() {
    match Title::try_from(String::from("")) {
        Err(Exception::IllegalArgument(_)) => (),
        _ => panic!("Not an IllegalArgument exception"),
    }
    match genealogy::post::title::Title::new("") {
        Err(genealogy::post::exception::Exception::IllegalArgumentException(_)) => (),
        _ => panic!("Not an IllegalArgument exception"),
    }
}

#[test]
fn description_empty_text_exception() {
    match Description::try_from(String::from("")) {
        Err(Exception::IllegalArgument(_)) => (),
        _ => panic!("Not an IllegalArgument exception"),
    }
    match genealogy::post::description::Description::new(String::from("")) {
        Err(genealogy::post::exception::Exception::IllegalArgumentException(_)) => (),
        _ => panic!("Not an IllegalArgument exception"),
    }
}

#[test]
fn slug_empty_text_exception() {
    match Slug::try_from(String::from("")) {
        Err(Exception::IllegalArgument(_)) => (),
        _ => panic!("Not an IllegalArgument exception"),
    }
}

#[test]
fn description_quotation_tests() {
    assert!(genealogy::text_parser_tests::test_text_parser::<genealogy::article::description::QuotationParser>());
    assert!(genealogy::post::text_parser_tests::test_text_parser::<
        genealogy::post::description::DescriptionQuotationTests,
    >());
}

#[test]
#[allow(non_snake_case)]
fn tag_empty_element_array__empty_tag() {
    assert!(set_from_text("[ ]").is_empty());
    assert!(genealogy::post::tag::Tag::from("[ ]").unwrap().is_empty());
}

#[test]
#[allow(non_snake_case)]
fn tag_single_element_array__single_tag() {
    assert_eq!(expected_set(&["$TAG"]), tag_set(&set_from_text("[$TAG]")));
    let tags = genealogy::post::tag::Tag::from("[$TAG]").unwrap();
    assert_eq!(vec!["$TAG".to_string()], tags.iter().map(|t| t.text.clone()).collect::<Vec<_>>());
}

#[test]
#[allow(non_snake_case)]
fn tag_multiple_elements_array__multiple_tags() {
    assert_eq!(expected_set(&["$TAG", "$TOG", "$TUG"]), tag_set(&set_from_text("[$TAG,$TOG,$TUG]")));
    let tags = genealogy::post::tag::Tag::from("[$TAG,$TOG,$TUG]").unwrap();
    assert_eq!(expected_set(&["$TAG", "$TOG", "$TUG"]), tags.iter().map(|t| t.text.clone()).collect());
}

#[test]
#[allow(non_snake_case)]
fn multiple_elements_array_with_spaces__multiple_tags_without_spaces() {
    assert_eq!(expected_set(&["$TAG", "$TOG", "$TUG"]), tag_set(&set_from_text("[$TAG ,  $TOG , $TUG  ]")));
}

#[test]
#[allow(non_snake_case)]
fn tag_multiple_elements_array_with_just_spaces_tag__empty_tag_is_ignored() {
    assert_eq!(expected_set(&["$TAG", "$TUG"]), tag_set(&set_from_text("[$TAG ,  , $TUG  ]")));
    let tags = genealogy::post::tag::Tag::from("[$TAG ,  , $TUG  ]").unwrap();
    assert_eq!(expected_set(&["$TAG", "$TUG"]), tags.iter().map(|t| t.text.clone()).collect());
}

#[test]
#[allow(non_snake_case)]
fn tag_multiple_elements_array_with_empty_tag__empty_tag_is_ignored() {
    assert_eq!(expected_set(&["$TAG", "$TUG"]), tag_set(&set_from_text("[$TAG ,, $TUG  ]")));
    let tags = genealogy::post::tag::Tag::from("[$TAG ,, $TUG ]").unwrap();
    assert_eq!(expected_set(&["$TAG", "$TUG"]), tags.iter().map(|t| t.text.clone()).collect());
}

#[test]
#[allow(non_snake_case)]
fn multiple_elements_array_duplicate_tags__duplicate_tag_is_ignored() {
    let tags = set_from_text("[$TAG, $TAG]");
    assert_eq!(1, tags.len());
    assert_eq!(expected_set(&["$TAG"]), tag_set(&tags));
}

#[test]
fn tags_keep_the_order_of_first_occurrence() {
    let tags = set_from_text("[b, a, b, c, a]");
    let texts: Vec<String> = tags.iter().map(|t| t.text.clone()).collect();
    assert_eq!(lines(&["b", "a", "c"]), texts);
    // Only an outer pair of brackets is removed.
    let texts: Vec<String> = set_from_text("[[x], y]").iter().map(|t| t.text.clone()).collect();
    assert_eq!(lines(&["[x]", "y"]), texts);
}

#[test]
fn titles_lose_their_outer_quotation_marks() {
    let title = Title::try_from(String::from("\"A title\"")).unwrap();
    assert_eq!("A title", title.text);
    match Title::try_from(String::from("\"  \"")) {
        Err(Exception::IllegalArgument(message)) => assert_eq!("Titles can't have an empty text.", message),
        _ => panic!("a blank title must be refused"),
    }
    assert!(genealogy::text_parser_tests::test_text_parser::<genealogy::article::title::QuotationParser>());
}

#[test]
fn description_is_unquoted_and_trimmed() {
    let description = Description::try_from(String::from("\"  spaced out \"")).unwrap();
    assert_eq!("spaced out", description.text);
    match Description::try_from(String::from("\" \"")) {
        Err(Exception::IllegalArgument(message)) => assert_eq!("Description can't have an empty text.", message),
        _ => panic!("a blank description must be refused"),
    }
}

#[test]
fn blank_values_are_refused() {
    match Slug::try_from(String::from(" \t")) {
        Err(Exception::IllegalArgument(message)) => assert_eq!("Slugs can't have an empty value.", message),
        _ => panic!("a blank slug must be refused"),
    }
    match Tag::try_from(String::from("   ")) {
        Err(Exception::IllegalArgument(message)) => assert_eq!("Tags can't have an empty text.", message),
        _ => panic!("a blank tag must be refused"),
    }
    assert_eq!("s", Slug::try_from(String::from("s")).unwrap().value);
}

#[test]
fn front_matter_lines_are_split_at_the_first_colon() {
    let line = FrontMatterLine::try_from(Ok(String::from("  Title : Cool: post "))).unwrap();
    assert_eq!("title", line.key);
    assert_eq!("Cool: post", line.value);
    match FrontMatterLine::try_from(Ok(String::from("no colon here"))) {
        Err(Exception::IllegalArgument(message)) => {
            assert_eq!("Line doesn't seem to be a key/value pair (no colon): no colon here", message)
        },
        _ => panic!("a line without a colon must be refused"),
    }
    match FrontMatterLine::try_from(Ok(String::from("  : value"))) {
        Err(Exception::IllegalArgument(message)) => assert_eq!("Line \"  : value\" has no key.", message),
        _ => panic!("a line without a key must be refused"),
    }
    match FrontMatterLine::try_from(Err(Exception::IO(String::from("disk gone")))) {
        Err(Exception::IO(message)) => assert_eq!("disk gone", message),
        _ => panic!("a failed read must stay what it is"),
    }
}

#[test]
fn missing_entries_and_bad_dates_are_refused() {
    let missing_slug = TryItems::new(read(&["title: t", "tags: [a]", "date: 2020-01-23", "description: d"]));
    match ArticleFactory::create_from_iterators(missing_slug, Content::new(Vec::new())) {
        Err(Exception::NullPointer) => (),
        _ => panic!("a missing slug must be refused"),
    }
    let bad_date = TryItems::new(read(&["title: t", "tags: [a]", "date: 2020-02-30", "description: d", "slug: s"]));
    match ArticleFactory::create_from_iterators(bad_date, Content::new(Vec::new())) {
        Err(Exception::DateTimeParse) => (),
        _ => panic!("a day that does not exist must be refused"),
    }
    let leap_day = TryItems::new(read(&["title: t", "tags: [a]", "date: 2020-02-29", "description: d", "slug: s"]));
    let article = ArticleFactory::create_from_iterators(leap_day, Content::new(Vec::new())).unwrap();
    assert_eq!(Date { year: 2020, month: 2, day: 29 }, article.date);
}

#[test]
fn upper_case_keys_are_read_in_lower_case_and_later_entries_win() {
    let front_matter = TryItems::new(read(&[
        "TITLE: First",
        "Tags: [x]",
        "DaTe: 2021-12-31",
        "description: d",
        "slug: s",
        "title: Second",
    ]));
    let article = ArticleFactory::create_from_iterators(front_matter, Content::new(Vec::new())).unwrap();
    assert_eq!("Second", article.title.text);
    assert_eq!(Date { year: 2021, month: 12, day: 31 }, article.date);
}

#[test]
fn front_matter_and_content_are_split_at_the_separators() {
    let file = lines(&["preamble", "  ---  ", " title: T ", "tags: [a]", "date: 2020-01-01", "description: d", "slug: s", "---", "body 1", "---", "body 2"]);
    let article = ArticleFactory::create_from_lines_checked(file).unwrap();
    assert_eq!("T", article.title.text);
    let content: Vec<String> = article.content.items.into_iter().map(|item| item.unwrap()).collect();
    assert_eq!(lines(&["body 1", "---", "body 2"]), content);
    assert!(ArticleFactory::create_from_lines_checked(lines(&["---", "title: t", "---"])).is_none());
}

#[test]
fn a_failed_read_names_the_file() {
    let front_matter = vec![Ok(String::from("---")), Err(Exception::IO(String::from("broken pipe")))];
    let content = read(&["---", "---"]);
    match ArticleFactory::create_from_file_lines("posts/a.md", front_matter, content) {
        Err(Exception::Runtime(message)) => assert_eq!(
            "Creating article failed: posts/a.md, exception: IOException: broken pipe\n",
            message
        ),
        _ => panic!("a failed read must be reported"),
    }
    let front_matter = read(&["---", "title: t", "tags: [a]", "date: 2020-01-01", "description: d", "---"]);
    match ArticleFactory::create_from_file_lines("b.md", front_matter, read(&[])) {
        Err(Exception::Runtime(message)) => {
            assert_eq!("Creating article failed: b.md, exception: NullPointerException", message)
        },
        _ => panic!("a missing slug must be reported"),
    }
}

#[test]
fn articles_are_equal_by_slug() {
    let make = |title: &str, slug: &str| {
        let front_matter = TryItems::new(vec![
            Ok(format!("title: {}", title)),
            Ok(String::from("tags: [a]")),
            Ok(String::from("date: 2020-01-01")),
            Ok(String::from("description: d")),
            Ok(format!("slug: {}", slug)),
        ]);
        ArticleFactory::create_from_iterators(front_matter, Content::new(Vec::new())).unwrap()
    };
    assert!(make("one", "same") == make("two", "same"));
    assert!(make("one", "same") != make("one", "other"));
}

#[test]
fn exception_messages() {
    assert_eq!("IllegalArgumentException: bad\n", Exception::IllegalArgument(String::from("bad")).message());
    assert_eq!("RuntimeException: oops\n", Exception::Runtime(String::from("oops")).message());
    assert_eq!("IOException: gone\n", Exception::IO(String::from("gone")).message());
    assert_eq!("NullPointerException", Exception::NullPointer.message());
    assert_eq!("DateTimeParseException", Exception::DateTimeParse.message());
}

#[test]
fn keys_beyond_ascii_are_lower_cased() {
    let line = FrontMatterLine::try_from(Ok(String::from("ÜBER: x"))).unwrap();
    assert_eq!("über", line.key);
    assert_eq!("x", line.value);
}
