use genealogy::date::Date;
use genealogy::post::content::Content;
use genealogy::post::description::Description;
use genealogy::post::exception::Exception;
use genealogy::post::factories::article_factory::ArticleFactory;
use genealogy::post::factories::parse_date;
use genealogy::post::factories::post_factory::PostFactory;
use genealogy::post::factories::raw_front_matter::RawFrontMatter;
use genealogy::post::factories::talk_factory::TalkFactory;
use genealogy::post::factories::video_factory::VideoFactory;
use genealogy::post::repository::Repository;
use genealogy::post::slug::Slug;
use genealogy::post::tag::Tag;
use genealogy::post::text_parser_tests::test_text_parser;
use genealogy::post::title::{Title, TitleQuotationTests};
use genealogy::post::uri::Uri;
use genealogy::post::video_slug::VideoSlug;
use std::collections::HashSet;

fn lines(texts: &[&str]) -> Vec<String> {
    texts.iter().map(|t| t.to_string()).collect()
}

fn hash_set_of_tags(texts: &[&str]) -> HashSet<String> {
    texts.iter().map(|t| t.to_string()).collect()
}

fn is_illegal_argument<T>(result: Result<T, Exception>) -> bool {
    matches!(result, Err(Exception::IllegalArgumentException(_)))
}

#[test]
fn creat_from_file_all_tags_correct_get_valid_article() {
    let file = lines(&[
        "---",
        "title: A cool blog post",
        "tags: [$TAG, $TOG]",
        "date: 2020-01-23",
        "description: \"Very blog, much post, so wow\"",
        "slug: cool-blog-post",
        "---",
        "",
        "Lorem ipsum dolor sit amet.",
        "Ut enim ad minim veniam.",
        "Duis aute irure dolor in reprehenderit.",
        "Excepteur sint occaecat cupidatat non proident.",
    ]);
    let article = ArticleFactory::create_article_from_lines(file).unwrap();
    assert_eq!("A cool blog post", article.title.text);
    assert_eq!(hash_set_of_tags(&["$TAG", "$TOG"]), article.tags().iter().map(|t| t.text.clone()).collect());
    assert_eq!(Date { year: 2020, month: 1, day: 23 }, article.date);
    assert_eq!("Very blog, much post, so wow", article.description.text);
    assert_eq!("cool-blog-post", article.slug.value);
    assert_eq!(
        lines(&[
            "",
            "Lorem ipsum dolor sit amet.",
            "Ut enim ad minim veniam.",
            "Duis aute irure dolor in reprehenderit.",
            "Excepteur sint occaecat cupidatat non proident.",
        ]),
        article.content.get()
    );
}

#[test]
#[allow(non_snake_case)]
fn repository_empty_text__exception() {
    assert!(is_illegal_argument(Repository::new(String::from(""))));
}

#[test]
#[allow(non_snake_case)]
fn slug_empty_text__exception() {
    assert!(is_illegal_argument(Slug::new(String::from(""))));
}

#[test]
#[allow(non_snake_case)]
fn video_slug_empty_text__exception() {
    assert!(is_illegal_argument(VideoSlug::new(String::from(""))));
}

#[test]
#[allow(non_snake_case)]
fn multiple_elements_array_with_spaces_multiple__tags_without_spaces() {
    let tags = Tag::from("[$TAG ,  $TOG , $TUG  ]").unwrap();
    assert_eq!(hash_set_of_tags(&["$TAG", "$TOG", "$TUG"]), tags.iter().map(|t| t.text.clone()).collect());
}

#[test]
fn multiple_elements_array_duplicate_tags_duplicate_tag_is_ignored() {
    let tags = Tag::from("[$TAG, $TAG]").unwrap();
    assert_eq!(1, tags.len());
    assert_eq!("$TAG", tags[0].text);
}

#[test]
fn title_quotation_tests() {
    assert!(test_text_parser::<TitleQuotationTests>());
}

#[test]
fn titles_are_unquoted() {
    assert_eq!("A \"quoted\" title", Title::new("\"A \"quoted\" title\"").unwrap().text);
    match Title::new("\"\"") {
        Err(Exception::IllegalArgumentException(message)) => assert_eq!("Titles can't have an empty text.", message),
        _ => panic!("a blank title must be refused"),
    }
}

#[test]
fn descriptions_are_unquoted_and_trimmed() {
    assert_eq!("so wow", Description::new(String::from("\" so wow \"")).unwrap().text);
    match Description::new(String::from("\"   \"")) {
        Err(Exception::IllegalArgumentException(message)) => {
            assert_eq!("Description can't have an empty text.", message)
        },
        _ => panic!("a blank description must be refused"),
    }
}

#[test]
fn blank_identifiers_are_refused_with_their_messages() {
    match Repository::new(String::from(" ")) {
        Err(Exception::IllegalArgumentException(message)) => {
            assert_eq!("Repositories can't have an empty identifier.", message)
        },
        _ => panic!("a blank repository must be refused"),
    }
    match VideoSlug::new(String::from("\t")) {
        Err(Exception::IllegalArgumentException(message)) => assert_eq!("Slugs can't have an empty value.", message),
        _ => panic!("a blank video slug must be refused"),
    }
    assert_eq!("v", VideoSlug::new(String::from("v")).unwrap().value);
}

#[test]
fn dates_are_parsed_as_year_month_day() {
    assert_eq!(Date { year: 1999, month: 12, day: 31 }, parse_date("1999-12-31").unwrap());
    assert!(matches!(parse_date("31.12.1999"), Err(Exception::DateTimeParseException)));
    assert!(matches!(parse_date("2021-02-29"), Err(Exception::DateTimeParseException)));
}

#[test]
fn front_matter_is_read_between_the_separators() {
    let file = lines(&["intro", " --- ", "  title : T  ", "# a comment: here", "---", "content"]);
    assert_eq!(lines(&["title : T", "# a comment: here"]), PostFactory::read_front_matter(&file));
    assert_eq!(lines(&["content"]), PostFactory::extract_content(&file));
    let front_matter = PostFactory::extract_front_matter(&file).unwrap();
    assert_eq!(Some(String::from("T")), front_matter.value_of("title"));
    assert_eq!(None, front_matter.value_of("# a comment"));
}

#[test]
fn front_matter_keys_keep_their_case() {
    let file = lines(&["---", "Title: T", "---"]);
    let front_matter = PostFactory::extract_front_matter(&file).unwrap();
    assert_eq!(Some(String::from("T")), front_matter.value_of("Title"));
    assert_eq!(None, front_matter.value_of("title"));
    match front_matter.required_value_of("title") {
        Err(Exception::IllegalArgumentException(message)) => {
            assert_eq!("Required key 'title' not present in front matter.", message)
        },
        _ => panic!("a missing key must be reported"),
    }
}

#[test]
fn duplicate_keys_are_refused() {
    let file = lines(&["---", "slug: a", "slug: b", "---"]);
    match PostFactory::extract_front_matter(&file) {
        Err(Exception::IllegalStateException(message)) => {
            assert_eq!("Duplicate key slug (attempted merging values a and b)", message)
        },
        _ => panic!("a key given twice must be refused"),
    }
}

#[test]
fn malformed_lines_are_refused() {
    match PostFactory::key_value_pair_from("no colon") {
        Err(Exception::IllegalArgumentException(message)) => {
            assert_eq!("Line doesn't seem to be a key/value pair (no colon): no colon", message)
        },
        _ => panic!("a line without a colon must be refused"),
    }
    match PostFactory::key_value_pair_from(" : value") {
        Err(Exception::IllegalArgumentException(message)) => assert_eq!("Line \" : value\" has no key.", message),
        _ => panic!("a line without a key must be refused"),
    }
    let line = PostFactory::key_value_pair_from("a: b: c").unwrap();
    assert_eq!("a", line.key());
    assert_eq!("b: c", line.value());
}

#[test]
fn later_pairs_replace_earlier_ones_in_a_raw_front_matter() {
    let front_matter = RawFrontMatter::new(vec![
        (String::from("k"), String::from("1")),
        (String::from("j"), String::from("2")),
        (String::from("k"), String::from("3")),
    ]);
    assert_eq!(Some(String::from("3")), front_matter.value_of("k"));
    assert_eq!(Some(String::from("2")), front_matter.value_of("j"));
}

fn talk_file(slides: &str, video: Option<&str>) -> Vec<String> {
    let mut file = lines(&[
        "---",
        "title: A talk",
        "tags: [java, rust]",
        "date: 2021-03-04",
        "description: About things",
        "slug: a-talk",
    ]);
    file.push(format!("slides: {}", slides));
    if let Some(video) = video {
        file.push(format!("videoSlug: {}", video));
    }
    file.push(String::from("---"));
    file
}

#[test]
fn talks_are_created_from_their_files() {
    let talk = TalkFactory::create_talk("talk.md", Ok(talk_file("https://example.org/slides#1", Some("abc")))).unwrap();
    assert_eq!("A talk", talk.title.text);
    assert_eq!("https://example.org/slides#1", talk.slides.text);
    assert_eq!(Some(String::from("abc")), talk.video.as_ref().map(|v| v.value.clone()));
    assert_eq!(Date { year: 2021, month: 3, day: 4 }, talk.date);
    let talk = TalkFactory::create_talk("talk.md", Ok(talk_file("slides.html", None))).unwrap();
    assert!(talk.video.is_none());
}

#[test]
fn talks_with_malformed_slides_are_refused() {
    match TalkFactory::create_talk("talk.md", Ok(talk_file("my slides", None))) {
        Err(Exception::RuntimeException(message, cause)) => {
            assert_eq!("Creating talk failed: talk.md", message);
            match *cause {
                Exception::IllegalArgumentException(reason) => {
                    assert_eq!("Illegal character at index 2: my slides", reason)
                },
                other => panic!("unexpected cause {:?}", other),
            }
        },
        _ => panic!("malformed slides must be refused"),
    }
}

#[test]
fn failed_reads_are_wrapped_twice() {
    let failed: Result<Vec<String>, Exception> = Err(Exception::UncheckedIOException(String::from("gone")));
    match TalkFactory::create_talk("t.md", failed) {
        Err(Exception::RuntimeException(outer, cause)) => {
            assert_eq!("Creating talk failed: t.md", outer);
            match *cause {
                Exception::RuntimeException(inner, cause) => {
                    assert_eq!("Creating article failed: t.md", inner);
                    assert!(matches!(*cause, Exception::UncheckedIOException(_)));
                },
                other => panic!("unexpected cause {:?}", other),
            }
        },
        _ => panic!("a failed read must be reported"),
    }
}

#[test]
fn videos_are_created_from_their_files() {
    let file = lines(&[
        "---",
        "title: A video",
        "tags: []",
        "date: 2021-05-06",
        "description: Moving pictures",
        "slug: a-video",
        "videoSlug: xyz",
        "repo: my-repo",
        "---",
    ]);
    let video = VideoFactory::create_video("video.md", Ok(file)).unwrap();
    assert_eq!("xyz", video.video.value);
    assert_eq!(Some(String::from("my-repo")), video.repository.as_ref().map(|r| r.identifier.clone()));
    assert!(video.tags().is_empty());
    let missing = lines(&["---", "title: A video", "tags: []", "date: 2021-05-06", "description: d", "slug: s", "---"]);
    match VideoFactory::create_video("v.md", Ok(missing)) {
        Err(Exception::RuntimeException(message, cause)) => {
            assert_eq!("Creating video failed: v.md", message);
            match *cause {
                Exception::IllegalArgumentException(reason) => {
                    assert_eq!("Required key 'videoSlug' not present in front matter.", reason)
                },
                other => panic!("unexpected cause {:?}", other),
            }
        },
        _ => panic!("a missing video slug must be refused"),
    }
}

#[test]
fn articles_from_files_report_their_file() {
    let file = lines(&["---", "title: t", "tags: [a]", "date: 2020-01-01", "description: d", "slug: s", "repo: ", "---"]);
    match ArticleFactory::create_article("a.md", Ok(file)) {
        Err(Exception::RuntimeException(message, cause)) => {
            assert_eq!("Creating article failed: a.md", message);
            assert!(matches!(*cause, Exception::IllegalArgumentException(_)));
        },
        _ => panic!("a blank repository must be refused"),
    }
    let file = lines(&["---", "title: t", "tags: [a]", "date: 2020-01-01", "description: d", "slug: s", "---", "x"]);
    let article = ArticleFactory::create_article("a.md", Ok(file)).unwrap();
    assert!(article.repository.is_none());
    assert_eq!(lines(&["x"]), article.content.get());
}

#[test]
fn uris_are_checked_character_by_character() {
    assert_eq!("http://a.b/c?d=e&f=%20", Uri::new(String::from("http://a.b/c?d=e&f=%20")).unwrap().text);
    match Uri::new(String::from("a<b")) {
        Err(Exception::URISyntaxException(message)) => assert_eq!("Illegal character at index 1: a<b", message),
        _ => panic!("a malformed URI must be refused"),
    }
    assert!(Uri::new(String::new()).is_ok());
}

#[test]
fn content_gives_back_its_lines() {
    assert_eq!(lines(&["a", "b"]), Content::new(lines(&["a", "b"])).get());
}

#[test]
fn a_file_without_separators_has_no_front_matter() {
    let file = lines(&["title: t", "slug: s"]);
    assert!(PostFactory::read_front_matter(&file).is_empty());
    assert!(PostFactory::extract_content(&file).is_empty());
    match ArticleFactory::create_article_from_lines(file) {
        Err(Exception::IllegalArgumentException(message)) => {
            assert_eq!("Required key 'title' not present in front matter.", message)
        },
        _ => panic!("a file without a front matter must be refused"),
    }
    let unclosed = lines(&["---", "title: t"]);
    assert_eq!(lines(&["title: t"]), PostFactory::read_front_matter(&unclosed));
    assert!(PostFactory::extract_content(&unclosed).is_empty());
}
