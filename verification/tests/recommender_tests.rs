use genealogy::date::Date;
use genealogy::genealogy::relation::Relation;
use genealogy::post::article::Article;
use genealogy::post::content::Content;
use genealogy::post::description::Description;
use genealogy::post::exception::Exception;
use genealogy::post::slug::Slug;
use genealogy::post::title::Title;
use genealogy::post::Post;
use genealogy::recommendation::recommender::Recommender;
use genealogy::recommendation::Recommendation;

fn create_with_slug(slug: &str) -> Post {
    Post::from_article(Article::new(
        Title::new("Title").unwrap(),
        Vec::new(),
        Date::from_ymd(2020, 1, 1).unwrap(),
        Description::new(String::from("Description")).unwrap(),
        Slug::new(String::from(slug)).unwrap(),
        None,
        Content::new(Vec::new()),
    ))
}

struct RecommenderTests {
    post_a: Post,
    post_b: Post,
    post_c: Post,
    recommender: Recommender,
}

impl RecommenderTests {
    fn new() -> RecommenderTests {
        RecommenderTests {
            post_a: create_with_slug("a"),
            post_b: create_with_slug("b"),
            post_c: create_with_slug("c"),
            recommender: Recommender::new(),
        }
    }

    fn relation(&self, from: &Post, to: &Post, score: u64) -> Relation {
        Relation::new(from.share(), to.share(), score)
    }

    fn relation_ab(&self) -> Relation {
        self.relation(&self.post_a, &self.post_b, 60)
    }

    fn relation_ac(&self) -> Relation {
        self.relation(&self.post_a, &self.post_c, 40)
    }

    fn relation_ba(&self) -> Relation {
        self.relation(&self.post_b, &self.post_a, 50)
    }

    fn relation_bc(&self) -> Relation {
        self.relation(&self.post_b, &self.post_c, 70)
    }

    fn relation_ca(&self) -> Relation {
        self.relation(&self.post_c, &self.post_a, 80)
    }

    fn relation_cb(&self) -> Relation {
        self.relation(&self.post_c, &self.post_b, 60)
    }
}

fn slugs(recommendations: &[Recommendation]) -> Vec<(String, Vec<String>)> {
    let mut out: Vec<(String, Vec<String>)> = recommendations
        .iter()
        .map(|r| {
            (
                r.post.slug().value.clone(),
                r.recommended_posts().iter().map(|p| p.slug().value.clone()).collect(),
            )
        })
        .collect();
    out.sort();
    out
}

fn expected(pairs: &[(&str, &[&str])]) -> Vec<(String, Vec<String>)> {
    let mut out: Vec<(String, Vec<String>)> = pairs
        .iter()
        .map(|(post, recommended)| (post.to_string(), recommended.iter().map(|s| s.to_string()).collect()))
        .collect();
    out.sort();
    out
}

#[test]
#[allow(non_snake_case)]
fn for_one_post__one_relation() {
    let tests = RecommenderTests::new();
    let recommendations = tests.recommender.recommend(vec![tests.relation_ac()], 1).unwrap();
    assert_eq!(expected(&[("a", &["c"])]), slugs(&recommendations));
    assert!(recommendations == vec![Recommendation::new(tests.post_a.share(), vec![tests.post_c.share()])]);
}

#[test]
#[allow(non_snake_case)]
fn for_one_post__two_relations() {
    let tests = RecommenderTests::new();
    let recommendations = tests.recommender.recommend(vec![tests.relation_ab(), tests.relation_ac()], 1).unwrap();
    assert_eq!(expected(&[("a", &["b"])]), slugs(&recommendations));
}

#[test]
#[allow(non_snake_case)]
fn for_many_posts__one_relation_each() {
    let tests = RecommenderTests::new();
    let recommendations = tests
        .recommender
        .recommend(vec![tests.relation_ac(), tests.relation_bc(), tests.relation_cb()], 1)
        .unwrap();
    assert_eq!(expected(&[("a", &["c"]), ("b", &["c"]), ("c", &["b"])]), slugs(&recommendations));
}

#[test]
#[allow(non_snake_case)]
fn for_many_posts__two_relations_each() {
    let tests = RecommenderTests::new();
    let relations = vec![
        tests.relation_ab(),
        tests.relation_ac(),
        tests.relation_ba(),
        tests.relation_bc(),
        tests.relation_ca(),
        tests.relation_cb(),
    ];
    let recommendations = tests.recommender.recommend(relations, 1).unwrap();
    assert_eq!(expected(&[("a", &["b"]), ("b", &["c"]), ("c", &["a"])]), slugs(&recommendations));
    assert_eq!(3, recommendations.len());
    for (post, recommended) in [(&tests.post_a, &tests.post_b), (&tests.post_b, &tests.post_c), (&tests.post_c, &tests.post_a)] {
        assert!(recommendations.contains(&Recommendation::new(post.share(), vec![recommended.share()])));
    }
    assert!(!recommendations.contains(&Recommendation::new(tests.post_a.share(), vec![tests.post_c.share()])));
}

#[test]
fn recommended_posts_come_by_decreasing_score_and_ties_keep_their_order() {
    let tests = RecommenderTests::new();
    let d = create_with_slug("d");
    let relations = vec![
        tests.relation(&tests.post_a, &tests.post_b, 10),
        tests.relation(&tests.post_a, &tests.post_c, 30),
        tests.relation(&tests.post_a, &d, 10),
        tests.relation(&tests.post_b, &d, 20),
    ];
    let recommendations = tests.recommender.recommend(relations, 5).unwrap();
    assert_eq!(2, recommendations.len());
    assert_eq!("a", recommendations[0].post.slug().value);
    assert_eq!(expected(&[("a", &["c", "b", "d"]), ("b", &["d"])]), slugs(&recommendations));
    let recommendations = tests.recommender.recommend(Vec::new(), 3).unwrap();
    assert!(recommendations.is_empty());
}

#[test]
fn posts_of_different_kinds_are_different_posts() {
    let tests = RecommenderTests::new();
    let same_slug = create_with_slug("a");
    assert!(tests.post_a == same_slug);
    assert!(tests.post_a != tests.post_b);
    let relations = vec![
        tests.relation(&tests.post_a, &tests.post_b, 10),
        tests.relation(&same_slug, &tests.post_c, 30),
    ];
    let recommendations = tests.recommender.recommend(relations, 2).unwrap();
    assert_eq!(expected(&[("a", &["c", "b"])]), slugs(&recommendations));
}

#[test]
fn fewer_than_one_recommendation_per_post_is_refused() {
    let tests = RecommenderTests::new();
    match tests.recommender.recommend(vec![tests.relation_ab()], 0) {
        Err(Exception::IllegalArgumentException(message)) => {
            assert_eq!("Number of recommendations per post must be greater zero: 0", message)
        },
        _ => panic!("zero recommendations per post must be refused"),
    }
    match tests.recommender.recommend(Vec::new(), -12) {
        Err(Exception::IllegalArgumentException(message)) => {
            assert_eq!("Number of recommendations per post must be greater zero: -12", message)
        },
        _ => panic!("a negative number of recommendations must be refused"),
    }
}

#[test]
fn a_recommendation_is_limited_to_its_number_of_posts() {
    let tests = RecommenderTests::new();
    let sorted = vec![tests.post_b.share(), tests.post_c.share()];
    let recommendation = Recommendation::from(tests.post_a.share(), sorted, 1).unwrap();
    assert_eq!(1, recommendation.recommended_posts.len());
    assert_eq!("b", recommendation.recommended_posts[0].slug().value);
    match Recommendation::from(tests.post_a.share(), Vec::new(), -1) {
        Err(Exception::IllegalArgumentException(message)) => assert_eq!("-1", message),
        _ => panic!("a negative limit must be refused"),
    }
}
