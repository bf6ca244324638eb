//! Creation of articles from the lines of a markdown file: the front matter
//! between two `---` lines holds `key: value` entries, the content follows it.

use crate::article::content::{errors_view, items_view, Content};
use crate::article::description::{description_outcome, Description};
use crate::article::slug::{slug_outcome, Slug};
use crate::article::tag::{tag_texts, Tag};
use crate::article::title::{title_outcome, Title};
use crate::article::{Article, ArticleView};
use crate::date::{parsed_iso_date, Date};
use crate::exception::{view_outcome, Exception, ExceptionView};
use crate::text::{first_index_of, lemma_first_index_of, find_char, lowercase, strings_view, to_lowercase, trim, trim_seq};
use crate::try_iterator::{
    apply_of, fuse_seq, lemma_fuse_oks, lemma_map_ok_oks, lemma_skip_one_ok, lemma_skip_while_oks,
    lemma_take_while_oks, map_ok_seq, oks, skip_ok, skip_while_ok, take_while_ok, test_of, MapOk,
    OkMapper, OkPredicate, ResultSource, TryFused, TryItems, TryIterator, TrySkip, TrySkipWhile,
    TryTakeWhile, view_result, views_of,
};
use vstd::prelude::*;

verus! {

/// The line `---` that opens and closes the front matter.
pub open spec fn separator() -> Seq<char> {
    "---"@
}

/// Trims each line.
pub struct TrimLine;

impl OkMapper<String> for TrimLine {
    type Output = String;

    open spec fn spec_apply(&self, v: Seq<char>) -> Seq<char> {
        trim_seq(v)
    }

    fn apply(&self, v: String) -> (r: String) {
        trim(v.as_str())
    }
}

/// Holds for every line but the separator.
pub struct IsNotSeparator;

impl OkPredicate<String> for IsNotSeparator {
    open spec fn spec_test(&self, v: Seq<char>) -> bool {
        v != separator()
    }

    fn test(&self, v: &String) -> (r: bool) {
        let separator = String::from_str("---");
        !(*v == separator)
    }
}

/// Holds for every line that is not the separator once trimmed.
pub struct TrimmedIsNotSeparator;

impl OkPredicate<String> for TrimmedIsNotSeparator {
    open spec fn spec_test(&self, v: Seq<char>) -> bool {
        trim_seq(v) != separator()
    }

    fn test(&self, v: &String) -> (r: bool) {
        let separator = String::from_str("---");
        !(trim(v.as_str()) == separator)
    }
}

/// The lines of the front matter: each line trimmed, those up to the first
/// separator and that separator dropped, then the lines up to the next
/// separator (errors pass through; the first one ends the lines).
pub open spec fn front_matter_items<E>(lines: Seq<Result<Seq<char>, E>>) -> Seq<Result<Seq<char>, E>> {
    let trimmed = fuse_seq(map_ok_seq(lines, apply_of::<String, TrimLine>(TrimLine)));
    let opened = fuse_seq(skip_while_ok(trimmed, test_of::<String, IsNotSeparator>(IsNotSeparator)));
    let inside = fuse_seq(skip_ok(opened, 1));
    fuse_seq(take_while_ok(inside, test_of::<String, IsNotSeparator>(IsNotSeparator)))
}

/// The lines of the content: all lines after the second line that is the
/// separator once trimmed (errors pass through; the first one ends the lines).
pub open spec fn content_items<E>(lines: Seq<Result<Seq<char>, E>>) -> Seq<Result<Seq<char>, E>> {
    let p = test_of::<String, TrimmedIsNotSeparator>(TrimmedIsNotSeparator);
    let first = fuse_seq(skip_ok(fuse_seq(skip_while_ok(lines, p)), 1));
    fuse_seq(skip_ok(fuse_seq(skip_while_ok(first, p)), 1))
}

/// The lines of a front matter, read from the lines of a markdown file.
pub type FrontMatterLines<I> = TryFused<TryTakeWhile<TryFused<TrySkip<TryFused<TrySkipWhile<TryFused<MapOk<I, TrimLine>>, IsNotSeparator>>>>, IsNotSeparator>>;

/// The lines of the content, read from the lines of a markdown file.
pub type ContentLines<I> = TryFused<TrySkip<TryFused<TrySkipWhile<TryFused<TrySkip<TryFused<TrySkipWhile<I, TrimmedIsNotSeparator>>>>, TrimmedIsNotSeparator>>>>;

/// A `key: value` line of a front matter.
pub struct FrontMatterLine {
    pub key: String,
    pub value: String,
}

impl View for FrontMatterLine {
    type V = (Seq<char>, Seq<char>);

    open spec fn view(&self) -> (Seq<char>, Seq<char>) {
        (self.key@, self.value@)
    }
}

/// The entry that a front matter line gives: the key is the text before the
/// first `:`, trimmed and in lowercase, and must not be empty; the value is
/// the text after it, trimmed. A line without `:` is refused, and a failed
/// read stays the error it is.
pub open spec fn front_matter_entry(line: Result<Seq<char>, Exception>) -> Result<(Seq<char>, Seq<char>), ExceptionView> {
    match line {
        Err(e) => Err(e@),
        Ok(l) => {
            let i = first_index_of(l, ':');
            if i < 0 {
                Err(ExceptionView::IllegalArgument("Line doesn't seem to be a key/value pair (no colon): "@ + l))
            } else {
                let key = trim_seq(l.subrange(0, i));
                if key.len() == 0 {
                    Err(ExceptionView::IllegalArgument("Line \""@ + l + "\" has no key."@))
                } else {
                    Ok((lowercase(key), trim_seq(l.subrange(i + 1, l.len() as int))))
                }
            }
        },
    }
}

impl FrontMatterLine {
    /// The entry of a front matter line, or the error that refuses it.
    pub fn try_from(line: Result<String, Exception>) -> (r: Result<FrontMatterLine, Exception>)
        ensures
            view_outcome(r) == front_matter_entry(view_result(line)),
    {
        let line = match line {
            Ok(line) => line,
            Err(e) => return Err(e),
        };
        let len = line.as_str().unicode_len();
        proof {
            lemma_first_index_of(line@, ':');
        }
        match find_char(line.as_str(), ':') {
            None => {
                let mut message = String::from_str("Line doesn't seem to be a key/value pair (no colon): ");
                message.append(line.as_str());
                Err(Exception::IllegalArgument(message))
            },
            Some(i) => {
                let key = to_lowercase(trim(line.as_str().substring_char(0, i)).as_str());
                if key.as_str().unicode_len() == 0 {
                    let mut message = String::from_str("Line \"");
                    message.append(line.as_str());
                    message.append("\" has no key.");
                    Err(Exception::IllegalArgument(message))
                } else {
                    let value = trim(line.as_str().substring_char(i + 1, len));
                    Ok(FrontMatterLine { key, value })
                }
            },
        }
    }
}

/// The entries that a list of front matter lines gives: a later entry with
/// the same key replaces an earlier one, and the first error (a failed read
/// or a refused line) ends the list.
pub open spec fn collect_entries(items: Seq<Result<Seq<char>, Exception>>) -> Result<Map<Seq<char>, Seq<char>>, ExceptionView>
    decreases items.len(),
{
    if items.len() == 0 {
        Ok(Map::empty())
    } else {
        match collect_entries(items.drop_last()) {
            Err(e) => Err(e),
            Ok(m) => match front_matter_entry(items.last()) {
                Err(e) => Err(e),
                Ok(kv) => Ok(m.insert(kv.0, kv.1)),
            },
        }
    }
}

/// The map of key/value pairs, a later pair replacing an earlier one with the same key.
pub open spec fn pairs_map(pairs: Seq<(String, String)>) -> Map<Seq<char>, Seq<char>>
    decreases pairs.len(),
{
    if pairs.len() == 0 {
        Map::empty()
    } else {
        pairs_map(pairs.drop_last()).insert(pairs.last().0@, pairs.last().1@)
    }
}

/// The article that the entries of a front matter and a content give: each of
/// `title`, `tags`, `date`, `description` and `slug` must be present (else a
/// `NullPointer` error, checked in this order), then each value must be
/// accepted (the date is read in the format `%Y-%m-%d`, else a `DateTimeParse` error).
pub open spec fn article_outcome(
    entries: Result<Map<Seq<char>, Seq<char>>, ExceptionView>,
    content: Seq<Result<Seq<char>, ExceptionView>>,
) -> Result<ArticleView, ExceptionView> {
    match entries {
        Err(e) => Err(e),
        Ok(m) => if !m.contains_key("title"@) || !m.contains_key("tags"@) || !m.contains_key("date"@)
            || !m.contains_key("description"@) || !m.contains_key("slug"@) {
            Err(ExceptionView::NullPointer)
        } else {
            match title_outcome(m["title"@]) {
                Err(e) => Err(e),
                Ok(title) => match parsed_iso_date(m["date"@]) {
                    None => Err(ExceptionView::DateTimeParse),
                    Some(date) => match description_outcome(m["description"@]) {
                        Err(e) => Err(e),
                        Ok(description) => match slug_outcome(m["slug"@]) {
                            Err(e) => Err(e),
                            Ok(slug) => Ok(
                                ArticleView {
                                    title,
                                    tags: tag_texts(m["tags"@]),
                                    date,
                                    description,
                                    slug,
                                    content,
                                },
                            ),
                        },
                    },
                },
            }
        },
    }
}

/// Once an error ends the entries of a prefix, later lines change nothing.
pub proof fn lemma_collect_entries_error(a: Seq<Result<Seq<char>, Exception>>, b: Seq<Result<Seq<char>, Exception>>)
    requires
        collect_entries(a) is Err,
    ensures
        collect_entries(a + b) == collect_entries(a),
    decreases b.len(),
{
    if b.len() == 0 {
        assert(a + b =~= a);
    } else {
        lemma_collect_entries_error(a, b.drop_last());
        assert((a + b).drop_last() =~= a + b.drop_last());
    }
}

/// Reading back a front matter: where its lines are accepted, each key has
/// the value of the last line that names it.
pub proof fn law_entries_last_line_wins(items: Seq<Result<Seq<char>, Exception>>, i: int)
    requires
        collect_entries(items) is Ok,
        0 <= i < items.len(),
        forall|j: int| i < j < items.len() ==> (#[trigger] front_matter_entry(items[j])) is Ok
            && front_matter_entry(items[j])->Ok_0.0 != front_matter_entry(items[i])->Ok_0.0,
    ensures
        front_matter_entry(items[i]) is Ok,
        collect_entries(items)->Ok_0.contains_key(front_matter_entry(items[i])->Ok_0.0),
        collect_entries(items)->Ok_0[front_matter_entry(items[i])->Ok_0.0] == front_matter_entry(items[i])->Ok_0.1,
    decreases items.len(),
{
    let rest = items.drop_last();
    if collect_entries(rest) is Err {
        lemma_collect_entries_error(rest, seq![items.last()]);
        assert(rest + seq![items.last()] =~= items);
    } else if i < items.len() - 1 {
        assert(rest[i] == items[i]);
        assert forall|j: int| i < j < rest.len() implies (#[trigger] front_matter_entry(rest[j])) is Ok
            && front_matter_entry(rest[j])->Ok_0.0 != front_matter_entry(rest[i])->Ok_0.0 by {
            assert(rest[j] == items[j]);
            assert(front_matter_entry(items[j]) is Ok);
        }
        assert(front_matter_entry(items[items.len() - 1]) is Ok);
        law_entries_last_line_wins(rest, i);
    }
}

proof fn lemma_pairs_map_lookup(pairs: Seq<(String, String)>, j: int, key: Seq<char>)
    requires
        0 <= j <= pairs.len(),
        forall|k: int| j <= k < pairs.len() ==> (#[trigger] pairs[k]).0@ != key,
    ensures
        pairs_map(pairs).contains_key(key) == pairs_map(pairs.take(j)).contains_key(key),
        pairs_map(pairs).contains_key(key) ==> pairs_map(pairs)[key] == pairs_map(pairs.take(j))[key],
    decreases pairs.len() - j,
{
    if j < pairs.len() {
        lemma_pairs_map_lookup(pairs.drop_last(), j, key);
        assert(pairs.drop_last().take(j) =~= pairs.take(j));
    } else {
        assert(pairs.take(j) =~= pairs);
    }
}

/// The value of the last pair with `key`, if any.
pub(crate) fn lookup(pairs: &Vec<(String, String)>, key: &str) -> (r: Option<String>)
    ensures
        r is None <==> !pairs_map(pairs@).contains_key(key@),
        r matches Some(v) ==> v@ == pairs_map(pairs@)[key@],
{
    let wanted = String::from_str(key);
    let mut j: usize = pairs.len();
    while j > 0
        invariant
            j <= pairs@.len(),
            wanted@ == key@,
            forall|k: int| j <= k < pairs@.len() ==> (#[trigger] pairs@[k]).0@ != key@,
        decreases j,
    {
        if pairs[j - 1].0 == wanted {
            proof {
                lemma_pairs_map_lookup(pairs@, j as int, key@);
                assert(pairs@.take(j as int).drop_last() =~= pairs@.take(j - 1));
            }
            return Some(pairs[j - 1].1.clone());
        }
        j = j - 1;
    }
    proof {
        lemma_pairs_map_lookup(pairs@, 0, key@);
    }
    None
}

/// A markdown file made of some lines, a separator line, the front matter, a
/// second separator line and the body (where no line before the second
/// separator is a separator, once trimmed) has the trimmed front matter lines
/// as its front matter and the body, unchanged, as its content.
pub proof fn law_front_matter_and_content(
    pre: Seq<Seq<char>>,
    first_separator: Seq<char>,
    front_matter: Seq<Seq<char>>,
    second_separator: Seq<char>,
    body: Seq<Seq<char>>,
)
    requires
        forall|i: int| 0 <= i < pre.len() ==> trim_seq(#[trigger] pre[i]) != separator(),
        forall|i: int| 0 <= i < front_matter.len() ==> trim_seq(#[trigger] front_matter[i]) != separator(),
        trim_seq(first_separator) == separator(),
        trim_seq(second_separator) == separator(),
    ensures
        front_matter_items(read_lines(pre + seq![first_separator] + front_matter + seq![second_separator] + body))
            == read_lines(front_matter.map_values(|l: Seq<char>| trim_seq(l))),
        content_items(read_lines(pre + seq![first_separator] + front_matter + seq![second_separator] + body))
            == read_lines(body),
{
    let lines = pre + seq![first_separator] + front_matter + seq![second_separator] + body;
    assert forall|x: Seq<Seq<char>>| read_lines(x) == oks::<Seq<char>, Exception>(x) by {
        assert(read_lines(x) =~= oks::<Seq<char>, Exception>(x));
    }
    let trim_fn = apply_of::<String, TrimLine>(TrimLine);
    let t = |x: Seq<Seq<char>>| x.map_values(trim_fn);
    let not_sep = test_of::<String, IsNotSeparator>(IsNotSeparator);
    let trimmed_not_sep = test_of::<String, TrimmedIsNotSeparator>(TrimmedIsNotSeparator);
    // The front matter.
    lemma_map_ok_oks::<Seq<char>, Seq<char>, Exception>(lines, trim_fn);
    let tl = lines.map_values(trim_fn);
    lemma_fuse_oks::<Seq<char>, Exception>(tl);
    let rest1 = seq![separator()] + t(front_matter) + seq![separator()] + t(body);
    assert(tl =~= t(pre) + rest1);
    assert forall|i: int| 0 <= i < t(pre).len() implies not_sep(#[trigger] t(pre)[i]) by {
        assert(t(pre)[i] == trim_seq(pre[i]));
    }
    lemma_skip_while_oks::<Seq<char>, Exception>(t(pre), rest1, not_sep);
    lemma_fuse_oks::<Seq<char>, Exception>(rest1);
    lemma_skip_one_ok::<Seq<char>, Exception>(rest1);
    let rest2 = rest1.drop_first();
    lemma_fuse_oks::<Seq<char>, Exception>(rest2);
    let rest3 = seq![separator()] + t(body);
    assert(rest2 =~= t(front_matter) + rest3);
    assert forall|i: int| 0 <= i < t(front_matter).len() implies not_sep(#[trigger] t(front_matter)[i]) by {
        assert(t(front_matter)[i] == trim_seq(front_matter[i]));
    }
    lemma_take_while_oks::<Seq<char>, Exception>(t(front_matter), rest3, not_sep);
    lemma_fuse_oks::<Seq<char>, Exception>(t(front_matter));
    assert(t(front_matter) =~= front_matter.map_values(|l: Seq<char>| trim_seq(l)));
    // The content.
    let inner = seq![first_separator] + front_matter + seq![second_separator] + body;
    assert(lines =~= pre + inner);
    assert forall|i: int| 0 <= i < pre.len() implies trimmed_not_sep(#[trigger] pre[i]) by {}
    lemma_skip_while_oks::<Seq<char>, Exception>(pre, inner, trimmed_not_sep);
    lemma_fuse_oks::<Seq<char>, Exception>(inner);
    lemma_skip_one_ok::<Seq<char>, Exception>(inner);
    let after_first = inner.drop_first();
    lemma_fuse_oks::<Seq<char>, Exception>(after_first);
    let tail = seq![second_separator] + body;
    assert(after_first =~= front_matter + tail);
    assert forall|i: int| 0 <= i < front_matter.len() implies trimmed_not_sep(#[trigger] front_matter[i]) by {}
    lemma_skip_while_oks::<Seq<char>, Exception>(front_matter, tail, trimmed_not_sep);
    lemma_fuse_oks::<Seq<char>, Exception>(tail);
    lemma_skip_one_ok::<Seq<char>, Exception>(tail);
    assert(tail.drop_first() =~= body);
    lemma_fuse_oks::<Seq<char>, Exception>(body);
}

/// The lines of a file, all read.
pub open spec fn read_lines(lines: Seq<Seq<char>>) -> Seq<Result<Seq<char>, Exception>> {
    lines.map_values(|l: Seq<char>| Ok::<Seq<char>, Exception>(l))
}

/// The article that the lines of a markdown file describe.
pub open spec fn lines_outcome(lines: Seq<Seq<char>>) -> Result<ArticleView, ExceptionView> {
    article_outcome(
        collect_entries(front_matter_items(read_lines(lines))),
        errors_view(content_items(read_lines(lines))),
    )
}

/// The article that the lines read from a file describe, with a failure
/// reported as a `Runtime` error that names the file and the cause.
pub open spec fn file_outcome(
    file: Seq<char>,
    front_matter_lines: Seq<Result<Seq<char>, Exception>>,
    content_lines: Seq<Result<Seq<char>, Exception>>,
) -> Result<ArticleView, ExceptionView> {
    match article_outcome(
        collect_entries(front_matter_items(front_matter_lines)),
        errors_view(content_items(content_lines)),
    ) {
        Ok(a) => Ok(a),
        Err(e) => Err(
            ExceptionView::Runtime(
                "Creating article failed: "@ + file + ", exception: "@ + e.message(),
            ),
        ),
    }
}

/// All the items that an iterator yields.
pub fn collect_items<I: ResultSource<Ok = String, Error = Exception>>(items: I) -> (r: Vec<Result<String, Exception>>)
    ensures
        items_view(r@) == errors_view(items.remaining()),
{
    let ghost all = items.remaining();
    let mut items = items;
    let mut out: Vec<Result<String, Exception>> = Vec::new();
    loop
        invariant
            all.len() == out@.len() + items.remaining().len(),
            all == all.take(out@.len() as int) + items.remaining(),
            items_view(out@) == errors_view(all.take(out@.len() as int)),
        ensures
            items_view(out@) == errors_view(all),
        decreases items.remaining().len(),
    {
        let ghost before = items.remaining();
        match items.next_item() {
            None => {
                assert(all.take(out@.len() as int) =~= all);
                break;
            },
            Some(item) => {
                let ghost n = out@.len() as int;
                assert(all.take(n + 1) =~= all.take(n).push(before[0]));
                assert(all =~= all.take(n + 1) + items.remaining());
                let ghost old_out = out@;
                out.push(item);
                assert forall|k: int| 0 <= k < n + 1 implies #[trigger] items_view(out@)[k] == errors_view(all.take(n + 1))[k] by {
                    if k < n {
                        assert(out@[k] == old_out[k]);
                        assert(all.take(n + 1)[k] == all.take(n)[k]);
                        assert(items_view(old_out)[k] == errors_view(all.take(n))[k]);
                    }
                }
                assert(items_view(out@) =~= errors_view(all.take(n + 1)));
            },
        }
    }
    out
}

/// The lines as read items.
fn read_all(lines: &Vec<String>) -> (r: Vec<Result<String, Exception>>)
    ensures
        views_of(r@) == read_lines(strings_view(lines@)),
{
    let mut out: Vec<Result<String, Exception>> = Vec::new();
    let mut i: usize = 0;
    while i < lines.len()
        invariant
            i <= lines.len(),
            out@.len() == i,
            views_of(out@) == read_lines(strings_view(lines@.take(i as int))),
        decreases lines.len() - i,
    {
        let line = lines[i].clone();
        let ghost old_out = out@;
        out.push(Ok(line));
        assert forall|k: int| 0 <= k < i + 1 implies #[trigger] views_of(out@)[k] == read_lines(strings_view(lines@.take(i + 1)))[k] by {
            if k < i {
                assert(out@[k] == old_out[k]);
                assert(views_of(old_out)[k] == read_lines(strings_view(lines@.take(i as int)))[k]);
            }
        }
        assert(views_of(out@) =~= read_lines(strings_view(lines@.take(i + 1))));
        i = i + 1;
    }
    assert(lines@.take(lines.len() as int) =~= lines@);
    out
}

/// Creates articles from markdown files; it has no instances (its field is private).
pub struct ArticleFactory {
    no_instances: (),
}

impl ArticleFactory {
    pub const DATE: &'static str = "date";

    pub const FRONT_MATTER_SEPARATOR: &'static str = "---";

    /// The lines of the front matter of a markdown file.
    pub fn extract_front_matter<I: ResultSource<Ok = String, Error = Exception>>(markdown_file: I) -> (r: FrontMatterLines<I>)
        ensures
            r.remaining() == front_matter_items(markdown_file.remaining()),
    {
        markdown_file.map_ok(TrimLine).try_skip_while(IsNotSeparator).try_skip(1).try_take_while(IsNotSeparator)
    }

    /// The lines of the content of a markdown file.
    pub fn extract_content<I: ResultSource<Ok = String, Error = Exception>>(markdown_file: I) -> (r: ContentLines<I>)
        ensures
            r.remaining() == content_items(markdown_file.remaining()),
    {
        markdown_file.try_skip_while(TrimmedIsNotSeparator).try_skip(1).try_skip_while(TrimmedIsNotSeparator).try_skip(1)
    }

    /// The article that the lines of a markdown file describe; the lines must
    /// describe a valid article.
    pub fn create_from_lines(lines: Vec<String>) -> (r: Article)
        requires
            lines_outcome(strings_view(lines@)) is Ok,
        ensures
            r@ == lines_outcome(strings_view(lines@))->Ok_0,
    {
        let front_matter = Self::extract_front_matter(TryItems::new(read_all(&lines)));
        let content = Content::new(collect_items(Self::extract_content(TryItems::new(read_all(&lines)))));
        Self::create_from_iterators(front_matter, content).unwrap()
    }

    /// The article that the lines of a markdown file describe, or `None` where
    /// they do not describe a valid article.
    pub fn create_from_lines_checked(lines: Vec<String>) -> (r: Option<Article>)
        ensures
            r is Some <==> lines_outcome(strings_view(lines@)) is Ok,
            r matches Some(a) ==> a@ == lines_outcome(strings_view(lines@))->Ok_0,
    {
        let front_matter = Self::extract_front_matter(TryItems::new(read_all(&lines)));
        let content = Content::new(collect_items(Self::extract_content(TryItems::new(read_all(&lines)))));
        match Self::create_from_iterators(front_matter, content) {
            Ok(_) => Some(Self::create_from_lines(lines)),
            Err(_) => None,
        }
    }

    /// The article that a file describes, from its lines as read twice: once
    /// for the front matter and once for the content. A failure becomes a
    /// `Runtime` error that names the file and the cause.
    pub fn create_from_file_lines(
        file: &str,
        front_matter_lines: Vec<Result<String, Exception>>,
        content_lines: Vec<Result<String, Exception>>,
    ) -> (r: Result<Article, Exception>)
        ensures
            view_outcome(r) == file_outcome(
                file@,
                views_of(front_matter_lines@),
                views_of(content_lines@),
            ),
    {
        let front_matter = Self::extract_front_matter(TryItems::new(front_matter_lines));
        let content = Content::new(collect_items(Self::extract_content(TryItems::new(content_lines))));
        match Self::create_from_iterators(front_matter, content) {
            Ok(article) => Ok(article),
            Err(exception) => {
                let mut message = String::from_str("Creating article failed: ");
                message.append(file);
                message.append(", exception: ");
                message.append(exception.message().as_str());
                Err(Exception::Runtime(message))
            },
        }
    }

    /// The article that the front matter lines and the content describe.
    pub fn create_from_iterators<I: ResultSource<Ok = String, Error = Exception>>(front_matter: I, content: Content) -> (r: Result<Article, Exception>)
        ensures
            view_outcome(r) == article_outcome(collect_entries(front_matter.remaining()), content@),
    {
        let ghost items = front_matter.remaining();
        let mut lines = front_matter;
        let mut pairs: Vec<(String, String)> = Vec::new();
        let ghost mut consumed: int = 0;
        assert(items.take(0) =~= Seq::<Result<Seq<char>, Exception>>::empty());
        assert(items =~= items.take(0) + lines.remaining());
        loop
            invariant
                items == front_matter.remaining(),
                0 <= consumed <= items.len(),
                items == items.take(consumed) + lines.remaining(),
                collect_entries(items.take(consumed)) == Ok::<_, ExceptionView>(pairs_map(pairs@)),
            ensures
                consumed == items.len(),
                collect_entries(items) == Ok::<_, ExceptionView>(pairs_map(pairs@)),
            decreases lines.remaining().len(),
        {
            let ghost before = lines.remaining();
            match lines.try_next() {
                None => {
                    assert(items.take(consumed) =~= items);
                    break;
                },
                Some(item) => {
                    proof {
                        assert(items.take(consumed + 1) =~= items.take(consumed).push(before[0]));
                        assert(items.take(consumed + 1).drop_last() =~= items.take(consumed));
                        assert(items =~= items.take(consumed + 1) + lines.remaining());
                    }
                    match FrontMatterLine::try_from(item) {
                        Err(e) => {
                            proof {
                                assert(items.take(consumed + 1).last() == view_result(item));
                                assert(collect_entries(items.take(consumed + 1)) == Err::<Map<Seq<char>, Seq<char>>, ExceptionView>(e@));
                                lemma_collect_entries_error(items.take(consumed + 1), lines.remaining());
                                assert(collect_entries(items) == Err::<Map<Seq<char>, Seq<char>>, ExceptionView>(e@));
                                assert(article_outcome(collect_entries(items), content@) == Err::<ArticleView, ExceptionView>(e@));
                            }
                            return Err(e);
                        },
                        Ok(line) => {
                            let ghost old_pairs = pairs@;
                            pairs.push((line.key, line.value));
                            proof {
                                assert(pairs@.drop_last() =~= old_pairs);
                                consumed = consumed + 1;
                            }
                        },
                    }
                },
            }
        }
        let title_entry = match lookup(&pairs, "title") {
            Some(v) => v,
            None => return Err(Exception::NullPointer),
        };
        let tags_entry = match lookup(&pairs, "tags") {
            Some(v) => v,
            None => return Err(Exception::NullPointer),
        };
        let date_entry = match lookup(&pairs, "date") {
            Some(v) => v,
            None => return Err(Exception::NullPointer),
        };
        let description_entry = match lookup(&pairs, "description") {
            Some(v) => v,
            None => return Err(Exception::NullPointer),
        };
        let slug_entry = match lookup(&pairs, "slug") {
            Some(v) => v,
            None => return Err(Exception::NullPointer),
        };
        let title = match Title::try_from(title_entry) {
            Ok(t) => t,
            Err(e) => return Err(e),
        };
        let tags = match Tag::set_from_text(tags_entry.as_str()) {
            Ok(t) => t,
            Err(e) => return Err(e),
        };
        let date = match Date::parse_iso(date_entry.as_str()) {
            Some(d) => d,
            None => return Err(Exception::DateTimeParse),
        };
        let description = match Description::try_from(description_entry) {
            Ok(d) => d,
            Err(e) => return Err(e),
        };
        let slug = match Slug::try_from(slug_entry) {
            Ok(s) => s,
            Err(e) => return Err(e),
        };
        Ok(Article { title, tags, date, description, slug, content })
    }
}

} // verus!
