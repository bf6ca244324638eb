//! Reading a post from the lines of its markdown file: the front matter
//! between the first two `---` lines holds `key: value` entries (lines that
//! start with `#` are comments), the content follows the second `---` line.

use crate::article::article_factory::{pairs_map, separator};
use crate::article::article_factory::lookup;
use crate::post::content::Content;
use crate::post::exception::{failure_in_file, Exception, ExceptionView};
use crate::post::factories::raw_front_matter::RawFrontMatter;
use crate::post::factories::raw_post::RawPost;
use crate::text::{find_char, first_index_of, lemma_first_index_of, strings_view, trim, trim_seq};
use vstd::prelude::*;

verus! {

/// Every line trimmed.
pub open spec fn trimmed_lines(lines: Seq<Seq<char>>) -> Seq<Seq<char>> {
    lines.map_values(|l: Seq<char>| trim_seq(l))
}

/// The lines after the first line that is the separator (none where no line is).
pub open spec fn after_separator(lines: Seq<Seq<char>>) -> Seq<Seq<char>>
    decreases lines.len(),
{
    if lines.len() == 0 {
        lines
    } else if lines[0] == separator() {
        lines.drop_first()
    } else {
        after_separator(lines.drop_first())
    }
}

/// The lines before the first line that is the separator (all where no line is).
pub open spec fn before_separator(lines: Seq<Seq<char>>) -> Seq<Seq<char>>
    decreases lines.len(),
{
    if lines.len() == 0 || lines[0] == separator() {
        Seq::empty()
    } else {
        seq![lines[0]] + before_separator(lines.drop_first())
    }
}

/// The lines after the first line that is the separator once trimmed.
pub open spec fn after_trimmed_separator(lines: Seq<Seq<char>>) -> Seq<Seq<char>>
    decreases lines.len(),
{
    if lines.len() == 0 {
        lines
    } else if trim_seq(lines[0]) == separator() {
        lines.drop_first()
    } else {
        after_trimmed_separator(lines.drop_first())
    }
}

/// The lines of the front matter: the trimmed lines between the first two
/// separator lines (up to the end where there is no second one).
pub open spec fn front_matter_lines(lines: Seq<Seq<char>>) -> Seq<Seq<char>> {
    before_separator(after_separator(trimmed_lines(lines)))
}

/// The lines of the content: the lines after the second line that is the
/// separator once trimmed, as they are.
pub open spec fn content_lines(lines: Seq<Seq<char>>) -> Seq<Seq<char>> {
    after_trimmed_separator(after_trimmed_separator(lines))
}

/// Whether a front matter line is a comment (it starts with `#`).
pub open spec fn is_comment(line: Seq<char>) -> bool {
    line.len() > 0 && line[0] == '#'
}

/// The key/value pair of a front matter line: the key is the text before the
/// first `:`, trimmed, and must not be blank; the value is the text after it,
/// trimmed. A line without `:` is refused.
pub open spec fn key_value_entry(line: Seq<char>) -> Result<(Seq<char>, Seq<char>), ExceptionView> {
    let i = first_index_of(line, ':');
    if i < 0 {
        Err(ExceptionView::IllegalArgumentException("Line doesn't seem to be a key/value pair (no colon): "@ + line))
    } else {
        let key = trim_seq(line.subrange(0, i));
        if key.len() == 0 {
            Err(ExceptionView::IllegalArgumentException("Line \""@ + line + "\" has no key."@))
        } else {
            Ok((key, trim_seq(line.subrange(i + 1, line.len() as int))))
        }
    }
}

/// The message that reports a key given twice, with its two values.
pub open spec fn duplicate_key_message(key: Seq<char>, first: Seq<char>, second: Seq<char>) -> Seq<char> {
    "Duplicate key "@ + key + " (attempted merging values "@ + first + " and "@ + second + ")"@
}

/// The entries of the front matter lines: comments are left out, every other
/// line must be a key/value pair, and no key may come twice (an
/// `IllegalStateException`); the first refused line ends the reading.
pub open spec fn front_matter_map(lines: Seq<Seq<char>>) -> Result<Map<Seq<char>, Seq<char>>, ExceptionView>
    decreases lines.len(),
{
    if lines.len() == 0 {
        Ok(Map::empty())
    } else {
        match front_matter_map(lines.drop_last()) {
            Err(e) => Err(e),
            Ok(m) => if is_comment(lines.last()) {
                Ok(m)
            } else {
                match key_value_entry(lines.last()) {
                    Err(e) => Err(e),
                    Ok(kv) => if m.contains_key(kv.0) {
                        Err(ExceptionView::IllegalStateException(duplicate_key_message(kv.0, m[kv.0], kv.1)))
                    } else {
                        Ok(m.insert(kv.0, kv.1))
                    },
                }
            },
        }
    }
}

/// What reading a post from the lines of its file gives: the entries of its
/// front matter and its content lines.
pub open spec fn raw_post_outcome(lines: Seq<Seq<char>>) -> Result<(Map<Seq<char>, Seq<char>>, Seq<Seq<char>>), ExceptionView> {
    match front_matter_map(front_matter_lines(lines)) {
        Err(e) => Err(e),
        Ok(m) => Ok((m, content_lines(lines))),
    }
}

/// What reading a post from a file gives, where `read` is the outcome of
/// reading its lines: a failure is reported as a `RuntimeException` that
/// names the file.
pub open spec fn raw_post_from_file_outcome(
    file: Seq<char>,
    read: Result<Seq<Seq<char>>, ExceptionView>,
) -> Result<(Map<Seq<char>, Seq<char>>, Seq<Seq<char>>), ExceptionView> {
    match read {
        Err(e) => Err(failure_in_file("Creating article failed: "@, file, e)),
        Ok(lines) => match raw_post_outcome(lines) {
            Err(e) => Err(failure_in_file("Creating article failed: "@, file, e)),
            Ok(p) => Ok(p),
        },
    }
}

/// The lines of a file as read, with their texts taken as sequences.
pub open spec fn read_view(read: Result<Vec<String>, Exception>) -> Result<Seq<Seq<char>>, ExceptionView> {
    match read {
        Ok(lines) => Ok(strings_view(lines@)),
        Err(e) => Err(e@),
    }
}

proof fn lemma_after_separator_skip(lines: Seq<Seq<char>>, i: int)
    requires
        0 <= i < lines.len(),
        lines[i] != separator(),
    ensures
        after_separator(lines.skip(i)) == after_separator(lines.skip(i + 1)),
{
    assert(lines.skip(i).drop_first() =~= lines.skip(i + 1));
}

proof fn lemma_after_trimmed_separator_skip(lines: Seq<Seq<char>>, i: int)
    requires
        0 <= i < lines.len(),
        trim_seq(lines[i]) != separator(),
    ensures
        after_trimmed_separator(lines.skip(i)) == after_trimmed_separator(lines.skip(i + 1)),
{
    assert(lines.skip(i).drop_first() =~= lines.skip(i + 1));
}

/// A `key: value` line of a front matter.
pub struct FrontMatterLine {
    key: String,
    value: String,
}

impl View for FrontMatterLine {
    type V = (Seq<char>, Seq<char>);

    closed spec fn view(&self) -> (Seq<char>, Seq<char>) {
        (self.key@, self.value@)
    }
}

impl FrontMatterLine {
    /// The line with the key and the value.
    pub fn new(key: String, value: String) -> (r: FrontMatterLine)
        ensures
            r@ == (key@, value@),
    {
        FrontMatterLine { key, value }
    }

    /// The key of the line.
    pub fn key(&self) -> (r: String)
        ensures
            r@ == self@.0,
    {
        self.key.clone()
    }

    /// The value of the line.
    pub fn value(&self) -> (r: String)
        ensures
            r@ == self@.1,
    {
        self.value.clone()
    }
}

/// Reads posts from the lines of their files; it has no instances (its field is private).
pub struct PostFactory {
    no_instances: (),
}

impl PostFactory {
    pub const DATE: &'static str = "date";

    pub const DESCRIPTION: &'static str = "description";

    pub const REPOSITORY: &'static str = "repo";

    pub const SLIDES: &'static str = "slides";

    pub const SLUG: &'static str = "slug";

    pub const TAGS: &'static str = "tags";

    pub const TITLE: &'static str = "title";

    pub const VIDEO: &'static str = "videoSlug";

    /// The post that a file holds, where `file_lines` is the outcome of
    /// reading its lines; a failure, of the read or of the post, is reported
    /// as a `RuntimeException` that names the file.
    pub fn read_post_from_path(file: &str, file_lines: Result<Vec<String>, Exception>) -> (r: Result<RawPost, Exception>)
        ensures
            match r {
                Ok(p) => raw_post_from_file_outcome(file@, read_view(file_lines)) == Ok::<_, ExceptionView>(p@),
                Err(e) => raw_post_from_file_outcome(file@, read_view(file_lines)) == Err::<(Map<Seq<char>, Seq<char>>, Seq<Seq<char>>), _>(e@),
            },
    {
        let lines = match file_lines {
            Ok(lines) => lines,
            Err(e) => return Err(Exception::failure_in_file("Creating article failed: ", file, e)),
        };
        match Self::read_post(lines) {
            Ok(post) => Ok(post),
            Err(e) => Err(Exception::failure_in_file("Creating article failed: ", file, e)),
        }
    }

    /// The post that the lines of a markdown file hold.
    pub fn read_post(file_lines: Vec<String>) -> (r: Result<RawPost, Exception>)
        ensures
            match r {
                Ok(p) => raw_post_outcome(strings_view(file_lines@)) == Ok::<_, ExceptionView>(p@),
                Err(e) => raw_post_outcome(strings_view(file_lines@)) == Err::<(Map<Seq<char>, Seq<char>>, Seq<Seq<char>>), _>(e@),
            },
    {
        let front_matter = match Self::extract_front_matter(&file_lines) {
            Ok(f) => f,
            Err(e) => return Err(e),
        };
        let content = Content::new(Self::extract_content(&file_lines));
        Ok(RawPost::new(front_matter, content))
    }

    /// The entries of the front matter of a markdown file.
    pub fn extract_front_matter(file_lines: &Vec<String>) -> (r: Result<RawFrontMatter, Exception>)
        ensures
            match r {
                Ok(f) => front_matter_map(front_matter_lines(strings_view(file_lines@))) == Ok::<_, ExceptionView>(f@),
                Err(e) => front_matter_map(front_matter_lines(strings_view(file_lines@))) == Err::<Map<Seq<char>, Seq<char>>, _>(e@),
            },
    {
        let lines = Self::read_front_matter(file_lines);
        let ghost all = strings_view(lines@);
        let mut pairs: Vec<(String, String)> = Vec::new();
        let mut i: usize = 0;
        assert(all.take(0) =~= Seq::<Seq<char>>::empty());
        while i < lines.len()
            invariant
                i <= lines.len(),
                all == strings_view(lines@),
                all == front_matter_lines(strings_view(file_lines@)),
                front_matter_map(all.take(i as int)) == Ok::<_, ExceptionView>(pairs_map(pairs@)),
            decreases lines.len() - i,
        {
            let line = lines[i].as_str();
            proof {
                assert(all.take(i + 1).drop_last() =~= all.take(i as int));
                assert(all.take(i + 1).last() == line@);
            }
            let comment = line.unicode_len() > 0 && line.get_char(0) == '#';
            if !comment {
                let entry = match Self::key_value_pair_from(line) {
                    Ok(entry) => entry,
                    Err(e) => {
                        proof {
                            lemma_front_matter_map_error(all.take(i + 1), all.skip(i + 1));
                            assert(all.take(i + 1) + all.skip(i + 1) =~= all);
                        }
                        return Err(e);
                    },
                };
                let key = entry.key();
                let value = entry.value();
                match lookup(&pairs, key.as_str()) {
                    Some(earlier) => {
                        let mut message = String::from_str("Duplicate key ");
                        message.append(key.as_str());
                        message.append(" (attempted merging values ");
                        message.append(earlier.as_str());
                        message.append(" and ");
                        message.append(value.as_str());
                        message.append(")");
                        proof {
                            assert(message@ =~= duplicate_key_message(key@, earlier@, value@));
                            lemma_front_matter_map_error(all.take(i + 1), all.skip(i + 1));
                            assert(all.take(i + 1) + all.skip(i + 1) =~= all);
                        }
                        return Err(Exception::IllegalStateException(message));
                    },
                    None => {
                        let ghost before = pairs@;
                        pairs.push((key, value));
                        assert(pairs@.drop_last() =~= before);
                    },
                }
            }
            i = i + 1;
        }
        assert(all.take(lines.len() as int) =~= all);
        Ok(RawFrontMatter::new(pairs))
    }

    /// The trimmed lines between the first two separator lines of a markdown file.
    pub fn read_front_matter(markdown_file: &Vec<String>) -> (r: Vec<String>)
        ensures
            strings_view(r@) == front_matter_lines(strings_view(markdown_file@)),
    {
        let ghost t = trimmed_lines(strings_view(markdown_file@));
        let separator_text = String::from_str("---");
        let n = markdown_file.len();
        let mut i: usize = 0;
        assert(t.skip(0) =~= t);
        while i < n && !(trim(markdown_file[i].as_str()) == separator_text)
            invariant
                i <= n,
                n == markdown_file@.len(),
                t == trimmed_lines(strings_view(markdown_file@)),
                separator_text@ == separator(),
                after_separator(t) == after_separator(t.skip(i as int)),
            decreases n - i,
        {
            proof {
                lemma_after_separator_skip(t, i as int);
            }
            i = i + 1;
        }
        if i < n {
            assert(t.skip(i as int).drop_first() =~= t.skip(i + 1));
            i = i + 1;
        } else {
            assert(t.skip(i as int) =~= Seq::<Seq<char>>::empty());
        }
        let ghost rest = after_separator(t);
        assert(rest == t.skip(i as int));
        let mut out: Vec<String> = Vec::new();
        while i < n && !(trim(markdown_file[i].as_str()) == separator_text)
            invariant
                i <= n,
                n == markdown_file@.len(),
                t == trimmed_lines(strings_view(markdown_file@)),
                separator_text@ == separator(),
                before_separator(rest) == strings_view(out@) + before_separator(t.skip(i as int)),
            decreases n - i,
        {
            let line = trim(markdown_file[i].as_str());
            let ghost before = out@;
            proof {
                assert(t.skip(i as int)[0] == line@);
                assert(t.skip(i as int).drop_first() =~= t.skip(i + 1));
            }
            out.push(line);
            assert(strings_view(out@) =~= strings_view(before).push(line@));
            assert(strings_view(out@) + before_separator(t.skip(i + 1)) =~= strings_view(before) + before_separator(t.skip(i as int)));
            i = i + 1;
        }
        if i < n {
            assert(before_separator(t.skip(i as int)) =~= Seq::<Seq<char>>::empty());
        } else {
            assert(t.skip(i as int) =~= Seq::<Seq<char>>::empty());
        }
        assert(strings_view(out@) =~= before_separator(rest));
        out
    }

    /// The key/value pair of a front matter line, or the error that refuses it.
    pub fn key_value_pair_from(line: &str) -> (r: Result<FrontMatterLine, Exception>)
        ensures
            match r {
                Ok(l) => key_value_entry(line@) == Ok::<_, ExceptionView>(l@),
                Err(e) => key_value_entry(line@) == Err::<(Seq<char>, Seq<char>), _>(e@),
            },
    {
        let len = line.unicode_len();
        proof {
            lemma_first_index_of(line@, ':');
        }
        match find_char(line, ':') {
            None => {
                let mut message = String::from_str("Line doesn't seem to be a key/value pair (no colon): ");
                message.append(line);
                Err(Exception::IllegalArgumentException(message))
            },
            Some(i) => {
                let key = trim(line.substring_char(0, i));
                if key.as_str().unicode_len() == 0 {
                    let mut message = String::from_str("Line \"");
                    message.append(line);
                    message.append("\" has no key.");
                    Err(Exception::IllegalArgumentException(message))
                } else {
                    let value = trim(line.substring_char(i + 1, len));
                    Ok(FrontMatterLine::new(key, value))
                }
            },
        }
    }

    /// The lines after the second separator line of a markdown file, as they are.
    pub fn extract_content(markdown_file: &Vec<String>) -> (r: Vec<String>)
        ensures
            strings_view(r@) == content_lines(strings_view(markdown_file@)),
    {
        let ghost all = strings_view(markdown_file@);
        let separator_text = String::from_str("---");
        let n = markdown_file.len();
        let mut i: usize = 0;
        assert(all.skip(0) =~= all);
        while i < n && !(trim(markdown_file[i].as_str()) == separator_text)
            invariant
                i <= n,
                n == markdown_file@.len(),
                all == strings_view(markdown_file@),
                separator_text@ == separator(),
                after_trimmed_separator(all) == after_trimmed_separator(all.skip(i as int)),
            decreases n - i,
        {
            proof {
                lemma_after_trimmed_separator_skip(all, i as int);
            }
            i = i + 1;
        }
        if i < n {
            assert(all.skip(i as int).drop_first() =~= all.skip(i + 1));
            i = i + 1;
        } else {
            assert(all.skip(i as int) =~= Seq::<Seq<char>>::empty());
        }
        let ghost first = after_trimmed_separator(all);
        assert(first == all.skip(i as int));
        while i < n && !(trim(markdown_file[i].as_str()) == separator_text)
            invariant
                i <= n,
                n == markdown_file@.len(),
                all == strings_view(markdown_file@),
                separator_text@ == separator(),
                after_trimmed_separator(first) == after_trimmed_separator(all.skip(i as int)),
            decreases n - i,
        {
            proof {
                lemma_after_trimmed_separator_skip(all, i as int);
            }
            i = i + 1;
        }
        if i < n {
            assert(all.skip(i as int).drop_first() =~= all.skip(i + 1));
            i = i + 1;
        } else {
            assert(all.skip(i as int) =~= Seq::<Seq<char>>::empty());
        }
        let mut out: Vec<String> = Vec::new();
        let start = i;
        while i < n
            invariant
                start <= i <= n,
                n == markdown_file@.len(),
                all == strings_view(markdown_file@),
                strings_view(out@) == all.subrange(start as int, i as int),
            decreases n - i,
        {
            let line = markdown_file[i].clone();
            assert(line@ == all[i as int]);
            let ghost before = out@;
            out.push(line);
            assert(strings_view(out@) =~= strings_view(before).push(line@));
            assert(strings_view(out@) =~= all.subrange(start as int, i + 1));
            i = i + 1;
        }
        assert(all.subrange(start as int, n as int) =~= all.skip(start as int));
        out
    }
}

proof fn lemma_after_separator_prefix(pre: Seq<Seq<char>>, rest: Seq<Seq<char>>)
    requires
        forall|i: int| 0 <= i < pre.len() ==> pre[i] != separator(),
        rest.len() > 0,
        rest[0] == separator(),
    ensures
        after_separator(pre + rest) == rest.drop_first(),
    decreases pre.len(),
{
    if pre.len() == 0 {
        assert(pre + rest =~= rest);
    } else {
        assert((pre + rest)[0] == pre[0]);
        assert((pre + rest).drop_first() =~= pre.drop_first() + rest);
        lemma_after_separator_prefix(pre.drop_first(), rest);
    }
}

proof fn lemma_before_separator_prefix(lines: Seq<Seq<char>>, rest: Seq<Seq<char>>)
    requires
        forall|i: int| 0 <= i < lines.len() ==> lines[i] != separator(),
        rest.len() > 0,
        rest[0] == separator(),
    ensures
        before_separator(lines + rest) == lines,
    decreases lines.len(),
{
    if lines.len() == 0 {
        assert(lines + rest =~= rest);
        assert(before_separator(rest) =~= lines);
    } else {
        assert((lines + rest)[0] == lines[0]);
        assert((lines + rest).drop_first() =~= lines.drop_first() + rest);
        lemma_before_separator_prefix(lines.drop_first(), rest);
        assert(seq![lines[0]] + lines.drop_first() =~= lines);
    }
}

proof fn lemma_after_trimmed_separator_prefix(pre: Seq<Seq<char>>, rest: Seq<Seq<char>>)
    requires
        forall|i: int| 0 <= i < pre.len() ==> trim_seq(pre[i]) != separator(),
        rest.len() > 0,
        trim_seq(rest[0]) == separator(),
    ensures
        after_trimmed_separator(pre + rest) == rest.drop_first(),
    decreases pre.len(),
{
    if pre.len() == 0 {
        assert(pre + rest =~= rest);
    } else {
        assert((pre + rest)[0] == pre[0]);
        assert((pre + rest).drop_first() =~= pre.drop_first() + rest);
        lemma_after_trimmed_separator_prefix(pre.drop_first(), rest);
    }
}

/// A markdown file made of some lines, a separator line, the front matter, a
/// second separator line and the body (where no line before the second
/// separator is a separator, once trimmed) has the trimmed front matter lines
/// as its front matter and the body, unchanged, as its content.
pub proof fn law_front_matter_and_content(
    pre: Seq<Seq<char>>,
    first_separator: Seq<char>,
    front_matter: Seq<Seq<char>>,
    second_separator: Seq<char>,
    body: Seq<Seq<char>>,
)
    requires
        forall|i: int| 0 <= i < pre.len() ==> trim_seq(#[trigger] pre[i]) != separator(),
        forall|i: int| 0 <= i < front_matter.len() ==> trim_seq(#[trigger] front_matter[i]) != separator(),
        trim_seq(first_separator) == separator(),
        trim_seq(second_separator) == separator(),
    ensures
        front_matter_lines(pre + seq![first_separator] + front_matter + seq![second_separator] + body)
            == trimmed_lines(front_matter),
        content_lines(pre + seq![first_separator] + front_matter + seq![second_separator] + body) == body,
{
    let lines = pre + seq![first_separator] + front_matter + seq![second_separator] + body;
    let inner = front_matter + seq![second_separator] + body;
    assert(lines =~= pre + (seq![first_separator] + inner));
    assert(trimmed_lines(lines) =~= trimmed_lines(pre) + (seq![separator()] + trimmed_lines(inner)));
    lemma_after_separator_prefix(trimmed_lines(pre), seq![separator()] + trimmed_lines(inner));
    assert((seq![separator()] + trimmed_lines(inner)).drop_first() =~= trimmed_lines(inner));
    assert(trimmed_lines(inner) =~= trimmed_lines(front_matter) + (seq![separator()] + trimmed_lines(body)));
    lemma_before_separator_prefix(trimmed_lines(front_matter), seq![separator()] + trimmed_lines(body));
    lemma_after_trimmed_separator_prefix(pre, seq![first_separator] + inner);
    assert((seq![first_separator] + inner).drop_first() =~= inner);
    assert(inner =~= front_matter + (seq![second_separator] + body));
    lemma_after_trimmed_separator_prefix(front_matter, seq![second_separator] + body);
    assert((seq![second_separator] + body).drop_first() =~= body);
}

/// Reading back a front matter: where it is accepted, every line that is not
/// a comment is a key/value pair, and the front matter gives that key that
/// value (keys are never given twice).
pub proof fn law_front_matter_read_back(lines: Seq<Seq<char>>, i: int)
    requires
        front_matter_map(lines) is Ok,
        0 <= i < lines.len(),
        !is_comment(lines[i]),
    ensures
        key_value_entry(lines[i]) is Ok,
        front_matter_map(lines)->Ok_0.contains_key(key_value_entry(lines[i])->Ok_0.0),
        front_matter_map(lines)->Ok_0[key_value_entry(lines[i])->Ok_0.0] == key_value_entry(lines[i])->Ok_0.1,
    decreases lines.len(),
{
    let rest = lines.drop_last();
    if front_matter_map(rest) is Err {
        lemma_front_matter_map_error(rest, seq![lines.last()]);
        assert(rest + seq![lines.last()] =~= lines);
    } else if i == lines.len() - 1 {
    } else {
        assert(rest[i] == lines[i]);
        law_front_matter_read_back(rest, i);
    }
}

/// Once a line is refused, the lines after it change nothing.
proof fn lemma_front_matter_map_error(a: Seq<Seq<char>>, b: Seq<Seq<char>>)
    requires
        front_matter_map(a) is Err,
    ensures
        front_matter_map(a + b) == front_matter_map(a),
    decreases b.len(),
{
    if b.len() == 0 {
        assert(a + b =~= a);
    } else {
        lemma_front_matter_map_error(a, b.drop_last());
        assert((a + b).drop_last() =~= a + b.drop_last());
    }
}

} // verus!
