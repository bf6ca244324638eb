//! Tags of an article and the parsing of a tag list such as `[a, b]`.

use crate::exception::{view_outcome, Exception, ExceptionView};
use crate::pattern::{brackets_pattern, close_bracket_char, open_bracket_char, regex_replace_all, strip_outer};
use crate::text::{dedup_seq, lemma_dedup_contains, lemma_dedup_distinct, is_blank, is_blank_seq, lemma_trimmed_not_blank, split, split_seq, strings_view, trim, trim_seq, trimmed_nonempty};
use vstd::prelude::*;

verus! {

/// A tag of an article.
#[derive(Debug, PartialEq, Eq, Hash, PartialOrd, Ord)]
pub struct Tag {
    pub text: String,
}

impl View for Tag {
    type V = Seq<char>;

    open spec fn view(&self) -> Seq<char> {
        self.text@
    }
}

/// The texts of a list of tags.
pub open spec fn tags_view(tags: Seq<Tag>) -> Seq<Seq<char>> {
    tags.map_values(|t: Tag| t@)
}

/// A tag keeps `text` as given; it is refused where `text` is blank.
pub open spec fn tag_outcome(text: Seq<char>) -> Result<Seq<char>, ExceptionView> {
    if is_blank_seq(text) {
        Err(ExceptionView::IllegalArgument("Tags can't have an empty text."@))
    } else {
        Ok(text)
    }
}

/// The tags that a tag list names: the text without a leading `[` and a
/// trailing `]`, split at each `,`, each piece trimmed, the empty ones left
/// out, and each tag kept once, in order of first occurrence.
pub open spec fn tag_texts(text: Seq<char>) -> Seq<Seq<char>> {
    dedup_seq(trimmed_nonempty(split_seq(strip_outer(text, open_bracket_char(), close_bracket_char()), ',')))
}

impl Tag {
    /// The tag with the text, or an `IllegalArgument` error for a blank one.
    pub fn try_from(text: String) -> (r: Result<Tag, Exception>)
        ensures
            view_outcome(r) == tag_outcome(text@),
    {
        if is_blank(text.as_str()) {
            Err(Exception::IllegalArgument(String::from_str("Tags can't have an empty text.")))
        } else {
            Ok(Tag { text })
        }
    }

    /// The set of tags that a tag list such as `[a, b]` names, each once.
    pub fn set_from_text(text: &str) -> (r: Result<Vec<Tag>, Exception>)
        ensures
            r is Ok,
            r matches Ok(tags) ==> tags_view(tags@) == tag_texts(text@),
    {
        let texts = tag_list(text);
        let mut tags: Vec<Tag> = Vec::new();
        let mut i: usize = 0;
        while i < texts.len()
            invariant
                i <= texts.len(),
                strings_view(texts@) == tag_texts(text@),
                tags_view(tags@) == strings_view(texts@).take(i as int),
            decreases texts.len() - i,
        {
            let ghost before = tags@;
            proof {
                lemma_tag_texts_nonblank(text@, i as int);
            }
            let tag = match Tag::try_from(texts[i].clone()) {
                Ok(tag) => tag,
                Err(e) => return Err(e),
            };
            tags.push(tag);
            assert(tags_view(tags@) =~= tags_view(before).push(texts@[i as int]@));
            assert(strings_view(texts@).take(i + 1) =~= strings_view(texts@).take(i as int).push(texts@[i as int]@));
            i = i + 1;
        }
        assert(strings_view(texts@).take(texts.len() as int) =~= strings_view(texts@));
        Ok(tags)
    }
}

/// Every text that a tag list names is non-blank.
pub proof fn lemma_tag_texts_nonblank(text: Seq<char>, i: int)
    requires
        0 <= i < tag_texts(text).len(),
    ensures
        !is_blank_seq(tag_texts(text)[i]),
{
    let pieces = split_seq(strip_outer(text, open_bracket_char(), close_bracket_char()), ',');
    lemma_trimmed_nonempty_nonblank(pieces);
    lemma_dedup_contains(trimmed_nonempty(pieces));
    let x = tag_texts(text)[i];
    assert(tag_texts(text).contains(x));
    assert(trimmed_nonempty(pieces).contains(x));
    let k = choose|k: int| 0 <= k < trimmed_nonempty(pieces).len() && trimmed_nonempty(pieces)[k] == x;
    assert(!is_blank_seq(trimmed_nonempty(pieces)[k]));
}

/// The tags that a tag list names form a set: none is blank and none occurs twice.
pub proof fn law_tag_texts_form_a_set(text: Seq<char>)
    ensures
        forall|i: int| 0 <= i < tag_texts(text).len() ==> !is_blank_seq(#[trigger] tag_texts(text)[i]),
        forall|i: int, j: int| 0 <= i < j < tag_texts(text).len() ==> tag_texts(text)[i] != tag_texts(text)[j],
{
    assert forall|i: int| 0 <= i < tag_texts(text).len() implies !is_blank_seq(#[trigger] tag_texts(text)[i]) by {
        lemma_tag_texts_nonblank(text, i);
    }
    lemma_dedup_distinct(trimmed_nonempty(split_seq(strip_outer(text, open_bracket_char(), close_bracket_char()), ',')));
}

/// The pieces kept by `trimmed_nonempty` are all non-blank.
proof fn lemma_trimmed_nonempty_nonblank(pieces: Seq<Seq<char>>)
    ensures
        forall|k: int| 0 <= k < trimmed_nonempty(pieces).len() ==> !is_blank_seq(#[trigger] trimmed_nonempty(pieces)[k]),
    decreases pieces.len(),
{
    if pieces.len() > 0 {
        lemma_trimmed_nonempty_nonblank(pieces.drop_last());
        lemma_trimmed_not_blank(pieces.last());
        let rest = trimmed_nonempty(pieces.drop_last());
        assert forall|k: int| 0 <= k < trimmed_nonempty(pieces).len() implies !is_blank_seq(#[trigger] trimmed_nonempty(pieces)[k]) by {
            if k < rest.len() {
                assert(trimmed_nonempty(pieces)[k] == rest[k]);
            } else {
                assert(trimmed_nonempty(pieces)[k] == trim_seq(pieces.last()));
            }
        }
    }
}

/// The texts that a tag list such as `[a, b]` names: the text without a
/// leading `[` and a trailing `]`, split at each `,`, each piece trimmed, the
/// empty ones left out, each text kept once, in order of first occurrence.
pub fn tag_list(text: &str) -> (r: Vec<String>)
    ensures
        strings_view(r@) == tag_texts(text@),
{
    let pattern = "^\\[|\\]$";
    let empty = "";
    proof {
        reveal_strlit("");
        assert(pattern@ == brackets_pattern());
    }
    let stripped = match regex_replace_all(pattern, text, empty) {
        Some(s) => s,
        None => {
            proof {
                assert(false);
            }
            String::new()
        },
    };
    let pieces = split(stripped.as_str(), ',');
    let ghost all = strings_view(pieces@);
    let mut texts: Vec<String> = Vec::new();
    let mut i: usize = 0;
    assert(all.take(0) =~= Seq::<Seq<char>>::empty());
    assert(strings_view(texts@) =~= Seq::<Seq<char>>::empty());
    while i < pieces.len()
        invariant
            i <= pieces.len(),
            all == strings_view(pieces@),
            strings_view(texts@) == dedup_seq(trimmed_nonempty(all.take(i as int))),
        decreases pieces.len() - i,
    {
        assert(all.take(i + 1).drop_last() =~= all.take(i as int));
        assert(all.take(i + 1).last() == pieces@[i as int]@);
        let t = trim(pieces[i].as_str());
        let ghost prev = trimmed_nonempty(all.take(i as int));
        assert(prev.push(t@).drop_last() =~= prev);
        if t.as_str().unicode_len() > 0 {
            let mut found = false;
            let mut j: usize = 0;
            while j < texts.len()
                invariant
                    j <= texts.len(),
                    found == strings_view(texts@).take(j as int).contains(t@),
                decreases texts.len() - j,
            {
                assert(strings_view(texts@).take(j + 1) =~= strings_view(texts@).take(j as int).push(
                    texts@[j as int]@,
                ));
                if texts[j] == t {
                    found = true;
                    assert(strings_view(texts@).take(j + 1)[j as int] == t@);
                } else {
                    assert(strings_view(texts@).take(j + 1).contains(t@) ==> strings_view(texts@).take(
                        j as int,
                    ).contains(t@)) by {
                        if strings_view(texts@).take(j + 1).contains(t@) {
                            let k = choose|k: int|
                                0 <= k < j + 1 && #[trigger] strings_view(texts@).take(j + 1)[k] == t@;
                            assert(k < j);
                            assert(strings_view(texts@).take(j as int)[k] == t@);
                        }
                    }
                }
                j = j + 1;
            }
            assert(strings_view(texts@).take(texts.len() as int) =~= strings_view(texts@));
            if !found {
                let ghost before = texts@;
                texts.push(t);
                assert(strings_view(texts@) =~= strings_view(before).push(t@));
            }
        }
        i = i + 1;
    }
    assert(all.take(pieces.len() as int) =~= all);
    texts
}

} // verus!
