//! The working directory that a system text speaks of.
use crate::json::{items_of, Json, JsonTree};
use crate::prompt::system_tree;
use crate::text::{
    contains, find, first_word, has_text, is_white, law_first_word, law_strip_end, leading_word,
    lemma_found_behind, lemma_position, lines_of, next_line, none_white, occurs_at, part, position,
    strip_end, trim_end_of, trim_start, word,
};
use vstd::prelude::*;
use vstd::string::*;

verus! {

// ---- The system text ----------------------------------------------------------------------

/// The texts of the blocks that have one.
pub open spec fn block_texts(blocks: Seq<JsonTree>) -> Seq<Seq<char>>
    decreases blocks.len(),
{
    if blocks.len() == 0 {
        Seq::empty()
    } else {
        match blocks.last().member_text("text"@) {
            Some(t) => block_texts(blocks.drop_last()).push(t),
            None => block_texts(blocks.drop_last()),
        }
    }
}

/// `texts` with a line feed between each and the next.
pub open spec fn one_per_line(texts: Seq<Seq<char>>) -> Seq<char>
    decreases texts.len(),
{
    if texts.len() == 0 {
        Seq::empty()
    } else if texts.len() == 1 {
        texts[0]
    } else {
        one_per_line(texts.drop_last()) + "\n"@ + texts.last()
    }
}

/// The system text, `None` where the request has none.
pub open spec fn system_lines(system: Option<JsonTree>) -> Option<Seq<char>> {
    match system {
        Some(JsonTree::Str(s)) => Some(s),
        Some(JsonTree::Array(blocks)) => Some(one_per_line(block_texts(blocks))),
        _ => None,
    }
}

/// The texts of the blocks, with a line feed between each and the next.
pub fn join_blocks(blocks: &Vec<Json>) -> (r: String)
    ensures
        r@ == one_per_line(block_texts(items_of(blocks@))),
{
    let ghost trees = items_of(blocks@);
    let mut out: String = String::new();
    let mut some: bool = false;
    let mut i: usize = 0;
    assert(trees.take(0) =~= Seq::empty());
    while i < blocks.len()
        invariant
            i <= blocks@.len(),
            trees == items_of(blocks@),
            out@ == one_per_line(block_texts(trees.take(i as int))),
            some == (block_texts(trees.take(i as int)).len() > 0),
        decreases blocks@.len() - i,
    {
        assert(trees.take(i + 1).drop_last() == trees.take(i as int));
        assert(trees.take(i + 1).last() == blocks@[i as int].tree());
        let ghost before = block_texts(trees.take(i as int));
        if let Some(t) = blocks[i].get_str("text") {
            assert(before.push(t@).drop_last() == before);
            if some {
                out.append("\n");
            }
            out.append(t);
            assert(out@ =~= one_per_line(before.push(t@)));
            some = true;
        }
        i += 1;
    }
    assert(trees.take(trees.len() as int) =~= trees);
    out
}

/// The system text, `None` where the request has none.
pub fn system_text(system: &Option<Json>) -> (r: Option<String>)
    ensures
        r is Some <==> system_lines(system_tree(*system)) is Some,
        r matches Some(t) ==> system_lines(system_tree(*system)) == Some(t@),
{
    match system {
        Some(value) => {
            if let Some(s) = value.as_str() {
                Some(s.to_owned())
            } else if let Some(blocks) = value.as_array() {
                Some(join_blocks(blocks))
            } else {
                None
            }
        },
        None => None,
    }
}

// ---- The directory ------------------------------------------------------------------------

/// What `str::to_lowercase` gives.
pub uninterp spec fn lowercase(s: Seq<char>) -> Seq<char>;

/// `str::to_lowercase` gives the lowercase text, which depends on the text alone.
pub assume_specification[ str::to_lowercase ](s: &str) -> (r: String)
    ensures
        r@ == lowercase(s@),
;

/// A line, given in lower case, that speaks of a working directory.
pub open spec fn speaks_of_directory(lower: Seq<char>) -> bool {
    ||| has_text(lower, "cwd"@)
    ||| has_text(lower, "working directory"@)
    ||| has_text(lower, "current directory"@)
}

/// A path from the root.
pub open spec fn is_absolute(path: Seq<char>) -> bool {
    path.len() > 0 && path[0] == '/'
}

/// The first word of `rest`, without the quotes, full stops and commas at its end.
pub open spec fn path_in(rest: Seq<char>) -> Seq<char> {
    strip_end(first_word(rest), "'\".,"@)
}

/// The directory that a line names: the word from its first slash on, where the line, of which
/// `lower` is the lowercase text, speaks of one.
pub open spec fn line_directory(line: Seq<char>, lower: Seq<char>) -> Option<Seq<char>> {
    if speaks_of_directory(lower) {
        match position(line, "/"@) {
            Some(k) => if is_absolute(path_in(line.skip(k))) {
                Some(path_in(line.skip(k)))
            } else {
                None
            },
            None => None,
        }
    } else {
        None
    }
}

/// The directory that the first line names that names one.
pub open spec fn first_directory(lines: Seq<Seq<char>>) -> Option<Seq<char>>
    decreases lines.len(),
{
    if lines.len() == 0 {
        None
    } else {
        match line_directory(lines[0], lowercase(lines[0])) {
            Some(path) => Some(path),
            None => first_directory(lines.skip(1)),
        }
    }
}

/// The directory that a line names, of which `lower` is the lowercase text.
pub fn directory_in_line(line: &str, lower: &str) -> (r: Option<String>)
    ensures
        r is Some <==> line_directory(line@, lower@) is Some,
        r matches Some(path) ==> line_directory(line@, lower@) == Some(path@),
{
    if contains(lower, "cwd") || contains(lower, "working directory") || contains(
        lower,
        "current directory",
    ) {
        if let Some(k) = find(line, "/") {
            let size: usize = line.unicode_len();
            let rest: String = part(line, k, size);
            assert(rest@ == line@.skip(k as int));
            let path: String = trim_end_of(word(rest.as_str()).as_str(), "'\".,");
            if !path.as_str().is_empty() && path.as_str().get_char(0) == '/' {
                return Some(path);
            }
        }
    }
    None
}

/// The directory that the first line of `text` names that names one.
pub fn directory_in_text(text: &str) -> (r: Option<String>)
    ensures
        r is Some <==> first_directory(lines_of(text@)) is Some,
        r matches Some(path) ==> first_directory(lines_of(text@)) == Some(path@),
{
    let mut rest: String = text.to_owned();
    while !rest.as_str().is_empty()
        invariant
            first_directory(lines_of(text@)) == first_directory(lines_of(rest@)),
        decreases rest@.len(),
    {
        let (line, after) = next_line(rest.as_str());
        let ghost lines = lines_of(rest@);
        assert(lines.skip(1) =~= lines_of(after@));
        assert(lines[0] == line@);
        let lower: String = line.as_str().to_lowercase();
        let found = directory_in_line(line.as_str(), lower.as_str());
        if found.is_some() {
            return found;
        }
        rest = after;
    }
    None
}

// ---- Laws ---------------------------------------------------------------------------------

proof fn lemma_strip_end(s: Seq<char>, set: Seq<char>)
    ensures
        strip_end(s, set).is_prefix_of(s),
        strip_end(s, set).len() > 0 ==> !set.contains(strip_end(s, set).last()),
        s.len() > 0 && !set.contains(s[0]) ==> strip_end(s, set).len() > 0,
    decreases s.len(),
{
    if s.len() > 0 && set.contains(s.last()) {
        lemma_strip_end(s.drop_last(), set);
        assert(s.drop_last().is_prefix_of(s));
    }
}

proof fn lemma_leading_word_dark(s: Seq<char>)
    ensures
        leading_word(s).is_prefix_of(s),
        forall|i: int| 0 <= i < leading_word(s).len() ==> !is_white(#[trigger] leading_word(s)[i]),
        s.len() > 0 && !is_white(s[0]) ==> leading_word(s).len() > 0,
    decreases s.len(),
{
    if s.len() > 0 && !is_white(s[0]) {
        lemma_leading_word_dark(s.skip(1));
        let w = leading_word(s.skip(1));
        assert(leading_word(s) == seq![s[0]] + w);
        assert(s.subrange(0, (w.len() + 1) as int) =~= seq![s[0]] + s.skip(1).subrange(0, w.len() as int));
        assert forall|i: int| 0 <= i < leading_word(s).len() implies !is_white(
            #[trigger] leading_word(s)[i],
        ) by {
            if i > 0 {
                assert(leading_word(s)[i] == w[i - 1]);
            }
        }
    }
}

/// A directory found in a line is a path from the root, holds no whitespace, and does not end in
/// a quote, a full stop or a comma; it stands in the line as it is.
pub proof fn law_directory_is_a_path(line: Seq<char>, lower: Seq<char>)
    ensures
        line_directory(line, lower) matches Some(path) ==> {
            &&& is_absolute(path)
            &&& forall|i: int| 0 <= i < path.len() ==> !is_white(#[trigger] path[i])
            &&& !"'\".,"@.contains(path.last())
            &&& has_text(line, path)
        },
{
    if let Some(path) = line_directory(line, lower) {
        lemma_position(line, "/"@);
        reveal_strlit("/");
        let k = position(line, "/"@)->0;
        let rest = line.skip(k);
        assert(line.subrange(k, k + 1)[0] == '/');
        assert(rest[0] == '/');
        assert(trim_start(rest) == rest);
        let w = first_word(rest);
        lemma_leading_word_dark(rest);
        lemma_strip_end(w, "'\".,"@);
        assert forall|i: int| 0 <= i < path.len() implies !is_white(#[trigger] path[i]) by {
            assert(path[i] == w[i]);
        }
        assert(line.subrange(k, k + path.len()) =~= path);
        assert(occurs_at(line, path, k));
    }
}

/// A line that speaks of a directory and holds a slash names one, and no other line does.
pub proof fn law_directory_is_found(line: Seq<char>, lower: Seq<char>)
    ensures
        line_directory(line, lower) is Some <==> speaks_of_directory(lower) && line.contains('/'),
{
    lemma_position(line, "/"@);
    reveal_strlit("/");
    reveal_strlit("'\".,");
    assert("/"@ =~= seq!['/']);
    if speaks_of_directory(lower) && line.contains('/') {
        let i = choose|i: int| 0 <= i < line.len() && line[i] == '/';
        assert(line.subrange(i, i + 1) =~= seq!['/']);
        assert(occurs_at(line, "/"@, i));
        let k = position(line, "/"@)->0;
        let rest = line.skip(k);
        assert(line.subrange(k, k + 1)[0] == '/');
        assert(rest[0] == '/');
        assert(trim_start(rest) == rest);
        lemma_leading_word_dark(rest);
        let w = first_word(rest);
        assert(w[0] == '/');
        assert(!"'\".,"@.contains('/'));
        lemma_strip_end(w, "'\".,"@);
    }
    if line_directory(line, lower) is Some {
        let k = position(line, "/"@)->0;
        assert(line.subrange(k, k + 1)[0] == '/');
        assert(line[k] == '/');
    }
}

/// The directory that a line names is a whole word of it: it starts at the first slash of the line
/// and goes on to the next whitespace or the end, but for the quotes, full stops and commas at its
/// end. A line names one where it speaks of a working directory in any of three ways.
pub proof fn law_directory_is_whole(
    before: Seq<char>,
    path: Seq<char>,
    marks: Seq<char>,
    rest: Seq<char>,
    lower: Seq<char>,
)
    requires
        has_text(lower, "cwd"@) || has_text(lower, "working directory"@) || has_text(
            lower,
            "current directory"@,
        ),
        !before.contains('/'),
        path.len() > 0 && path[0] == '/',
        none_white(path),
        !(path.last() == '\'' || path.last() == '"' || path.last() == '.' || path.last() == ','),
        forall|i: int|
            0 <= i < marks.len() ==> (#[trigger] marks[i] == '\'' || marks[i] == '"' || marks[i] == '.'
                || marks[i] == ','),
        rest.len() > 0 ==> is_white(rest[0]),
    ensures
        line_directory(before + path + marks + rest, lower) == Some(path),
{
    let line = before + path + marks + rest;
    let set = "'\".,"@;
    reveal_strlit("/");
    reveal_strlit("'\".,");
    assert("/"@ =~= seq!['/']);
    lemma_position(before, "/"@);
    if let Some(k) = position(before, "/"@) {
        assert(before.subrange(k, k + 1)[0] == '/');
        assert(before[k] == '/');
    }
    let tail = path.skip(1) + marks + rest;
    assert(line =~= before + "/"@ + tail);
    lemma_found_behind(before, "/"@, tail);
    let from = line.skip(before.len() as int);
    let word = path + marks;
    assert(from =~= Seq::<char>::empty() + word + rest);
    assert(none_white(word)) by {
        assert forall|i: int| 0 <= i < word.len() implies !is_white(#[trigger] word[i]) by {
            if i < path.len() {
                assert(word[i] == path[i]);
            } else {
                assert(word[i] == marks[i - path.len()]);
            }
        }
    }
    law_first_word(Seq::empty(), word, rest);
    assert(set[0] == '\'' && set[1] == '"' && set[2] == '.' && set[3] == ',');
    assert forall|i: int| 0 <= i < marks.len() implies set.contains(#[trigger] marks[i]) by {
        if marks[i] == '\'' {
            assert(set[0] == marks[i]);
        } else if marks[i] == '"' {
            assert(set[1] == marks[i]);
        } else if marks[i] == '.' {
            assert(set[2] == marks[i]);
        } else {
            assert(set[3] == marks[i]);
        }
    }
    assert(!set.contains(path.last()));
    law_strip_end(path, marks, set);
}

/// A line without a slash, or that does not speak of a working directory, names none.
pub proof fn law_no_directory(line: Seq<char>, lower: Seq<char>)
    requires
        !line.contains('/') || !(has_text(lower, "cwd"@) || has_text(lower, "working directory"@)
            || has_text(lower, "current directory"@)),
    ensures
        line_directory(line, lower) is None,
{
    law_directory_is_found(line, lower);
}

/// Of many lines the first that names a directory counts.
pub proof fn law_first_line_counts(lines: Seq<Seq<char>>, i: int)
    ensures
        (0 <= i < lines.len() && line_directory(lines[i], lowercase(lines[i])) is Some && forall|
            j: int,
        |
            0 <= j < i ==> line_directory(#[trigger] lines[j], lowercase(lines[j])) is None)
            ==> first_directory(lines) == line_directory(lines[i], lowercase(lines[i])),
        (forall|j: int|
            0 <= j < lines.len() ==> line_directory(#[trigger] lines[j], lowercase(lines[j])) is None)
            ==> first_directory(lines) is None,
    decreases lines.len(),
{
    if lines.len() > 0 {
        let rest = lines.skip(1);
        law_first_line_counts(rest, i - 1);
        assert forall|j: int| 0 <= j < rest.len() implies #[trigger] rest[j] == lines[j + 1] by {}
    }
}

/// The system text is the text itself, or the texts of the blocks that have one, with a line feed
/// between each and the next; anything else is none.
pub proof fn law_system_lines(
    s: Seq<char>,
    blocks: Seq<JsonTree>,
    block: JsonTree,
    other: JsonTree,
)
    ensures
        system_lines(None) is None,
        system_lines(Some(JsonTree::Str(s))) == Some(s),
        !(other is Str || other is Array) ==> system_lines(Some(other)) is None,
        system_lines(Some(JsonTree::Array(Seq::empty()))) == Some(Seq::<char>::empty()),
        system_lines(Some(JsonTree::Array(blocks))) is Some,
        !(block matches JsonTree::Object(m) && m.contains_key("text"@) && m["text"@] is Str)
            ==> system_lines(Some(JsonTree::Array(blocks.push(block)))) == system_lines(
            Some(JsonTree::Array(blocks)),
        ),
        (block matches JsonTree::Object(m) && m.contains_key("text"@) && m["text"@] is Str)
            ==> system_lines(Some(JsonTree::Array(blocks.push(block)))) == Some(
            if exists|i: int|
                0 <= i < blocks.len() && (#[trigger] blocks[i] matches JsonTree::Object(m)
                    && m.contains_key("text"@) && m["text"@] is Str) {
                system_lines(Some(JsonTree::Array(blocks)))->0 + "\n"@
                    + block->Object_0["text"@]->Str_0
            } else {
                block->Object_0["text"@]->Str_0
            },
        ),
{
    let more = blocks.push(block);
    assert(more.drop_last() =~= blocks);
    lemma_block_texts(blocks);
    let texts = block_texts(blocks);
    if block matches JsonTree::Object(m) && m.contains_key("text"@) && m["text"@] is Str {
        let t = block->Object_0["text"@]->Str_0;
        assert(block_texts(more) == texts.push(t));
        assert(texts.push(t).drop_last() =~= texts);
    }
}

proof fn lemma_block_texts(blocks: Seq<JsonTree>)
    ensures
        block_texts(blocks).len() > 0 <==> exists|i: int|
            0 <= i < blocks.len() && (#[trigger] blocks[i] matches JsonTree::Object(m)
                && m.contains_key("text"@) && m["text"@] is Str),
    decreases blocks.len(),
{
    if blocks.len() > 0 {
        let front = blocks.drop_last();
        let n = blocks.len() - 1;
        lemma_block_texts(front);
        if exists|i: int|
            0 <= i < front.len() && (#[trigger] front[i] matches JsonTree::Object(m)
                && m.contains_key("text"@) && m["text"@] is Str) {
            let i = choose|i: int|
                0 <= i < front.len() && (#[trigger] front[i] matches JsonTree::Object(m)
                    && m.contains_key("text"@) && m["text"@] is Str);
            assert(blocks[i] == front[i]);
        }
        if exists|i: int|
            0 <= i < blocks.len() && (#[trigger] blocks[i] matches JsonTree::Object(m)
                && m.contains_key("text"@) && m["text"@] is Str) {
            let i = choose|i: int|
                0 <= i < blocks.len() && (#[trigger] blocks[i] matches JsonTree::Object(m)
                    && m.contains_key("text"@) && m["text"@] is Str);
            if i < n {
                assert(front[i] == blocks[i]);
            }
        }
        assert(blocks[n] == blocks.last());
    }
}

} // verus!
