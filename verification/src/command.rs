//! The command line: what one line of input asks for.
//!
//! A line is trimmed first. `/add` followed by a card description creates a
//! card; `/ollama` followed by a prompt asks the inference collaborator;
//! anything else is not a command.
//!
//! A card description is a name, then optionally `#` and a list of tags,
//! then optionally `@` and a list of folders:
//!
//! ```text
//! description = name [ "#" tags ] [ "@" folders ]
//! name        = one or more characters other than "#" and "@"
//! tags        = any characters other than "@"
//! folders     = any characters
//! ```
//!
//! Both lists are split at `,`; each piece is trimmed and dropped if
//! nothing is left of it.

use vstd::prelude::*;
use vstd::string::*;
use crate::text::{
    find, is_whitespace, leading_whitespace, lemma_span, lemma_span_unique, lemma_trimmed_ends,
    lemma_trimmed_is_part, lemma_trimmed_keeps_first, span, starts_with, trim, trimmed, CharClass,
};

verus! {

/// The word that introduces a new card.
pub open spec fn add_word() -> Seq<char> {
    "/add"@
}

/// The word that introduces a prompt.
pub open spec fn ollama_word() -> Seq<char> {
    "/ollama"@
}

/// The pieces of a `,`-separated list: each trimmed, the empty ones left
/// out, in the order in which they stand.
pub open spec fn labels(segment: Seq<char>) -> Seq<Seq<char>>
    decreases segment.len(),
{
    let k = span(segment, CharClass::Comma) as int;
    let piece = trimmed(segment.take(k));
    let head = if piece.len() > 0 {
        seq![piece]
    } else {
        Seq::empty()
    };
    if k >= segment.len() {
        head
    } else {
        head + labels(segment.skip(k + 1))
    }
}

/// The part of a card description that holds the name: everything before
/// the first `#` or `@`.
pub open spec fn name_segment(description: Seq<char>) -> Seq<char> {
    description.take(span(description, CharClass::Marker) as int)
}

/// What follows the name: empty, or a text that begins with `#` or `@`.
pub open spec fn after_name(description: Seq<char>) -> Seq<char> {
    description.skip(span(description, CharClass::Marker) as int)
}

/// Whether a tag list follows the name.
pub open spec fn has_tags(description: Seq<char>) -> bool {
    after_name(description).len() > 0 && after_name(description)[0] == '#'
}

/// The tag list: what stands between the `#` after the name and the next
/// `@`; empty if there is no such `#`.
pub open spec fn tag_segment(description: Seq<char>) -> Seq<char> {
    if has_tags(description) {
        let t = after_name(description).skip(1);
        t.take(span(t, CharClass::At) as int)
    } else {
        Seq::empty()
    }
}

/// What follows the name and the tag list: empty, or a text that begins
/// with `@`.
pub open spec fn after_tags(description: Seq<char>) -> Seq<char> {
    if has_tags(description) {
        let t = after_name(description).skip(1);
        t.skip(span(t, CharClass::At) as int)
    } else {
        after_name(description)
    }
}

/// The folder list: everything behind the `@` that ends the name or the tag
/// list; empty if there is no such `@`.
pub open spec fn folder_segment(description: Seq<char>) -> Seq<char> {
    if after_tags(description).len() > 0 {
        after_tags(description).skip(1)
    } else {
        Seq::empty()
    }
}

/// What a line of input asks for.
#[derive(Debug, PartialEq, Eq)]
pub enum Command {
    /// `/add` with a well-formed description: make this card.
    Create { name: String, tags: Vec<String>, folders: Vec<String> },
    /// `/add` with a description that has no name segment.
    InvalidSyntax,
    /// `/add` with a name segment of white space only.
    EmptyName,
    /// `/ollama` with a prompt: ask the inference collaborator.
    Infer { prompt: String },
    /// `/ollama` without a prompt.
    EmptyPrompt,
    /// Anything else; `input` is the trimmed line.
    Unimplemented { input: String },
}

/// A [`Command`] as plain values.
pub enum CommandView {
    Create { name: Seq<char>, tags: Seq<Seq<char>>, folders: Seq<Seq<char>> },
    InvalidSyntax,
    EmptyName,
    Infer { prompt: Seq<char> },
    EmptyPrompt,
    Unimplemented { input: Seq<char> },
}

impl View for Command {
    type V = CommandView;

    open spec fn view(&self) -> CommandView {
        match self {
            Command::Create { name, tags, folders } => CommandView::Create {
                name: name@,
                tags: tags.deep_view(),
                folders: folders.deep_view(),
            },
            Command::InvalidSyntax => CommandView::InvalidSyntax,
            Command::EmptyName => CommandView::EmptyName,
            Command::Infer { prompt } => CommandView::Infer { prompt: prompt@ },
            Command::EmptyPrompt => CommandView::EmptyPrompt,
            Command::Unimplemented { input } => CommandView::Unimplemented { input: input@ },
        }
    }
}

/// What `/add` followed by `description` asks for.
pub open spec fn card_command(description: Seq<char>) -> CommandView {
    if name_segment(description).len() == 0 {
        CommandView::InvalidSyntax
    } else if trimmed(name_segment(description)).len() == 0 {
        CommandView::EmptyName
    } else {
        CommandView::Create {
            name: trimmed(name_segment(description)),
            tags: labels(tag_segment(description)),
            folders: labels(folder_segment(description)),
        }
    }
}

/// The prompt of an `/ollama` line: what follows its first word, trimmed.
pub open spec fn prompt_of(input: Seq<char>) -> Seq<char> {
    trimmed(input.skip(span(input, CharClass::Whitespace) as int))
}

/// What the line `raw` asks for.
pub open spec fn command_of(raw: Seq<char>) -> CommandView {
    let input = trimmed(raw);
    if add_word().is_prefix_of(input) {
        card_command(trimmed(input.skip(add_word().len() as int)))
    } else if ollama_word().is_prefix_of(input) {
        if prompt_of(input).len() == 0 {
            CommandView::EmptyPrompt
        } else {
            CommandView::Infer { prompt: prompt_of(input) }
        }
    } else {
        CommandView::Unimplemented { input }
    }
}

/// A line that begins with neither command word, as it stands and once
/// trimmed, is not a command, whatever else it holds.
pub proof fn lemma_unknown_line(raw: Seq<char>)
    requires
        !add_word().is_prefix_of(raw),
        !ollama_word().is_prefix_of(raw),
        !add_word().is_prefix_of(trimmed(raw)),
        !ollama_word().is_prefix_of(trimmed(raw)),
    ensures
        command_of(raw) == (CommandView::Unimplemented { input: trimmed(raw) }),
{
}

/// No line asks for a card without a name: the description is trimmed
/// before it is read, so a name segment that is there begins with
/// something other than white space.
pub proof fn lemma_line_names_its_card(raw: Seq<char>)
    ensures
        !(command_of(raw) is EmptyName),
{
    let input = trimmed(raw);
    if add_word().is_prefix_of(input) {
        let description = trimmed(input.skip(add_word().len() as int));
        let name = name_segment(description);
        if name.len() > 0 {
            lemma_trimmed_ends(input.skip(add_word().len() as int));
            lemma_span(description, CharClass::Marker);
            assert(name[0] == description[0]);
            lemma_trimmed_keeps_first(name);
        }
    }
}

/// A description put together from its parts: the name, then `#` and the
/// tag list if there is one, then `@` and the folder list if there is one.
pub open spec fn description_of(
    name: Seq<char>,
    tags: Option<Seq<char>>,
    folders: Option<Seq<char>>,
) -> Seq<char> {
    name + match tags {
        Some(t) => seq!['#'] + t,
        None => Seq::empty(),
    } + match folders {
        Some(f) => seq!['@'] + f,
        None => Seq::empty(),
    }
}

/// A description is read back into the parts it was put together from,
/// provided that they are parts: the name is not empty and holds neither
/// `#` nor `@`, and the tag list holds no `@`.
pub proof fn lemma_description_reads_back(
    name: Seq<char>,
    tags: Option<Seq<char>>,
    folders: Option<Seq<char>>,
)
    requires
        name.len() > 0,
        !name.contains('#'),
        !name.contains('@'),
        tags matches Some(t) ==> !t.contains('@'),
    ensures
        name_segment(description_of(name, tags, folders)) == name,
        has_tags(description_of(name, tags, folders)) == (tags is Some),
        tag_segment(description_of(name, tags, folders)) == match tags {
            Some(t) => t,
            None => Seq::empty(),
        },
        folder_segment(description_of(name, tags, folders)) == match folders {
            Some(f) => f,
            None => Seq::empty(),
        },
{
    let d = description_of(name, tags, folders);
    let n = name.len() as int;
    assert forall|i: int| 0 <= i < n implies !CharClass::Marker.holds(#[trigger] d[i]) by {
        assert(d[i] == name[i]);
        assert(name.contains(name[i]));
    }
    lemma_span_unique(d, CharClass::Marker, n);
    assert(name_segment(d) =~= name);
    match tags {
        Some(t) => {
            let rest = after_name(d).skip(1);
            let m = t.len() as int;
            assert forall|i: int| 0 <= i < m implies !CharClass::At.holds(#[trigger] rest[i]) by {
                assert(rest[i] == t[i]);
                assert(t.contains(t[i]));
            }
            lemma_span_unique(rest, CharClass::At, m);
            assert(tag_segment(d) =~= t);
            match folders {
                Some(f) => {
                    assert(folder_segment(d) =~= f);
                },
                None => {},
            }
        },
        None => {
            match folders {
                Some(f) => {
                    assert(folder_segment(d) =~= f);
                },
                None => {},
            }
        },
    }
}

/// A list is split at each comma: its pieces are the first piece, if
/// trimming leaves anything of it, and then the pieces of what follows the
/// first comma.
pub proof fn lemma_labels_split_at_commas(first: Seq<char>, rest: Option<Seq<char>>)
    requires
        !first.contains(','),
    ensures
        labels(
            first + match rest {
                Some(r) => seq![','] + r,
                None => Seq::empty(),
            },
        ) == (if trimmed(first).len() > 0 {
            seq![trimmed(first)]
        } else {
            Seq::empty()
        }) + match rest {
            Some(r) => labels(r),
            None => Seq::empty(),
        },
{
    let tail = match rest {
        Some(r) => seq![','] + r,
        None => Seq::empty(),
    };
    let list = first + tail;
    let n = first.len() as int;
    assert forall|i: int| 0 <= i < n implies !CharClass::Comma.holds(#[trigger] list[i]) by {
        assert(list[i] == first[i]);
        assert(first.contains(first[i]));
    }
    lemma_span_unique(list, CharClass::Comma, n);
    assert(list.take(n) =~= first);
    match rest {
        Some(r) => {
            assert(list.skip(n + 1) =~= r);
        },
        None => {
            assert(list =~= first);
        },
    }
}

/// An empty list has no pieces.
pub proof fn lemma_empty_list_has_no_labels()
    ensures
        labels(Seq::empty()) == Seq::<Seq<char>>::empty(),
{
    assert(trimmed(Seq::<char>::empty().take(0)) =~= Seq::<char>::empty());
}

/// Every piece of a list holds text: it is not empty, has no comma in it,
/// and neither begins nor ends with white space.
pub proof fn lemma_labels_hold_text(segment: Seq<char>, i: int)
    requires
        0 <= i < labels(segment).len(),
    ensures
        labels(segment)[i].len() > 0,
        !is_whitespace(labels(segment)[i].first()),
        !is_whitespace(labels(segment)[i].last()),
        !labels(segment)[i].contains(','),
    decreases segment.len(),
{
    let k = span(segment, CharClass::Comma) as int;
    let piece = trimmed(segment.take(k));
    lemma_span(segment, CharClass::Comma);
    if piece.len() > 0 && i == 0 {
        lemma_trimmed_ends(segment.take(k));
        lemma_trimmed_is_part(segment.take(k));
        if piece.contains(',') {
            let j = choose|j: int| 0 <= j < piece.len() && piece[j] == ',';
            let at = leading_whitespace(segment.take(k)) + j;
            assert(segment[at] == segment.take(k)[at]);
        }
    } else {
        let shift: int = if piece.len() > 0 {
            1
        } else {
            0
        };
        lemma_labels_hold_text(segment.skip(k + 1), i - shift);
    }
}

/// Splits a `,`-separated list into its trimmed, non-empty pieces.
pub fn split_labels(segment: &str) -> (out: Vec<String>)
    ensures
        out.deep_view() == labels(segment@),
{
    let mut out: Vec<String> = Vec::new();
    let mut rest: &str = segment;
    assert(out.deep_view() =~= Seq::<Seq<char>>::empty());
    loop
        invariant_except_break
            labels(segment@) == out.deep_view() + labels(rest@),
        ensures
            out.deep_view() == labels(segment@),
        decreases rest@.len(),
    {
        let n = rest.unicode_len();
        let k = find(rest, CharClass::Comma);
        let piece = trim(rest.substring_char(0, k));
        let ghost before = out.deep_view();
        if piece.unicode_len() > 0 {
            out.push(String::from_str(piece));
            assert(out.deep_view() =~= before + seq![piece@]);
        }
        assert(rest@.take(k as int) == rest@.subrange(0, k as int));
        if k >= n {
            break ;
        }
        let next = rest.substring_char(k + 1, n);
        assert(next@ == rest@.skip(k + 1));
        assert(labels(segment@) =~= out.deep_view() + labels(next@));
        rest = next;
    }
    out
}

/// Reads a card description.
pub fn parse_card(description: &str) -> (c: Command)
    ensures
        c@ == card_command(description@),
{
    let n = description.unicode_len();
    let k = find(description, CharClass::Marker);
    if k == 0 {
        return Command::InvalidSyntax;
    }
    let ghost d = description@;
    proof {
        lemma_span(d, CharClass::Marker);
    }
    assert(d.take(k as int) == d.subrange(0, k as int));
    let name = trim(description.substring_char(0, k));
    // What follows the name; `pos` is where the folder list's `@` stands,
    // or the end.
    let mut tags: Vec<String> = Vec::new();
    let mut folders: Vec<String> = Vec::new();
    let mut pos: usize = k;
    assert(tags.deep_view() =~= Seq::<Seq<char>>::empty());
    assert(folders.deep_view() =~= Seq::<Seq<char>>::empty());
    proof {
        lemma_empty_list_has_no_labels();
    }
    if k < n && description.get_char(k) == '#' {
        let t = description.substring_char(k + 1, n);
        assert(t@ == after_name(d).skip(1));
        let j = find(t, CharClass::At);
        assert(t@.take(j as int) == t@.subrange(0, j as int));
        tags = split_labels(t.substring_char(0, j));
        pos = k + 1 + j;
        assert(after_tags(d) =~= d.skip(pos as int));
    } else {
        assert(after_tags(d) =~= d.skip(pos as int));
    }
    if pos < n {
        let f = description.substring_char(pos + 1, n);
        assert(f@ =~= folder_segment(d));
        folders = split_labels(f);
    }
    if name.unicode_len() == 0 {
        Command::EmptyName
    } else {
        Command::Create { name: String::from_str(name), tags, folders }
    }
}

/// Reads one line of input.
pub fn parse_command(raw: &str) -> (c: Command)
    ensures
        c@ == command_of(raw@),
{
    let input = trim(raw);
    let n = input.unicode_len();
    proof {
        reveal_strlit("/add");
        reveal_strlit("/ollama");
    }
    if starts_with(input, "/add") {
        let rest = input.substring_char("/add".unicode_len(), n);
        assert(rest@ == input@.skip(add_word().len() as int));
        parse_card(trim(rest))
    } else if starts_with(input, "/ollama") {
        let k = find(input, CharClass::Whitespace);
        let tail = input.substring_char(k, n);
        assert(tail@ == input@.skip(k as int));
        let prompt = trim(tail);
        if prompt.unicode_len() == 0 {
            Command::EmptyPrompt
        } else {
            Command::Infer { prompt: String::from_str(prompt) }
        }
    } else {
        Command::Unimplemented { input: String::from_str(input) }
    }
}

} // verus!
