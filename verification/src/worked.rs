//! Worked examples: command lines read step by step.
//!
//! The proofs show how the laws of [`crate::text`] and [`crate::command`]
//! turn a line that is written out into the command it stands for.

use vstd::prelude::*;
use crate::command::{
    add_word, command_of, description_of, labels, lemma_description_reads_back,
    lemma_empty_list_has_no_labels, lemma_labels_split_at_commas, name_segment, ollama_word,
    prompt_of, CommandView,
};
use crate::text::{
    is_whitespace, lemma_leading_whitespace, lemma_span_unique, lemma_trailing_whitespace,
    lemma_trimmed_is_idempotent, trimmed, trimmed_start, CharClass,
};

verus! {

/// A text that begins with `blanks` blanks and neither continues nor ends
/// with white space is trimmed by taking the blanks away.
proof fn lemma_trim_leading(s: Seq<char>, blanks: int)
    requires
        0 <= blanks < s.len(),
        forall|i: int| 0 <= i < blanks ==> is_whitespace(#[trigger] s[i]),
        !is_whitespace(s[blanks]),
        !is_whitespace(s.last()),
    ensures
        trimmed(s) == s.skip(blanks),
{
    lemma_leading_whitespace(s, blanks);
    let t = trimmed_start(s);
    assert(t.last() == s.last());
    lemma_trailing_whitespace(t, 0);
    assert(t.take(t.len() as int) =~= t);
}

/// A text that ends with `blanks` blanks and neither begins with white
/// space nor has any before those blanks is trimmed by taking them away.
proof fn lemma_trim_trailing(s: Seq<char>, blanks: int)
    requires
        0 <= blanks < s.len(),
        forall|i: int| s.len() - blanks <= i < s.len() ==> is_whitespace(#[trigger] s[i]),
        !is_whitespace(s[s.len() - blanks - 1]),
        !is_whitespace(s.first()),
    ensures
        trimmed(s) == s.take(s.len() - blanks),
{
    lemma_leading_whitespace(s, 0);
    assert(trimmed_start(s) =~= s);
    lemma_trailing_whitespace(s, blanks);
}

/// `/add Foo #a,b @x` asks for the card `Foo` with the tags `a` and `b` in
/// the folder `x`.
pub proof fn example_add_with_tags_and_folders()
    ensures
        command_of("/add Foo #a,b @x"@) == (CommandView::Create {
            name: "Foo"@,
            tags: seq!["a"@, "b"@],
            folders: seq!["x"@],
        }),
{
    reveal_strlit("/add Foo #a,b @x");
    reveal_strlit("/add");
    reveal_strlit("/ollama");
    reveal_strlit("Foo");
    reveal_strlit("a");
    reveal_strlit("b");
    reveal_strlit("x");
    let raw = "/add Foo #a,b @x"@;
    lemma_trimmed_is_idempotent(raw);
    assert(trimmed(raw) == raw);
    assert(add_word() =~= raw.subrange(0, 4));
    let behind = raw.skip(4);
    lemma_trim_leading(behind, 1);
    let description = trimmed(behind);
    let name = seq!['F', 'o', 'o', ' '];
    let tags = seq!['a', ',', 'b', ' '];
    let folders = seq!['x'];
    assert(description =~= description_of(name, Some(tags), Some(folders)));
    lemma_description_reads_back(name, Some(tags), Some(folders));
    lemma_trim_trailing(name, 1);
    assert(trimmed(name) =~= "Foo"@);
    let first = seq!['a'];
    let second = seq!['b', ' '];
    assert(tags =~= first + (seq![','] + second));
    lemma_labels_split_at_commas(first, Some(second));
    lemma_trimmed_is_idempotent(first);
    assert(second + Seq::<char>::empty() =~= second);
    lemma_labels_split_at_commas(second, None);
    lemma_trim_trailing(second, 1);
    assert(trimmed(second) =~= "b"@);
    assert(first =~= "a"@);
    assert(labels(tags) =~= seq!["a"@, "b"@]);
    assert(folders + Seq::<char>::empty() =~= folders);
    lemma_labels_split_at_commas(folders, None);
    lemma_trimmed_is_idempotent(folders);
    assert(folders =~= "x"@);
    assert(labels(folders) =~= seq!["x"@]);
}

/// `/add Foo#` asks for the card `Foo` without tags: a tag list with
/// nothing in it has no tag, not an empty one.
pub proof fn example_add_with_empty_tag_list()
    ensures
        command_of("/add Foo#"@) == (CommandView::Create {
            name: "Foo"@,
            tags: Seq::empty(),
            folders: Seq::empty(),
        }),
{
    reveal_strlit("/add Foo#");
    reveal_strlit("/add");
    reveal_strlit("Foo");
    let raw = "/add Foo#"@;
    lemma_trimmed_is_idempotent(raw);
    assert(add_word() =~= raw.subrange(0, 4));
    let behind = raw.skip(4);
    lemma_trim_leading(behind, 1);
    let name = seq!['F', 'o', 'o'];
    let tags = Seq::<char>::empty();
    assert(trimmed(behind) =~= description_of(name, Some(tags), None));
    lemma_description_reads_back(name, Some(tags), None);
    lemma_trimmed_is_idempotent(name);
    assert(name =~= "Foo"@);
    lemma_empty_list_has_no_labels();
}

/// `/add` with only blanks behind it describes no card.
pub proof fn example_add_without_description()
    ensures
        command_of("/add   "@) == CommandView::InvalidSyntax,
{
    reveal_strlit("/add   ");
    reveal_strlit("/add");
    let raw = "/add   "@;
    lemma_trim_trailing(raw, 3);
    assert(trimmed(raw) =~= add_word());
    let behind = trimmed(raw).skip(4);
    assert(behind =~= Seq::<char>::empty());
    lemma_trimmed_is_idempotent(behind);
    assert(name_segment(trimmed(behind)).len() == 0);
}

/// `/ollama` with only a blank behind it gives no prompt.
pub proof fn example_ollama_without_prompt()
    ensures
        command_of("/ollama "@) == CommandView::EmptyPrompt,
{
    reveal_strlit("/ollama ");
    reveal_strlit("/ollama");
    reveal_strlit("/add");
    let raw = "/ollama "@;
    lemma_trim_trailing(raw, 1);
    let input = trimmed(raw);
    assert(input =~= ollama_word());
    assert(input.subrange(0, 4)[1] != add_word()[1]);
    lemma_span_unique(input, CharClass::Whitespace, 7);
    assert(input.skip(7) =~= Seq::<char>::empty());
    lemma_trimmed_is_idempotent(input.skip(7));
    assert(prompt_of(input).len() == 0);
}

} // verus!
