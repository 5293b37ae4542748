//! How a card is written on the grid and in the detail view.

use vstd::prelude::*;
use vstd::string::*;
use vstd::utf8::{decode_utf8, encode_utf8, is_char_boundary};

verus! {

/// The longest name that is shown in full, counted in the bytes of its
/// UTF-8 form.
pub const LABEL_BYTES: usize = 10;

/// The tags as they are shown: each behind a `#`, with a blank between two.
pub open spec fn tags_text(tags: Seq<Seq<char>>) -> Seq<char>
    decreases tags.len(),
{
    if tags.len() == 0 {
        Seq::empty()
    } else if tags.len() == 1 {
        "#"@ + tags[0]
    } else {
        tags_text(tags.drop_last()) + " "@ + "#"@ + tags.last()
    }
}

/// Whether a name of these UTF-8 bytes can be shown: it is short enough to
/// be shown in full, or its first [`LABEL_BYTES`] bytes are whole
/// characters.
pub open spec fn can_label(bytes: Seq<u8>) -> bool {
    bytes.len() > LABEL_BYTES ==> is_char_boundary(bytes, LABEL_BYTES as int)
}

/// The name as the grid shows it: in full if it is short enough, else its
/// first [`LABEL_BYTES`] bytes and three dots.
pub open spec fn label_text(name: Seq<char>) -> Seq<char> {
    if encode_utf8(name).len() > LABEL_BYTES {
        decode_utf8(encode_utf8(name).subrange(0, LABEL_BYTES as int)) + "..."@
    } else {
        name
    }
}

/// Writes the tags of a card in one line.
pub fn tags_line(tags: &Vec<String>) -> (line: String)
    ensures
        line@ == tags_text(tags.deep_view()),
{
    let mut line = String::new();
    let mut i: usize = 0;
    let ghost all = tags.deep_view();
    while i < tags.len()
        invariant
            i <= tags.len(),
            all == tags.deep_view(),
            line@ == tags_text(all.take(i as int)),
        decreases tags.len() - i,
    {
        let ghost before = all.take(i as int);
        let ghost now = all.take(i + 1);
        assert(now.drop_last() =~= before);
        assert(now.last() == tags[i as int]@);
        if i > 0 {
            line.append(" ");
        } else {
            assert(line@ + "#"@ + tags[i as int]@ =~= "#"@ + tags[i as int]@);
        }
        line.append("#");
        line.append(tags[i].as_str());
        i += 1;
    }
    assert(all.take(i as int) =~= all);
    line
}

/// Shortens a name for the grid. There is no label where the cut would fall
/// inside a character.
pub fn card_label(name: &str) -> (label: Option<String>)
    ensures
        label is Some <==> can_label(encode_utf8(name@)),
        label matches Some(text) ==> text@ == label_text(name@),
{
    if name.as_bytes().len() > LABEL_BYTES {
        if name.is_char_boundary(LABEL_BYTES) {
            let (head, _) = name.split_at(LABEL_BYTES);
            proof {
                vstd::utf8::encode_utf8_decode_utf8(head@);
            }
            let mut text = String::from_str(head);
            text.append("...");
            Some(text)
        } else {
            None
        }
    } else {
        Some(String::from_str(name))
    }
}

} // verus!
