//! Text made safe for Telegram's MarkdownV2, by `teloxide`.

use vstd::prelude::*;

verus! {

/// Whether `c` has a meaning of its own in MarkdownV2.
pub open spec fn is_markdown_special(c: char) -> bool {
    ||| c == '_'
    ||| c == '*'
    ||| c == '['
    ||| c == ']'
    ||| c == '('
    ||| c == ')'
    ||| c == '~'
    ||| c == '`'
    ||| c == '>'
    ||| c == '#'
    ||| c == '+'
    ||| c == '-'
    ||| c == '='
    ||| c == '|'
    ||| c == '{'
    ||| c == '}'
    ||| c == '.'
    ||| c == '!'
}

/// `text` with a backslash before each character that has a meaning of its
/// own in MarkdownV2.
pub open spec fn markdown_escaped(text: Seq<char>) -> Seq<char>
    decreases text.len(),
{
    if text.len() == 0 {
        Seq::empty()
    } else if is_markdown_special(text.last()) {
        markdown_escaped(text.drop_last()) + seq!['\\', text.last()]
    } else {
        markdown_escaped(text.drop_last()).push(text.last())
    }
}

/// `teloxide::utils::markdown::escape`. Believed, not proved: it copies the
/// text character by character and puts a backslash before each of the
/// eighteen characters that [`is_markdown_special`] lists.
#[verifier::external_body]
pub(crate) fn escape_markdown(text: &str) -> (escaped: String)
    ensures
        escaped@ == markdown_escaped(text@),
{
    teloxide::utils::markdown::escape(text)
}

} // verus!
