use vstd::prelude::*;

use crate::text::{
    chars_of, copy_range, find_char, first_of, lemma_first_of_none, lemma_first_of_unique,
    string_from_chars, trim, trim_bounds,
};

verus! {

/// What a line from a connected user asks for, in terms of its characters.
pub enum LineModel {
    /// `/quit`: leave the chat.
    Quit,
    /// `/dm <to> <text>`: a message for one user.
    Direct { to: Seq<char>, text: Seq<char> },
    /// `/dm` with no space after the recipient: nothing is done.
    Malformed,
    /// Anything else: the line goes to everyone else.
    Say,
}

/// What a line from a connected user asks for.
pub enum ChatLine {
    Quit,
    Direct { to: String, text: String },
    Malformed,
    Say,
}

impl View for ChatLine {
    type V = LineModel;

    open spec fn view(&self) -> LineModel {
        match self {
            ChatLine::Quit => LineModel::Quit,
            ChatLine::Direct { to, text } => LineModel::Direct { to: to@, text: text@ },
            ChatLine::Malformed => LineModel::Malformed,
            ChatLine::Say => LineModel::Say,
        }
    }
}

pub open spec fn quit_word() -> Seq<char> {
    seq!['/', 'q', 'u', 'i', 't']
}

pub open spec fn direct_prefix() -> Seq<char> {
    seq!['/', 'd', 'm', ' ']
}

/// What a line asks for: the line is trimmed; `/quit` leaves; `/dm ` followed by a name,
/// a space and a text sends the text to that name alone (the name ends at the first space);
/// `/dm ` with no further space does nothing; any other line is said to everyone.
pub open spec fn classify(line: Seq<char>) -> LineModel {
    let t = trim(line);
    if t == quit_word() {
        LineModel::Quit
    } else if t.len() >= 4 && t.subrange(0, 4) == direct_prefix() {
        let rest = t.subrange(4, t.len() as int);
        match first_of(rest, ' ') {
            Some(k) => LineModel::Direct {
                to: rest.subrange(0, k),
                text: rest.subrange(k + 1, rest.len() as int),
            },
            None => LineModel::Malformed,
        }
    } else {
        LineModel::Say
    }
}

/// The user name that a first line gives: the line, trimmed.
pub open spec fn username_of(line: Seq<char>) -> Seq<char> {
    trim(line)
}

/// Reads what a line from a connected user asks for.
pub fn classify_line(line: &str) -> (r: ChatLine)
    ensures
        r@ == classify(line@),
{
    let v = chars_of(line);
    let (a, b) = trim_bounds(&v);
    let ghost t = trim(line@);
    assert(t == v@.subrange(a as int, b as int));
    let n = b - a;
    if n == 5 && v[a] == '/' && v[a + 1] == 'q' && v[a + 2] == 'u' && v[a + 3] == 'i' && v[a + 4]
        == 't' {
        assert(t =~= quit_word());
        return ChatLine::Quit;
    }
    assert(t != quit_word()) by {
        if t == quit_word() {
            assert(t[0] == v@[a as int]);
            assert(t[1] == v@[a + 1]);
            assert(t[2] == v@[a + 2]);
            assert(t[3] == v@[a + 3]);
            assert(t[4] == v@[a + 4]);
        }
    }
    if n >= 4 && v[a] == '/' && v[a + 1] == 'd' && v[a + 2] == 'm' && v[a + 3] == ' ' {
        assert(t.subrange(0, 4) =~= direct_prefix());
        let ghost rest = t.subrange(4, t.len() as int);
        let k = find_char(&v, a + 4, b, ' ');
        if k < b {
            proof {
                let i = k - a - 4;
                assert(rest[i] == v@[k as int]);
                assert forall|j: int| 0 <= j < i implies rest[j] != ' ' by {
                    assert(rest[j] == v@[j + a + 4]);
                }
                lemma_first_of_unique(rest, ' ', i);
                assert(rest.subrange(0, i) == v@.subrange(a + 4, k as int));
                assert(rest.subrange(i + 1, rest.len() as int) == v@.subrange(k + 1, b as int));
            }
            let to = string_from_chars(&copy_range(&v, a + 4, k));
            let text = string_from_chars(&copy_range(&v, k + 1, b));
            return ChatLine::Direct { to, text };
        } else {
            proof {
                assert forall|j: int| 0 <= j < rest.len() implies rest[j] != ' ' by {
                    assert(rest[j] == v@[j + a + 4]);
                }
                lemma_first_of_none(rest, ' ');
            }
            return ChatLine::Malformed;
        }
    }
    assert(!(t.len() >= 4 && t.subrange(0, 4) == direct_prefix())) by {
        if t.len() >= 4 && t.subrange(0, 4) == direct_prefix() {
            assert(t.subrange(0, 4)[0] == v@[a as int]);
            assert(t.subrange(0, 4)[1] == v@[a + 1]);
            assert(t.subrange(0, 4)[2] == v@[a + 2]);
            assert(t.subrange(0, 4)[3] == v@[a + 3]);
        }
    }
    ChatLine::Say
}

} // verus!
