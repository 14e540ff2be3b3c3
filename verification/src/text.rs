//! Small text tools shared by the rest of the library.

use vstd::prelude::*;
use vstd::string::*;

verus! {

/// `String::push`.
///
/// Trusted: the character is appended at the end of the text, and the text
/// before it is as it was.
pub assume_specification[ String::push ](text: &mut String, ch: char)
    ensures
        final(text)@ == old(text)@.push(ch),
;

/// The texts held by a sequence of strings.
pub open spec fn views(parts: Seq<String>) -> Seq<Seq<char>> {
    Seq::new(parts.len(), |i: int| parts[i]@)
}

/// `parts` written one after the other with `sep` between neighbours.
pub open spec fn joined(parts: Seq<Seq<char>>, sep: Seq<char>) -> Seq<char>
    decreases parts.len(),
{
    if parts.len() == 0 {
        Seq::empty()
    } else if parts.len() == 1 {
        parts[0]
    } else {
        joined(parts.drop_last(), sep) + sep + parts.last()
    }
}

/// Joins `parts` with `sep` between neighbours.
pub fn join(parts: &Vec<String>, sep: &str) -> (out: String)
    ensures
        out@ == joined(views(parts@), sep@),
{
    let mut out = String::new();
    let mut done: usize = 0;
    while done < parts.len()
        invariant
            done <= parts.len(),
            out@ == joined(views(parts@).take(done as int), sep@),
        decreases parts.len() - done,
    {
        if done > 0 {
            out.append(sep);
        }
        out.append(parts[done].as_str());
        proof {
            let upto = views(parts@).take(done + 1);
            assert(upto.drop_last() == views(parts@).take(done as int));
            assert(upto.last() == parts@[done as int]@);
            if done == 0 {
                assert(out@ == upto[0]);
            }
        }
        done = done + 1;
    }
    proof {
        assert(views(parts@).take(parts.len() as int) == views(parts@));
    }
    out
}

proof fn lemma_join_grows_with_last(parts: Seq<Seq<char>>, last: Seq<char>, sep: Seq<char>, ch: char)
    ensures
        joined(parts.push(last.push(ch)), sep) == joined(parts.push(last), sep).push(ch),
{
    let shorter = parts.push(last);
    let longer = parts.push(last.push(ch));
    assert(shorter.drop_last() =~= parts);
    assert(longer.drop_last() =~= parts);
    if parts.len() > 0 {
        assert(joined(longer, sep) =~= joined(shorter, sep).push(ch));
    }
}

/// Splits `text` at every `sep`. The pieces, of which there is at least one,
/// hold no `sep`, and joined with `sep` they give `text` back.
pub fn split(text: &str, sep: char) -> (parts: Vec<String>)
    ensures
        parts@.len() >= 1,
        joined(views(parts@), seq![sep]) == text@,
        forall|i: int| 0 <= i < parts@.len() ==> !(#[trigger] views(parts@)[i]).contains(sep),
{
    let len = text.unicode_len();
    let mut parts: Vec<String> = Vec::new();
    let mut start: usize = 0;
    let mut at: usize = 0;
    assert(views(parts@).push(text@.subrange(0, 0)).drop_last() =~= views(parts@));
    assert(text@.subrange(0, 0) =~= text@.take(0));
    while at < len
        invariant
            start <= at <= len,
            len == text@.len(),
            joined(views(parts@).push(text@.subrange(start as int, at as int)), seq![sep])
                == text@.take(at as int),
            forall|i: int| 0 <= i < parts@.len() ==> !(#[trigger] views(parts@)[i]).contains(sep),
            !text@.subrange(start as int, at as int).contains(sep),
        decreases len - at,
    {
        let ch = text.get_char(at);
        let ghost before = views(parts@);
        let ghost piece = text@.subrange(start as int, at as int);
        if ch == sep {
            parts.push(String::from_str(text.substring_char(start, at)));
            start = at + 1;
            proof {
                let empty = text@.subrange(start as int, start as int);
                assert(views(parts@) =~= before.push(piece));
                assert(views(parts@).push(empty).drop_last() =~= views(parts@));
                assert(empty =~= Seq::<char>::empty());
                assert(text@.take(at + 1) =~= text@.take(at as int) + seq![sep] + empty);
                assert(!empty.contains(sep));
            }
        } else {
            proof {
                let grown = text@.subrange(start as int, at + 1);
                assert(grown =~= piece.push(ch));
                lemma_join_grows_with_last(before, piece, seq![sep], ch);
                assert(text@.take(at + 1) =~= text@.take(at as int).push(ch));
                assert forall|i: int| 0 <= i < grown.len() implies grown[i] != sep by {
                    if i < piece.len() {
                        assert(piece[i] == grown[i]);
                        assert(piece.contains(piece[i]));
                    }
                }
            }
        }
        at = at + 1;
    }
    let ghost before = views(parts@);
    parts.push(String::from_str(text.substring_char(start, len)));
    proof {
        assert(views(parts@) =~= before.push(text@.subrange(start as int, len as int)));
        assert(text@.take(len as int) =~= text@);
    }
    parts
}

} // verus!
