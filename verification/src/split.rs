//! Cutting text into fields, lines and white-space separated words.

use vstd::prelude::*;
use crate::space::{is_space, is_whitespace};
use crate::text::slice;

verus! {

/// The fields still to come when a scan for `sep` stands at `pos` and the
/// field under way began at `start`.
pub open spec fn fields_scan(s: Seq<char>, sep: char, start: int, pos: int) -> Seq<Seq<char>>
    decreases s.len() - pos,
{
    if pos < 0 || pos >= s.len() {
        seq![s.subrange(start, s.len() as int)]
    } else if s[pos] == sep {
        seq![s.subrange(start, pos)] + fields_scan(s, sep, pos + 1, pos + 1)
    } else {
        fields_scan(s, sep, start, pos + 1)
    }
}

/// The pieces of `s` between occurrences of `sep`; there is always at least
/// one, and a piece may be empty.
pub open spec fn fields(s: Seq<char>, sep: char) -> Seq<Seq<char>> {
    fields_scan(s, sep, 0, 0)
}

/// `line` without one trailing carriage return.
pub open spec fn strip_cr(line: Seq<char>) -> Seq<char> {
    if line.len() > 0 && line.last() == '\r' {
        line.drop_last()
    } else {
        line
    }
}

/// The lines still to come when a scan stands at `pos` and the line under
/// way began at `start`.
pub open spec fn lines_scan(s: Seq<char>, start: int, pos: int) -> Seq<Seq<char>>
    decreases s.len() - pos,
{
    if pos < 0 || pos >= s.len() {
        if start < s.len() {
            seq![s.subrange(start, s.len() as int)]
        } else {
            seq![]
        }
    } else if s[pos] == '\n' {
        seq![strip_cr(s.subrange(start, pos))] + lines_scan(s, pos + 1, pos + 1)
    } else {
        lines_scan(s, start, pos + 1)
    }
}

/// The lines of `s`: a line ends at a line feed, or at a carriage return
/// followed by a line feed; the terminator is left out, and the last line
/// need not have one.
pub open spec fn lines(s: Seq<char>) -> Seq<Seq<char>> {
    lines_scan(s, 0, 0)
}

/// The word under way, if any, when a scan stands at `pos` and the last
/// white space was seen just before `start`.
pub open spec fn pending_word(s: Seq<char>, start: int, pos: int) -> Seq<Seq<char>> {
    if start < pos {
        seq![s.subrange(start, pos)]
    } else {
        seq![]
    }
}

/// The words still to come when a scan stands at `pos` and the word under
/// way began at `start`.
pub open spec fn words_scan(s: Seq<char>, start: int, pos: int) -> Seq<Seq<char>>
    decreases s.len() - pos,
{
    if pos < 0 || pos >= s.len() {
        pending_word(s, start, s.len() as int)
    } else if is_space(s[pos]) {
        pending_word(s, start, pos) + words_scan(s, pos + 1, pos + 1)
    } else {
        words_scan(s, start, pos + 1)
    }
}

/// The maximal runs of characters of `s` that are not white space.
pub open spec fn words(s: Seq<char>) -> Seq<Seq<char>> {
    words_scan(s, 0, 0)
}

/// The character sequences of a list of character vectors.
pub open spec fn seqs(list: Seq<Vec<char>>) -> Seq<Seq<char>> {
    Seq::new(list.len(), |i: int| list[i]@)
}

/// Pushing onto a list of vectors pushes onto its character sequences.
pub proof fn lemma_seqs_push(list: Seq<Vec<char>>, item: Vec<char>)
    ensures
        seqs(list.push(item)) == seqs(list).push(item@),
{
    assert(seqs(list.push(item)) =~= seqs(list).push(item@));
}

/// The pieces of `s` between occurrences of `sep`.
pub fn split_fields(s: &Vec<char>, sep: char) -> (out: Vec<Vec<char>>)
    ensures
        seqs(out@) == fields(s@, sep),
        out.len() >= 1,
{
    let mut out: Vec<Vec<char>> = Vec::new();
    let mut start: usize = 0;
    let mut pos: usize = 0;
    proof {
        assert(seqs(out@) =~= Seq::<Seq<char>>::empty());
        assert(Seq::<Seq<char>>::empty() + fields_scan(s@, sep, 0, 0) =~= fields(s@, sep));
    }
    while pos < s.len()
        invariant
            start <= pos <= s.len(),
            seqs(out@) + fields_scan(s@, sep, start as int, pos as int) == fields(s@, sep),
        decreases s.len() - pos,
    {
        if s[pos] == sep {
            let piece: Vec<char> = slice(s, start, pos);
            proof {
                lemma_seqs_push(out@, piece);
                assert(seqs(out@).push(piece@) + fields_scan(s@, sep, pos + 1, pos + 1) =~= seqs(
                    out@,
                ) + fields_scan(s@, sep, start as int, pos as int));
            }
            out.push(piece);
            start = pos + 1;
        }
        pos += 1;
    }
    let piece: Vec<char> = slice(s, start, s.len());
    proof {
        lemma_seqs_push(out@, piece);
        assert(seqs(out@).push(piece@) =~= seqs(out@) + fields_scan(
            s@,
            sep,
            start as int,
            pos as int,
        ));
    }
    out.push(piece);
    out
}

/// The lines of `s`.
pub fn split_lines(s: &Vec<char>) -> (out: Vec<Vec<char>>)
    ensures
        seqs(out@) == lines(s@),
{
    let mut out: Vec<Vec<char>> = Vec::new();
    let mut start: usize = 0;
    let mut pos: usize = 0;
    proof {
        assert(seqs(out@) =~= Seq::<Seq<char>>::empty());
        assert(Seq::<Seq<char>>::empty() + lines_scan(s@, 0, 0) =~= lines(s@));
    }
    while pos < s.len()
        invariant
            start <= pos <= s.len(),
            seqs(out@) + lines_scan(s@, start as int, pos as int) == lines(s@),
        decreases s.len() - pos,
    {
        if s[pos] == '\n' {
            let end: usize = if pos > start && s[pos - 1] == '\r' {
                pos - 1
            } else {
                pos
            };
            let piece: Vec<char> = slice(s, start, end);
            proof {
                let raw = s@.subrange(start as int, pos as int);
                if raw.len() > 0 {
                    assert(raw.last() == s@[pos - 1]);
                }
                assert(piece@ =~= strip_cr(raw));
                lemma_seqs_push(out@, piece);
                assert(seqs(out@).push(piece@) + lines_scan(s@, pos + 1, pos + 1) =~= seqs(out@)
                    + lines_scan(s@, start as int, pos as int));
            }
            out.push(piece);
            start = pos + 1;
        }
        pos += 1;
    }
    if start < s.len() {
        let piece: Vec<char> = slice(s, start, s.len());
        proof {
            lemma_seqs_push(out@, piece);
            assert(seqs(out@).push(piece@) =~= seqs(out@) + lines_scan(
                s@,
                start as int,
                pos as int,
            ));
        }
        out.push(piece);
    } else {
        proof {
            assert(seqs(out@) + lines_scan(s@, start as int, pos as int) =~= seqs(out@));
        }
    }
    out
}

/// The words of `s`.
pub fn split_words(s: &Vec<char>) -> (out: Vec<Vec<char>>)
    ensures
        seqs(out@) == words(s@),
{
    let mut out: Vec<Vec<char>> = Vec::new();
    let mut start: usize = 0;
    let mut pos: usize = 0;
    proof {
        assert(seqs(out@) =~= Seq::<Seq<char>>::empty());
        assert(Seq::<Seq<char>>::empty() + words_scan(s@, 0, 0) =~= words(s@));
    }
    while pos < s.len()
        invariant
            start <= pos <= s.len(),
            seqs(out@) + words_scan(s@, start as int, pos as int) == words(s@),
        decreases s.len() - pos,
    {
        if is_whitespace(s[pos]) {
            if start < pos {
                let piece: Vec<char> = slice(s, start, pos);
                proof {
                    lemma_seqs_push(out@, piece);
                    assert(seqs(out@).push(piece@) + words_scan(s@, pos + 1, pos + 1) =~= seqs(
                        out@,
                    ) + words_scan(s@, start as int, pos as int));
                }
                out.push(piece);
            } else {
                proof {
                    assert(seqs(out@) + words_scan(s@, pos + 1, pos + 1) =~= seqs(out@)
                        + words_scan(s@, start as int, pos as int));
                }
            }
            start = pos + 1;
        }
        pos += 1;
    }
    if start < s.len() {
        let piece: Vec<char> = slice(s, start, s.len());
        proof {
            lemma_seqs_push(out@, piece);
            assert(seqs(out@).push(piece@) =~= seqs(out@) + words_scan(
                s@,
                start as int,
                pos as int,
            ));
        }
        out.push(piece);
    } else {
        proof {
            assert(seqs(out@) + words_scan(s@, start as int, pos as int) =~= seqs(out@));
        }
    }
    out
}

} // verus!
