//! The listing printed by `cargo install --list`: one header line per
//! installed crate (`name v1.2.3:` or `name v1.2.3 (source):`), followed by
//! indented lines naming its binaries, which carry no record.

use vstd::prelude::*;
use crate::record::{CrateInfo, CrateKind, CrateModel, KindModel};
use crate::text::{
    lemma_split_on_nonempty, split_on, trim_delims, trim_end_char, trim_start_char, split_chars, sub_chars,
    trim_delim_chars, trim_end_chars, trim_start_chars, string_from_chars, chars_of,
};

verus! {

/// Whether `c` is white space: the Unicode `White_Space` characters, which
/// `char::is_whitespace` recognises.
pub open spec fn is_space(c: char) -> bool {
    ||| ('\u{9}' <= c && c <= '\u{d}')
    ||| c == ' '
    ||| c == '\u{85}'
    ||| c == '\u{a0}'
    ||| c == '\u{1680}'
    ||| ('\u{2000}' <= c && c <= '\u{200a}')
    ||| c == '\u{2028}'
    ||| c == '\u{2029}'
    ||| c == '\u{202f}'
    ||| c == '\u{205f}'
    ||| c == '\u{3000}'
}

/// `l` without one trailing carriage return.
pub open spec fn strip_cr(l: Seq<char>) -> Seq<char> {
    if l.len() > 0 && l.last() == '\r' {
        l.drop_last()
    } else {
        l
    }
}

/// The lines of `text`, as `str::lines` reads them: the pieces between line
/// feeds, where a piece ended by a line feed also loses a carriage return
/// just before it. (`str::lines` drops a final empty piece; an empty line
/// carries no record, so it makes no difference here.)
pub open spec fn text_lines(text: Seq<char>) -> Seq<Seq<char>> {
    let pieces = split_on(text, '\n');
    Seq::new(
        pieces.len(),
        |k: int|
            if k + 1 < pieces.len() {
                strip_cr(pieces[k])
            } else {
                pieces[k]
            },
    )
}

/// Whether a line opens a crate's entry: it is not empty and does not begin
/// with white space.
pub open spec fn is_header(line: Seq<char>) -> bool {
    line.len() > 0 && !is_space(line[0])
}

/// The provenance of a source descriptor, its delimiters already removed: a
/// URL starting with "http" is a git checkout, anything else a local path.
pub open spec fn source_kind(p: Seq<char>) -> KindModel {
    if p.len() >= 4 && p.take(4) == "http"@ {
        KindModel::Git(p)
    } else {
        KindModel::Local(p)
    }
}

/// The record of one header line, split at single spaces: the first token is
/// the name; the second, with its trailing ':' and leading 'v' removed, is the
/// installed version (empty when missing); the third, with '(', ')' and ':'
/// removed from its ends, is the source descriptor. Without a third token the
/// crate came from the registry, with no repository known yet.
pub open spec fn line_record(line: Seq<char>) -> CrateModel {
    let tokens = split_on(line, ' ');
    CrateModel {
        name: tokens[0],
        current: if tokens.len() >= 2 {
            trim_start_char(trim_end_char(tokens[1], ':'), 'v')
        } else {
            Seq::<char>::empty()
        },
        online: None,
        updated_at: None,
        kind: if tokens.len() >= 3 {
            source_kind(trim_delims(tokens[2]))
        } else {
            KindModel::Cratesio(Seq::<char>::empty())
        },
    }
}

/// The records of the header lines among `lines`, in order.
pub open spec fn records_of(lines: Seq<Seq<char>>) -> Seq<CrateModel>
    decreases lines.len(),
{
    if lines.len() == 0 {
        Seq::<CrateModel>::empty()
    } else {
        let before = records_of(lines.drop_last());
        if is_header(lines.last()) {
            before.push(line_record(lines.last()))
        } else {
            before
        }
    }
}

/// The records of a whole listing.
pub open spec fn listing_records(text: Seq<char>) -> Seq<CrateModel> {
    records_of(text_lines(text))
}

/// A header's name is never empty: its first character is no space.
pub proof fn lemma_header_name_nonempty(line: Seq<char>)
    requires
        is_header(line),
    ensures
        line_record(line).name.len() > 0,
        line_record(line).name[0] == line[0],
{
    lemma_split_on_prefix(line, ' ');
}

proof fn lemma_split_on_prefix(s: Seq<char>, sep: char)
    requires
        s.len() > 0,
        s[0] != sep,
    ensures
        split_on(s, sep)[0].len() > 0,
        split_on(s, sep)[0][0] == s[0],
    decreases s.len(),
{
    lemma_split_on_nonempty(s, sep);
    let before = s.drop_last();
    lemma_split_on_nonempty(before, sep);
    let pieces = split_on(before, sep);
    if s.len() > 1 {
        lemma_split_on_prefix(before, sep);
        if s.last() != sep && pieces.len() == 1 {
            assert(pieces.last().push(s.last())[0] == pieces[0][0]);
        }
    } else {
        assert(before.len() == 0);
        assert(pieces.last().push(s.last())[0] == s.last());
    }
}

fn is_space_char(c: char) -> (r: bool)
    ensures
        r == is_space(c),
{
    ('\u{9}' <= c && c <= '\u{d}') || c == ' ' || c == '\u{85}' || c == '\u{a0}' || c
        == '\u{1680}' || ('\u{2000}' <= c && c <= '\u{200a}') || c == '\u{2028}' || c
        == '\u{2029}' || c == '\u{202f}' || c == '\u{205f}' || c == '\u{3000}'
}

fn starts_with_http(p: &Vec<char>) -> (r: bool)
    ensures
        r == (p@.len() >= 4 && p@.take(4) == "http"@),
{
    proof {
        reveal_strlit("http");
    }
    if p.len() >= 4 && p[0] == 'h' && p[1] == 't' && p[2] == 't' && p[3] == 'p' {
        assert(p@.take(4) =~= "http"@);
        true
    } else {
        if p.len() >= 4 {
            assert(p@.take(4)[0] == p@[0] && p@.take(4)[1] == p@[1]);
            assert(p@.take(4)[2] == p@[2] && p@.take(4)[3] == p@[3]);
        }
        false
    }
}

/// The record of one header line.
fn parse_line(line: &Vec<char>) -> (r: CrateInfo)
    ensures
        r@ == line_record(line@),
{
    let tokens = split_chars(line, ' ');
    proof {
        lemma_split_on_nonempty(line@, ' ');
    }
    let name = string_from_chars(&tokens[0]);
    let current = if tokens.len() >= 2 {
        let version = trim_start_chars(&trim_end_chars(&tokens[1], ':'), 'v');
        string_from_chars(&version)
    } else {
        String::new()
    };
    let kind = if tokens.len() >= 3 {
        let p = trim_delim_chars(&tokens[2]);
        let source = string_from_chars(&p);
        if starts_with_http(&p) {
            CrateKind::Git(source)
        } else {
            CrateKind::Local(source)
        }
    } else {
        CrateKind::Cratesio(String::new())
    };
    CrateInfo::new(name, current, kind)
}

/// Line `k` of the pieces of a text split at line feeds.
fn line_at(pieces: &Vec<Vec<char>>, k: usize) -> (r: Vec<char>)
    requires
        k < pieces@.len(),
    ensures
        r@ == (if k + 1 < pieces@.len() {
            strip_cr(pieces@[k as int]@)
        } else {
            pieces@[k as int]@
        }),
{
    let p = &pieces[k];
    let n = p.len();
    if k < pieces.len() - 1 && n > 0 && p[n - 1] == '\r' {
        sub_chars(p, 0, n - 1)
    } else {
        let r = sub_chars(p, 0, n);
        assert(p@.subrange(0, n as int) == p@);
        r
    }
}

/// The records of a listing, one per header line, in order.
pub fn parse_listing(text: &str) -> (r: Vec<CrateInfo>)
    ensures
        r@.len() == listing_records(text@).len(),
        forall|i: int| 0 <= i < r@.len() ==> #[trigger] r@[i]@ == listing_records(text@)[i],
{
    let chars = chars_of(text);
    let pieces = split_chars(&chars, '\n');
    let ghost lines = text_lines(text@);
    let mut crates: Vec<CrateInfo> = Vec::new();
    let mut k: usize = 0;
    while k < pieces.len()
        invariant
            k <= pieces@.len(),
            lines.len() == pieces@.len(),
            lines == text_lines(text@),
            pieces@.len() == split_on(chars@, '\n').len(),
            chars@ == text@,
            forall|j: int| 0 <= j < pieces@.len() ==> #[trigger] pieces@[j]@ == split_on(chars@, '\n')[j],
            crates@.len() == records_of(lines.take(k as int)).len(),
            forall|i: int|
                0 <= i < crates@.len() ==> #[trigger] crates@[i]@ == records_of(lines.take(k as int))[i],
        decreases pieces@.len() - k,
    {
        let line = line_at(&pieces, k);
        assert(line@ == lines[k as int]);
        assert(lines.take(k + 1).drop_last() == lines.take(k as int));
        assert(lines.take(k + 1).last() == lines[k as int]);
        let header = line.len() > 0 && !is_space_char(line[0]);
        if header {
            let record = parse_line(&line);
            crates.push(record);
        }
        k = k + 1;
    }
    assert(lines.take(pieces@.len() as int) == lines);
    crates
}

} // verus!
