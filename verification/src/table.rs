//! The sample table: its lines, the fields of a line, and loading a whole
//! table into a store.

use crate::error::OneKpError;
use crate::store::{find_prefix, pushed, OneKp, OneKpView};
use crate::text::{
    chars_of, slice_texts, split, split_chars, string_of, texts, trim, trim_bounds,
};
use vstd::prelude::*;

verus! {

/// What stands for a field that a row lacks.
pub open spec fn no_data() -> Seq<char> {
    "No data"@
}

/// The fields of a row, filled up to six.
pub open spec fn padded(fields: Seq<Seq<char>>) -> Seq<Seq<char>> {
    if fields.len() >= 6 {
        fields
    } else {
        fields + Seq::new((6 - fields.len()) as nat, |i: int| no_data())
    }
}

/// The fields of a line: its pieces between tabs, filled up to six.
pub open spec fn row_fields(line: Seq<char>) -> Seq<Seq<char>> {
    padded(split(line, '\t'))
}

/// The lines that hold a row: each line without the white space around
/// it, the empty ones left out.
pub open spec fn rows_among(lines: Seq<Seq<char>>) -> Seq<Seq<char>> {
    lines.map_values(|l: Seq<char>| trim(l)).filter(|l: Seq<char>| l.len() > 0)
}

/// The rows of a table: those among its lines after the header line.
pub open spec fn data_lines(tsv: Seq<char>) -> Seq<Seq<char>> {
    rows_among(split(tsv, '\n').skip(1))
}

/// The store after the rows are offered to it one by one, up to the first
/// whose identifier has no entry in the listing, and that identifier.
pub open spec fn loaded(s: OneKpView, rows: Seq<Seq<char>>) -> (OneKpView, Option<Seq<char>>)
    decreases rows.len(),
{
    if rows.len() == 0 {
        (s, None)
    } else {
        let fields = row_fields(rows[0]);
        match find_prefix(s.links, fields[0]) {
            None => (s, Some(fields[0])),
            Some(_) => loaded(pushed(s, fields), rows.drop_first()),
        }
    }
}

/// Filling up keeps every given field at its place, puts `"No data"` at
/// each place below six that the row lacks, and adds nothing to a row of
/// six fields or more.
pub proof fn lemma_padded(fields: Seq<Seq<char>>)
    ensures
        padded(fields).len() == if fields.len() >= 6 {
            fields.len()
        } else {
            6
        },
        forall|i: int| 0 <= i < fields.len() ==> padded(fields)[i] == fields[i],
        forall|i: int| fields.len() <= i < 6 ==> padded(fields)[i] == no_data(),
{
}

/// The rows among some lines are the first line's row, if it holds one,
/// and the rows among the others.
pub proof fn lemma_rows_among_step(lines: Seq<Seq<char>>)
    requires
        lines.len() > 0,
    ensures
        rows_among(lines) == if trim(lines[0]).len() > 0 {
            seq![trim(lines[0])] + rows_among(lines.drop_first())
        } else {
            rows_among(lines.drop_first())
        },
{
    let f = |l: Seq<char>| trim(l);
    let p = |l: Seq<char>| l.len() > 0;
    let rest = lines.drop_first().map_values(f);
    assert(lines.map_values(f) =~= seq![trim(lines[0])] + rest);
    rest.lemma_filter_prepend(trim(lines[0]), p);
    if trim(lines[0]).len() == 0 {
        assert(Seq::<Seq<char>>::empty() + rest.filter(p) =~= rest.filter(p));
    }
}

/// Fills a row up to six fields.
pub fn pad_fields<'a>(attrs: Vec<&'a str>) -> (out: Vec<&'a str>)
    ensures
        slice_texts(out@) == padded(slice_texts(attrs@)),
{
    let ghost given = slice_texts(attrs@);
    let mut out = attrs;
    while out.len() < 6
        invariant
            given.len() <= out.len(),
            out.len() <= 6 || out.len() == given.len(),
            slice_texts(out@) == given + Seq::new((out.len() - given.len()) as nat, |i: int| no_data()),
        decreases 6 - out.len(),
    {
        let ghost prev = slice_texts(out@);
        out.push("No data");
        assert(slice_texts(out@) =~= prev.push(no_data()));
        assert(slice_texts(out@) =~= given + Seq::new(
            (out.len() - given.len()) as nat,
            |i: int| no_data(),
        ));
    }
    assert(slice_texts(out@) =~= padded(given));
    out
}

/// The strings of the pieces of `line[from..to]` between tabs.
fn tab_fields(line: &Vec<char>, from: usize, to: usize) -> (out: Vec<String>)
    requires
        from <= to <= line.len(),
    ensures
        texts(out@) == split(line@.subrange(from as int, to as int), '\t'),
{
    let mut part: Vec<char> = Vec::new();
    let mut k: usize = from;
    while k < to
        invariant
            from <= k <= to <= line.len(),
            part@ == line@.subrange(from as int, k as int),
        decreases to - k,
    {
        part.push(line[k]);
        k += 1;
        assert(line@.subrange(from as int, k as int) =~= line@.subrange(from as int, k - 1).push(
            line@[k - 1],
        ));
    }
    let pieces = split_chars(&part, '\t');
    let mut out: Vec<String> = Vec::new();
    let mut j: usize = 0;
    while j < pieces.len()
        invariant
            j <= pieces.len(),
            out.len() == j,
            forall|m: int| 0 <= m < j ==> (#[trigger] out@[m])@ == pieces@[m]@,
        decreases pieces.len() - j,
    {
        let piece = &pieces[j];
        let s = string_of(piece, 0, piece.len());
        assert(piece@.subrange(0, piece.len() as int) =~= piece@);
        out.push(s);
        j += 1;
    }
    assert(texts(out@) =~= split(part@, '\t'));
    out
}

/// The given strings as slices.
fn as_slices<'a>(fields: &'a Vec<String>) -> (out: Vec<&'a str>)
    ensures
        slice_texts(out@) == texts(fields@),
{
    let mut out: Vec<&'a str> = Vec::new();
    let mut j: usize = 0;
    while j < fields.len()
        invariant
            j <= fields.len(),
            out.len() == j,
            forall|m: int| 0 <= m < j ==> (#[trigger] out@[m])@ == fields@[m]@,
        decreases fields.len() - j,
    {
        out.push(fields[j].as_str());
        j += 1;
    }
    assert(slice_texts(out@) =~= texts(fields@));
    out
}

/// Loads a table of samples: the first line is a header and is passed
/// over, and so is every line that is empty once the white space around
/// it is gone; each other line is a row of fields between tabs, filled up
/// to six with `"No data"`. The rows are added in order. The first row
/// whose identifier has no entry in the listing ends the load with an
/// error; the rows before it stay.
pub fn load_table(store: &mut OneKp, tsv: &str) -> (res: Result<(), OneKpError>)
    requires
        old(store).wf(),
    ensures
        final(store).wf(),
        final(store)@ == loaded(old(store)@, data_lines(tsv@)).0,
        match loaded(old(store)@, data_lines(tsv@)).1 {
            None => res is Ok,
            Some(missing) => res matches Err(OneKpError::PrefixNotFound { id }) && id@ == missing,
        },
{
    let chars = chars_of(tsv);
    let lines = split_chars(&chars, '\n');
    let ghost all = split(tsv@, '\n');
    let ghost start = store@;
    proof {
        crate::text::lemma_split_pieces(tsv@, '\n');
    }
    let mut i: usize = 1;
    while i < lines.len()
        invariant
            1 <= i <= lines.len(),
            start == old(store)@,
            all == split(tsv@, '\n'),
            lines@.len() == all.len(),
            forall|k: int| 0 <= k < lines@.len() ==> (#[trigger] lines@[k])@ == all[k],
            store.wf(),
            loaded(start, rows_among(all.skip(1))) == loaded(store@, rows_among(all.skip(i as int))),
        decreases lines.len() - i,
    {
        let line = &lines[i];
        let (from, to) = trim_bounds(line);
        proof {
            lemma_rows_among_step(all.skip(i as int));
            assert(all.skip(i as int).drop_first() =~= all.skip(i + 1));
            assert(all.skip(i as int)[0] == line@);
        }
        if from < to {
            let fields = tab_fields(line, from, to);
            let ghost rows = rows_among(all.skip(i as int));
            assert(rows[0] == trim(line@));
            assert(rows.drop_first() =~= rows_among(all.skip(i + 1)));
            let attrs = as_slices(&fields);
            proof {
                crate::text::lemma_split_pieces(trim(line@), '\t');
                assert(padded(slice_texts(attrs@)) == row_fields(trim(line@)));
                assert(attrs@.len() == slice_texts(attrs@).len());
                assert(slice_texts(attrs@)[0] == attrs@[0]@);
            }
            let ghost before = store@;
            let ghost fields_view = padded(slice_texts(attrs@));
            match store.push_record(attrs) {
                Ok(()) => {},
                Err(e) => {
                    assert(rows.len() > 0);
                    assert(loaded(before, rows) == (before, Some(fields_view[0])));
                    return Err(e);
                },
            }
        }
        i += 1;
    }
    assert(all.skip(i as int) =~= Seq::<Seq<char>>::empty());
    assert(rows_among(all.skip(i as int)) =~= Seq::<Seq<char>>::empty()) by {
        reveal(Seq::filter);
    }
    Ok(())
}

} // verus!
