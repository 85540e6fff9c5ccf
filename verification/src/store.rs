//! The store of records: the directory listing of the archive, the rows of
//! the sample table matched against it, and queries by field.

use crate::error::OneKpError;
use crate::record::{field_of, record_views, OneKpKey, OneKpRecord, RecordView};
use crate::table::{pad_fields, padded};
use crate::text::{
    chars_lt, chars_of, is_prefix, lemma_lex_irreflexive, lemma_lex_total, lemma_lex_transitive,
    lex_lt, slice_texts, starts_with, string_of, strip_trailing, strip_trailing_len, texts,
};
use select::document::Document;
use select::predicate::Name;
use vstd::prelude::*;

verus! {

/// The most characters of a document that the parser takes: its buffer
/// holds the text in at most `u32::MAX` bytes, and a character takes up
/// to four.
pub const MAX_DOCUMENT_CHARS: usize = 0x3FFF_FFFF;

/// The `href` attribute of each anchor element of an HTML document, in
/// document order; `None` for an anchor without one.
pub uninterp spec fn anchor_hrefs(html: Seq<char>) -> Seq<Option<Seq<char>>>;

/// The views of a sequence of optional strings.
pub open spec fn option_texts(v: Seq<Option<String>>) -> Seq<Option<Seq<char>>> {
    Seq::new(
        v.len(),
        |i: int|
            match v[i] {
                Some(s) => Some(s@),
                None => None,
            },
    )
}

/// What an anchor contributes to the listing: its target without the
/// slashes at its end, if it has a target.
pub open spec fn entry_of(href: Option<Seq<char>>) -> Option<Seq<char>> {
    match href {
        Some(t) => Some(strip_trailing(t, '/')),
        None => None,
    }
}

/// The directory listing that a document's anchors give.
pub open spec fn links_of(hrefs: Seq<Option<Seq<char>>>) -> Seq<Seq<char>> {
    hrefs.filter_map(|h: Option<Seq<char>>| entry_of(h))
}

/// The first entry of the listing that starts with `id`.
pub open spec fn find_prefix(links: Seq<Seq<char>>, id: Seq<char>) -> Option<Seq<char>>
    decreases links.len(),
{
    if links.len() == 0 {
        None
    } else if is_prefix(id, links[0]) {
        Some(links[0])
    } else {
        find_prefix(links.drop_first(), id)
    }
}

/// The record that a row of at least six fields gives, under `prefix`.
pub open spec fn row_record(fields: Seq<Seq<char>>, prefix: Seq<char>) -> RecordView {
    RecordView {
        id: fields[0],
        clade: fields[1],
        order: fields[2],
        family: fields[3],
        species: fields[4],
        tissue_type: fields[5],
        prefix,
    }
}

/// What a store holds.
pub struct OneKpView {
    pub links: Seq<Seq<char>>,
    pub records: Seq<RecordView>,
}

/// The store after a row is offered to it: one record longer where the
/// listing has an entry for the row's identifier, unchanged where not.
pub open spec fn pushed(s: OneKpView, fields: Seq<Seq<char>>) -> OneKpView {
    match find_prefix(s.links, fields[0]) {
        Some(p) => OneKpView { links: s.links, records: s.records.push(row_record(fields, p)) },
        None => s,
    }
}

/// Every record stands under the first entry that starts with its identifier.
pub open spec fn consistent(s: OneKpView) -> bool {
    forall|i: int|
        0 <= i < s.records.len() ==> find_prefix(s.links, (#[trigger] s.records[i]).id) == Some(
            s.records[i].prefix,
        )
}

/// The test that `filter` applies to a record.
pub open spec fn is_selected(key: OneKpKey, values: Seq<Seq<char>>) -> spec_fn(RecordView) -> bool {
    |r: RecordView| values.contains(field_of(r, key))
}

/// The records whose field `key` is one of `values`, in the order of the store.
pub open spec fn selected(records: Seq<RecordView>, key: OneKpKey, values: Seq<Seq<char>>) -> Seq<
    RecordView,
> {
    records.filter(is_selected(key, values))
}

/// The field `key` of each record.
pub open spec fn field_values(records: Seq<RecordView>, key: OneKpKey) -> Seq<Seq<char>> {
    Seq::new(records.len(), |i: int| field_of(records[i], key))
}

/// Each text comes before every later one in the lexical order.
pub open spec fn strictly_ascending(v: Seq<Seq<char>>) -> bool {
    forall|i: int, j: int| 0 <= i < j < v.len() ==> lex_lt(#[trigger] v[i], #[trigger] v[j])
}

/// The places in the store of the records that `filter` hands out.
pub open spec fn selected_positions(
    records: Seq<RecordView>,
    key: OneKpKey,
    values: Seq<Seq<char>>,
) -> Seq<int>
    decreases records.len(),
{
    if records.len() == 0 {
        Seq::<int>::empty()
    } else {
        let before = selected_positions(records.drop_last(), key, values);
        if values.contains(field_of(records.last(), key)) {
            before.push(records.len() - 1)
        } else {
            before
        }
    }
}

/// A query keeps the order of the store: its results are the records at
/// strictly increasing places, each a record whose field is among the
/// values, and no such record is left out.
pub proof fn lemma_filter_preserves_order(
    records: Seq<RecordView>,
    key: OneKpKey,
    values: Seq<Seq<char>>,
)
    ensures
        selected(records, key, values).len() == selected_positions(records, key, values).len(),
        forall|a: int|
            0 <= a < selected_positions(records, key, values).len() ==> {
                let p = #[trigger] selected_positions(records, key, values)[a];
                0 <= p < records.len() && selected(records, key, values)[a] == records[p]
                    && values.contains(field_of(records[p], key))
            },
        forall|a: int, b: int|
            0 <= a < b < selected_positions(records, key, values).len() ==> (
            #[trigger] selected_positions(records, key, values)[a]) < (#[trigger] selected_positions(
                records,
                key,
                values,
            )[b]),
        forall|i: int|
            0 <= i < records.len() && values.contains(field_of(#[trigger] records[i], key))
                ==> selected_positions(records, key, values).contains(i),
    decreases records.len(),
{
    reveal(Seq::filter);
    if records.len() > 0 {
        let rest = records.drop_last();
        lemma_filter_preserves_order(rest, key, values);
        let before = selected_positions(rest, key, values);
        let now = selected_positions(records, key, values);
        assert(is_selected(key, values)(records.last()) == values.contains(
            field_of(records.last(), key),
        ));
        assert forall|i: int|
            0 <= i < records.len() && values.contains(
                field_of(#[trigger] records[i], key),
            ) implies now.contains(i) by {
            if i < records.len() - 1 {
                assert(rest[i] == records[i]);
                let a = choose|a: int| 0 <= a < before.len() && before[a] == i;
                assert(now[a] == i);
            } else {
                assert(now[now.len() - 1] == i);
            }
        }
    }
}

/// A query for values that no record has in the chosen field finds nothing.
pub proof fn lemma_filter_disjoint_is_empty(
    records: Seq<RecordView>,
    key: OneKpKey,
    values: Seq<Seq<char>>,
)
    requires
        forall|i: int| 0 <= i < records.len() ==> !values.contains(field_of(#[trigger] records[i], key)),
    ensures
        selected(records, key, values) == Seq::<RecordView>::empty(),
    decreases records.len(),
{
    reveal(Seq::filter);
    if records.len() > 0 {
        let rest = records.drop_last();
        assert forall|i: int| 0 <= i < rest.len() implies !values.contains(
            field_of(#[trigger] rest[i], key),
        ) by {
            assert(rest[i] == records[i]);
        }
        lemma_filter_disjoint_is_empty(rest, key, values);
        assert(!values.contains(field_of(records[records.len() - 1], key)));
    }
    assert(selected(records, key, values) =~= Seq::<RecordView>::empty());
}

/// A row whose identifier has an entry in the listing, offered to a store
/// that holds no record of that identifier, is afterwards the one record
/// that a query for the identifier finds, with every field as it was given.
pub proof fn lemma_push_then_filter_by_id(s: OneKpView, fields: Seq<Seq<char>>)
    requires
        fields.len() >= 6,
        find_prefix(s.links, fields[0]) is Some,
        forall|i: int| 0 <= i < s.records.len() ==> (#[trigger] s.records[i]).id != fields[0],
    ensures
        selected(pushed(s, fields).records, OneKpKey::Id, seq![fields[0]]) == seq![
            row_record(fields, find_prefix(s.links, fields[0])->0),
        ],
{
    let values = seq![fields[0]];
    let rec = row_record(fields, find_prefix(s.links, fields[0])->0);
    assert(values[0] == fields[0]);
    assert forall|i: int| 0 <= i < s.records.len() implies !values.contains(
        field_of(#[trigger] s.records[i], OneKpKey::Id),
    ) by {
        if values.contains(s.records[i].id) {
            let k = choose|k: int| 0 <= k < values.len() && values[k] == s.records[i].id;
        }
    }
    lemma_filter_disjoint_is_empty(s.records, OneKpKey::Id, values);
    s.records.lemma_filter_push(rec, is_selected(OneKpKey::Id, values));
    assert(values.contains(field_of(rec, OneKpKey::Id)));
    assert(selected(pushed(s, fields).records, OneKpKey::Id, values) =~= seq![rec]);
}

/// A row whose identifier no entry of the listing starts with finds no
/// prefix, and offering it leaves the records and the listing as they were.
pub proof fn lemma_push_without_entry(s: OneKpView, fields: Seq<Seq<char>>)
    requires
        fields.len() >= 1,
        forall|j: int| 0 <= j < s.links.len() ==> !is_prefix(fields[0], #[trigger] s.links[j]),
    ensures
        find_prefix(s.links, fields[0]) is None,
        pushed(s, padded(fields)) == s,
{
    lemma_find_prefix(s.links, fields[0]);
    assert(padded(fields)[0] == fields[0]);
}

/// The first entry that starts with an identifier is an entry of the
/// listing, starts with the identifier, and has no such entry before it;
/// there is none exactly when no entry starts with the identifier.
pub proof fn lemma_find_prefix(links: Seq<Seq<char>>, id: Seq<char>)
    ensures
        match find_prefix(links, id) {
            Some(p) => exists|i: int|
                0 <= i < links.len() && #[trigger] links[i] == p && is_prefix(id, p) && forall|j: int|
                    0 <= j < i ==> !is_prefix(id, #[trigger] links[j]),
            None => forall|j: int| 0 <= j < links.len() ==> !is_prefix(id, #[trigger] links[j]),
        },
    decreases links.len(),
{
    if links.len() > 0 && !is_prefix(id, links[0]) {
        let rest = links.drop_first();
        lemma_find_prefix(rest, id);
        match find_prefix(rest, id) {
            Some(p) => {
                let i = choose|i: int|
                    0 <= i < rest.len() && #[trigger] rest[i] == p && is_prefix(id, p) && forall|j: int|
                        0 <= j < i ==> !is_prefix(id, #[trigger] rest[j]);
                assert(links[i + 1] == p);
                assert forall|j: int| 0 <= j < i + 1 implies !is_prefix(id, #[trigger] links[j]) by {
                    if j > 0 {
                        assert(links[j] == rest[j - 1]);
                    }
                }
            },
            None => {
                assert forall|j: int| 0 <= j < links.len() implies !is_prefix(
                    id,
                    #[trigger] links[j],
                ) by {
                    if j > 0 {
                        assert(links[j] == rest[j - 1]);
                    }
                }
            },
        }
    } else if links.len() > 0 {
        assert(links[0] == links[0]);
    }
}

/// The directory listing and the records matched against it.
#[derive(Debug, Clone)]
pub struct OneKp {
    links: Vec<String>,
    records: Vec<OneKpRecord>,
}

impl View for OneKp {
    type V = OneKpView;

    closed spec fn view(&self) -> OneKpView {
        OneKpView { links: texts(self.links@), records: record_views(self.records@) }
    }
}

/// `Document::from`, `Document::find` with `Name("a")` and `Node::attr`
/// with `"href"`: parses `html` and hands out, for each anchor element in
/// document order, its `href` attribute if it has one. The parser copies
/// the text into a buffer of at most `u32::MAX` bytes and panics on a
/// longer one, so such a text is left out.
#[verifier::external_body]
fn parse_anchor_hrefs(html: &str) -> (out: Vec<Option<String>>)
    requires
        html@.len() <= 0x3FFF_FFFF,
    ensures
        option_texts(out@) == anchor_hrefs(html@),
{
    let document = Document::from(html);
    let mut out: Vec<Option<String>> = Vec::new();
    for node in document.find(Name("a")) {
        out.push(node.attr("href").map(str::to_string));
    }
    out
}

/// Whether `s` is one of `values`.
pub fn contains_text(values: &[String], s: &String) -> (r: bool)
    ensures
        r == texts(values@).contains(s@),
{
    let mut i: usize = 0;
    while i < values.len()
        invariant
            i <= values.len(),
            forall|k: int| 0 <= k < i ==> texts(values@)[k] != s@,
        decreases values.len() - i,
    {
        if values[i] == *s {
            assert(texts(values@)[i as int] == s@);
            return true;
        }
        i += 1;
    }
    false
}

/// Puts `s` at its place in an ascending sequence, unless it is there already.
pub fn insert_sorted(out: &mut Vec<String>, s: &String)
    requires
        strictly_ascending(texts(old(out)@)),
    ensures
        strictly_ascending(texts(final(out)@)),
        forall|t: Seq<char>| #[trigger]
            texts(final(out)@).contains(t) <==> (texts(old(out)@).contains(t) || t == s@),
{
    let sc = chars_of(s.as_str());
    let ghost before = texts(out@);
    let mut i: usize = 0;
    let mut found = false;
    while i < out.len() && !found
        invariant
            i <= out.len(),
            texts(out@) == before,
            sc@ == s@,
            forall|k: int| 0 <= k < i ==> lex_lt(#[trigger] before[k], s@),
            found ==> i < out.len() && !lex_lt(before[i as int], s@),
        decreases out.len() - i + (if found { 0int } else { 1int }),
    {
        let oc = chars_of(out[i].as_str());
        if chars_lt(&oc, &sc) {
            i += 1;
        } else {
            found = true;
        }
    }
    if i < out.len() {
        let oc = chars_of(out[i].as_str());
        if !chars_lt(&sc, &oc) {
            proof {
                lemma_lex_total(before[i as int], s@);
                assert(before.contains(s@));
            }
            return ;
        }
    }
    out.insert(i, s.clone());
    proof {
        let after = texts(out@);
        assert(after.len() == before.len() + 1);
        assert(after[i as int] == s@);
        assert forall|k: int| 0 <= k < i implies after[k] == before[k] by {}
        assert forall|k: int| i < k < after.len() implies after[k] == before[k - 1] by {}
        assert forall|a: int, b: int| 0 <= a < b < after.len() implies lex_lt(
            #[trigger] after[a],
            #[trigger] after[b],
        ) by {
            if b < i {
            } else if b == i {
            } else if a < i {
                lemma_lex_transitive(before[a], s@, before[i as int]);
                if b - 1 > i {
                    lemma_lex_transitive(before[a], before[i as int], before[b - 1]);
                }
            } else if a == i {
                if b - 1 > i {
                    lemma_lex_transitive(s@, before[i as int], before[b - 1]);
                }
            } else {
            }
        }
        assert forall|t: Seq<char>| #[trigger]
            after.contains(t) <==> (before.contains(t) || t == s@) by {
            if after.contains(t) {
                let k = choose|k: int| 0 <= k < after.len() && after[k] == t;
                if k < i {
                    assert(before[k] == t);
                } else if k > i {
                    assert(before[k - 1] == t);
                }
            }
            if before.contains(t) {
                let k = choose|k: int| 0 <= k < before.len() && before[k] == t;
                if k < i {
                    assert(after[k] == t);
                } else {
                    assert(after[k + 1] == t);
                }
            }
        }
    }
}

impl OneKp {
    /// The validity of a store.
    pub open spec fn wf(&self) -> bool {
        consistent(self@)
    }

    /// An empty store over the listing that the anchors' targets give.
    pub fn from_hrefs(hrefs: &Vec<Option<String>>) -> (out: Self)
        ensures
            out@.links == links_of(option_texts(hrefs@)),
            out@.records.len() == 0,
            out.wf(),
    {
        let ghost all = option_texts(hrefs@);
        let ghost f = |h: Option<Seq<char>>| entry_of(h);
        let mut links: Vec<String> = Vec::new();
        let mut i: usize = 0;
        assert(all.take(0).filter_map(f) =~= texts(links@));
        while i < hrefs.len()
            invariant
                i <= hrefs.len(),
                all == option_texts(hrefs@),
                f == (|h: Option<Seq<char>>| entry_of(h)),
                texts(links@) == all.take(i as int).filter_map(f),
            decreases hrefs.len() - i,
        {
            proof {
                all.lemma_filter_map_take_succ(f, i as int);
            }
            match &hrefs[i] {
                Some(h) => {
                    let hc = chars_of(h.as_str());
                    let n = strip_trailing_len(&hc, '/');
                    let ghost prev = texts(links@);
                    links.push(string_of(&hc, 0, n));
                    assert(hc@.subrange(0, n as int) =~= hc@.take(n as int));
                    assert(texts(links@) =~= prev + seq![strip_trailing(h@, '/')]);
                },
                None => {
                    assert(all.take(i as int).filter_map(f) + Seq::<Seq<char>>::empty()
                        =~= all.take(i as int).filter_map(f));
                },
            }
            i += 1;
        }
        assert(all.take(i as int) =~= all);
        let out = OneKp { links, records: Vec::new() };
        assert(out@.records =~= Seq::<RecordView>::empty());
        out
    }

    /// An empty store over the listing read from an HTML directory index
    /// of at most `MAX_DOCUMENT_CHARS` characters, which is what the
    /// parser takes.
    pub fn new(table_index: &str) -> (out: Self)
        requires
            table_index@.len() <= MAX_DOCUMENT_CHARS,
        ensures
            out@.links == links_of(anchor_hrefs(table_index@)),
            out@.records.len() == 0,
            out.wf(),
    {
        let hrefs = parse_anchor_hrefs(table_index);
        OneKp::from_hrefs(&hrefs)
    }

    /// The index of the first entry that starts with `id`.
    fn find_link(&self, id: &Vec<char>) -> (out: Option<usize>)
        ensures
            match out {
                Some(i) => i < self.links.len() && find_prefix(self@.links, id@) == Some(
                    self.links[i as int]@,
                ),
                None => find_prefix(self@.links, id@) is None,
            },
    {
        let ghost all = texts(self.links@);
        let mut i: usize = 0;
        assert(all.skip(0) =~= all);
        while i < self.links.len()
            invariant
                i <= self.links.len(),
                all == texts(self.links@),
                find_prefix(all, id@) == find_prefix(all.skip(i as int), id@),
            decreases self.links.len() - i,
        {
            let link = chars_of(self.links[i].as_str());
            if starts_with(&link, id) {
                return Some(i);
            }
            assert(all.skip(i as int).drop_first() =~= all.skip(i + 1));
            i += 1;
        }
        None
    }

    /// Adds the record of a row: identifier, clade, order, family, species
    /// and tissue type, in this order. A row of fewer than six fields is
    /// first filled up with `"No data"`; fields after the sixth are not
    /// kept. Fails with the identifier, and leaves the store as it was,
    /// where no entry of the listing starts with the identifier.
    pub fn push_record(&mut self, attrs: Vec<&str>) -> (res: Result<(), OneKpError>)
        requires
            attrs.len() >= 1,
            old(self).wf(),
        ensures
            final(self).wf(),
            final(self)@ == pushed(old(self)@, padded(slice_texts(attrs@))),
            final(self)@.links == old(self)@.links,
            res is Err ==> final(self)@ == old(self)@,
            res is Ok ==> final(self)@.records.len() == old(self)@.records.len() + 1,
            match find_prefix(old(self)@.links, attrs[0]@) {
                Some(_) => res is Ok,
                None => res matches Err(OneKpError::PrefixNotFound { id }) && id@ == attrs[0]@,
            },
    {
        let ghost given = slice_texts(attrs@);
        assert(given[0] == attrs[0]@);
        let row = pad_fields(attrs);
        let ghost fields = slice_texts(row@);
        assert(row@.len() == fields.len());
        assert(fields[0] == given[0]);
        assert(forall|k: int| 0 <= k < 6 ==> fields[k] == (#[trigger] row@[k])@);
        let id = String::from_str(row[0]);
        let id_chars = chars_of(row[0]);
        match self.find_link(&id_chars) {
            Some(i) => {
                let prefix = self.links[i].clone();
                let ghost before = self@;
                let rec = OneKpRecord::new(
                    id,
                    String::from_str(row[1]),
                    String::from_str(row[2]),
                    String::from_str(row[3]),
                    String::from_str(row[4]),
                    String::from_str(row[5]),
                    prefix,
                );
                self.records.push(rec);
                assert(self@.records =~= before.records.push(row_record(fields, prefix@)));
                Ok(())
            },
            None => Err(OneKpError::PrefixNotFound { id }),
        }
    }

    /// The records whose field `key` is one of `values`, as copies, in the
    /// order of the store.
    pub fn filter(&self, key: OneKpKey, values: &[String]) -> (out: Vec<OneKpRecord>)
        ensures
            record_views(out@) == selected(self@.records, key, texts(values@)),
    {
        let ghost pred = is_selected(key, texts(values@));
        let ghost all = self@.records;
        let mut out: Vec<OneKpRecord> = Vec::new();
        let mut i: usize = 0;
        proof {
            reveal(Seq::filter);
            assert(record_views(out@) =~= all.take(0).filter(pred));
        }
        while i < self.records.len()
            invariant
                i <= self.records.len(),
                all == self@.records,
                pred == is_selected(key, texts(values@)),
                record_views(out@) == all.take(i as int).filter(pred),
            decreases self.records.len() - i,
        {
            let rec = &self.records[i];
            proof {
                assert(all.take(i + 1) =~= all.take(i as int).push(all[i as int]));
                all.take(i as int).lemma_filter_push(all[i as int], pred);
            }
            if contains_text(values, rec.field(key)) {
                let ghost prev = record_views(out@);
                out.push(rec.clone());
                assert(record_views(out@) =~= prev.push(rec@));
            }
            i += 1;
        }
        assert(all.take(i as int) =~= all);
        out
    }

    /// The values that the field `key` takes over the records, each once,
    /// in ascending lexical order.
    pub fn distinct_values(&self, key: OneKpKey) -> (out: Vec<String>)
        ensures
            strictly_ascending(texts(out@)),
            texts(out@).no_duplicates(),
            forall|t: Seq<char>| #[trigger]
                texts(out@).contains(t) <==> field_values(self@.records, key).contains(t),
    {
        let ghost all = field_values(self@.records, key);
        let mut out: Vec<String> = Vec::new();
        let mut i: usize = 0;
        while i < self.records.len()
            invariant
                i <= self.records.len(),
                all == field_values(self@.records, key),
                strictly_ascending(texts(out@)),
                forall|t: Seq<char>| #[trigger]
                    texts(out@).contains(t) <==> all.take(i as int).contains(t),
            decreases self.records.len() - i,
        {
            let ghost prev = texts(out@);
            insert_sorted(&mut out, self.records[i].field(key));
            proof {
                let v = all[i as int];
                let cur = all.take(i as int);
                let next = all.take(i + 1);
                assert(next =~= cur.push(v));
                assert forall|t: Seq<char>| #[trigger]
                    texts(out@).contains(t) <==> next.contains(t) by {
                    if next.contains(t) {
                        let k = choose|k: int| 0 <= k < next.len() && next[k] == t;
                        if k < i {
                            assert(cur[k] == t);
                        }
                    }
                    if cur.contains(t) {
                        let k = choose|k: int| 0 <= k < cur.len() && cur[k] == t;
                        assert(next[k] == t);
                    }
                    assert(next[i as int] == v);
                }
            }
            i += 1;
        }
        proof {
            assert(all.take(i as int) =~= all);
            let done = texts(out@);
            assert forall|a: int, b: int| 0 <= a < done.len() && 0 <= b < done.len() && a != b implies done[a]
                != done[b] by {
                lemma_lex_irreflexive(done[a]);
            }
        }
        out
    }

    /// The number of records.
    pub fn len(&self) -> (n: usize)
        ensures
            n == self@.records.len(),
    {
        self.records.len()
    }

    /// The records, in the order in which they were added.
    pub fn records(&self) -> (out: &Vec<OneKpRecord>)
        ensures
            record_views(out@) == self@.records,
    {
        &self.records
    }

    /// The directory listing.
    pub fn links(&self) -> (out: &Vec<String>)
        ensures
            texts(out@) == self@.links,
    {
        &self.links
    }
}

} // verus!
