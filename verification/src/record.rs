//! Records of the sample table, the keys that select one of their fields,
//! and the names under which a record's sequence files are found and kept.

use vstd::prelude::*;
use vstd::string::StringExecFns;

verus! {

/// Which of a sample's sequence files to fetch.
#[derive(Debug, Clone, Copy, PartialEq, Eq)]
pub enum SequenceType {
    Nucleotide,
    Protein,
    Both,
}

/// A field of a record.
#[derive(Debug, Clone, Copy, PartialEq, Eq)]
pub enum OneKpKey {
    Id,
    Clade,
    Order,
    Family,
    Species,
    TissueType,
}

/// One sample: the six fields of its row in the sample table, and the
/// directory under which the archive keeps its files.
#[derive(Debug)]
pub struct OneKpRecord {
    id: String,
    clade: String,
    order: String,
    family: String,
    species: String,
    tissue_type: String,
    prefix: String,
}

/// What a record holds, as plain sequences of characters.
pub struct RecordView {
    pub id: Seq<char>,
    pub clade: Seq<char>,
    pub order: Seq<char>,
    pub family: Seq<char>,
    pub species: Seq<char>,
    pub tissue_type: Seq<char>,
    pub prefix: Seq<char>,
}

/// The field of `r` that `key` selects.
pub open spec fn field_of(r: RecordView, key: OneKpKey) -> Seq<char> {
    match key {
        OneKpKey::Id => r.id,
        OneKpKey::Clade => r.clade,
        OneKpKey::Order => r.order,
        OneKpKey::Family => r.family,
        OneKpKey::Species => r.species,
        OneKpKey::TissueType => r.tissue_type,
    }
}

/// The file name suffixes that a choice of sequence type stands for.
pub open spec fn suffixes(t: SequenceType) -> Seq<Seq<char>> {
    match t {
        SequenceType::Nucleotide => seq!["nucleotides.fa.gz"@],
        SequenceType::Protein => seq!["protein.fa.gz"@],
        SequenceType::Both => seq!["nucleotides.fa.gz"@, "protein.fa.gz"@],
    }
}

/// The directory of the archive that holds one directory per sample.
pub open spec fn assemblies_url() -> Seq<char> {
    "https://ftp.cngb.org/pub/gigadb/pub/10.5524/100001_101000/100627/assemblies/"@
}

/// The local file name of a sequence file: prefix, a hyphen, the suffix.
pub open spec fn file_name(r: RecordView, suffix: Seq<char>) -> Seq<char> {
    r.prefix + "-"@ + suffix
}

/// The address of a sequence file in the archive.
pub open spec fn remote_url(r: RecordView, suffix: Seq<char>) -> Seq<char> {
    assemblies_url() + r.prefix + "/"@ + r.id + "-translated-"@ + suffix
}

/// The six fields of a record as a line of a table, with tabs between them.
pub open spec fn row_text(r: RecordView) -> Seq<char> {
    r.id + "\t"@ + r.clade + "\t"@ + r.order + "\t"@ + r.family + "\t"@ + r.species + "\t"@
        + r.tissue_type
}

/// The header line of a table of records.
pub open spec fn header_text() -> Seq<char> {
    "1kP_ID\tClade\tOrder\tFamily\tSpecies\tTissue Type"@
}

/// The views of a sequence of records.
pub open spec fn record_views(v: Seq<OneKpRecord>) -> Seq<RecordView> {
    Seq::new(v.len(), |i: int| v[i]@)
}

impl View for OneKpRecord {
    type V = RecordView;

    closed spec fn view(&self) -> RecordView {
        RecordView {
            id: self.id@,
            clade: self.clade@,
            order: self.order@,
            family: self.family@,
            species: self.species@,
            tissue_type: self.tissue_type@,
            prefix: self.prefix@,
        }
    }
}

impl Clone for OneKpRecord {
    fn clone(&self) -> (out: Self)
        ensures
            out@ == self@,
    {
        OneKpRecord {
            id: self.id.clone(),
            clade: self.clade.clone(),
            order: self.order.clone(),
            family: self.family.clone(),
            species: self.species.clone(),
            tissue_type: self.tissue_type.clone(),
            prefix: self.prefix.clone(),
        }
    }
}

impl SequenceType {
    /// The suffixes of the files to fetch, nucleotides first.
    pub fn to_filenames(self) -> (out: Vec<&'static str>)
        ensures
            crate::text::slice_texts(out@) == suffixes(self),
    {
        let nucleotide: &'static str = "nucleotides.fa.gz";
        let protein: &'static str = "protein.fa.gz";
        let out = match self {
            SequenceType::Nucleotide => vec![nucleotide],
            SequenceType::Protein => vec![protein],
            SequenceType::Both => vec![nucleotide, protein],
        };
        assert(crate::text::slice_texts(out@) =~= suffixes(self));
        out
    }
}

impl OneKpRecord {
    /// A record of the given fields.
    pub fn new(
        id: String,
        clade: String,
        order: String,
        family: String,
        species: String,
        tissue_type: String,
        prefix: String,
    ) -> (out: Self)
        ensures
            out@ == (RecordView {
                id: id@,
                clade: clade@,
                order: order@,
                family: family@,
                species: species@,
                tissue_type: tissue_type@,
                prefix: prefix@,
            }),
    {
        OneKpRecord { id, clade, order, family, species, tissue_type, prefix }
    }

    /// The name under which the file with the given suffix is kept.
    pub fn to_filename(&self, filename: &str) -> (out: String)
        ensures
            out@ == file_name(self@, filename@),
    {
        let mut out = self.prefix.clone();
        out.append("-");
        out.append(filename);
        out
    }

    /// The address in the archive of the file with the given suffix.
    pub fn to_gigadb_url(&self, filename: &str) -> (out: String)
        ensures
            out@ == remote_url(self@, filename@),
    {
        let mut out = String::from_str(
            "https://ftp.cngb.org/pub/gigadb/pub/10.5524/100001_101000/100627/assemblies/",
        );
        out.append(self.prefix.as_str());
        out.append("/");
        out.append(self.id.as_str());
        out.append("-translated-");
        out.append(filename);
        out
    }

    /// The six fields as a line of a table, with tabs between them.
    pub fn to_row(&self) -> (out: String)
        ensures
            out@ == row_text(self@),
    {
        let mut out = self.id.clone();
        out.append("\t");
        out.append(self.clade.as_str());
        out.append("\t");
        out.append(self.order.as_str());
        out.append("\t");
        out.append(self.family.as_str());
        out.append("\t");
        out.append(self.species.as_str());
        out.append("\t");
        out.append(self.tissue_type.as_str());
        out
    }

    /// The header line of a table of records.
    pub fn table_header() -> (out: &'static str)
        ensures
            out@ == header_text(),
    {
        "1kP_ID\tClade\tOrder\tFamily\tSpecies\tTissue Type"
    }

    /// The field that `key` selects.
    pub fn field(&self, key: OneKpKey) -> (out: &String)
        ensures
            out@ == field_of(self@, key),
    {
        match key {
            OneKpKey::Id => &self.id,
            OneKpKey::Clade => &self.clade,
            OneKpKey::Order => &self.order,
            OneKpKey::Family => &self.family,
            OneKpKey::Species => &self.species,
            OneKpKey::TissueType => &self.tissue_type,
        }
    }

    pub fn id(&self) -> (out: &String)
        ensures
            out@ == self@.id,
    {
        &self.id
    }

    pub fn clade(&self) -> (out: &String)
        ensures
            out@ == self@.clade,
    {
        &self.clade
    }

    pub fn order(&self) -> (out: &String)
        ensures
            out@ == self@.order,
    {
        &self.order
    }

    pub fn family(&self) -> (out: &String)
        ensures
            out@ == self@.family,
    {
        &self.family
    }

    pub fn species(&self) -> (out: &String)
        ensures
            out@ == self@.species,
    {
        &self.species
    }

    pub fn tissue_type(&self) -> (out: &String)
        ensures
            out@ == self@.tissue_type,
    {
        &self.tissue_type
    }

    /// The sample's directory in the archive.
    pub fn prefix(&self) -> (out: &String)
        ensures
            out@ == self@.prefix,
    {
        &self.prefix
    }
}

} // verus!
