use onekp::fetch::{plan, FetchRun, Summary};
use onekp::record::{OneKpKey, OneKpRecord, SequenceType};

fn record() -> OneKpRecord {
    OneKpRecord::new(
        "WXYZ".to_string(),
        "Clade".to_string(),
        "Order".to_string(),
        "Family".to_string(),
        "Genus species".to_string(),
        "leaf".to_string(),
        "WXYZ-Genus_species".to_string(),
    )
}

#[test]
fn to_filenames_by_sequence_type() {
    assert_eq!(SequenceType::Nucleotide.to_filenames(), vec!["nucleotides.fa.gz"]);
    assert_eq!(SequenceType::Protein.to_filenames(), vec!["protein.fa.gz"]);
    assert_eq!(SequenceType::Both.to_filenames(), vec!["nucleotides.fa.gz", "protein.fa.gz"]);
}

#[test]
fn to_filename_joins_prefix_and_suffix() {
    assert_eq!(record().to_filename("protein.fa.gz"), "WXYZ-Genus_species-protein.fa.gz");
    assert_eq!(record().to_filename(""), "WXYZ-Genus_species-");
}

#[test]
fn to_gigadb_url_follows_the_template() {
    assert_eq!(
        record().to_gigadb_url("protein.fa.gz"),
        "https://ftp.cngb.org/pub/gigadb/pub/10.5524/100001_101000/100627/assemblies/WXYZ-Genus_species/WXYZ-translated-protein.fa.gz"
    );
}

#[test]
fn field_selects_by_key() {
    let r = record();
    assert_eq!(r.field(OneKpKey::Id), "WXYZ");
    assert_eq!(r.field(OneKpKey::Clade), "Clade");
    assert_eq!(r.field(OneKpKey::Order), "Order");
    assert_eq!(r.field(OneKpKey::Family), "Family");
    assert_eq!(r.field(OneKpKey::Species), "Genus species");
    assert_eq!(r.field(OneKpKey::TissueType), "leaf");
    let copy = r.clone();
    assert_eq!(copy.prefix(), "WXYZ-Genus_species");
    assert_eq!(copy.id(), "WXYZ");
}

#[test]
fn plan_lists_both_files_nucleotides_first() {
    let files = plan(&record(), SequenceType::Both);
    assert_eq!(files.len(), 2);
    assert_eq!(files[0].file_name, "WXYZ-Genus_species-nucleotides.fa.gz");
    assert!(files[0].url.ends_with("/assemblies/WXYZ-Genus_species/WXYZ-translated-nucleotides.fa.gz"));
    assert_eq!(files[1].file_name, "WXYZ-Genus_species-protein.fa.gz");
    assert!(files[1].url.ends_with("/assemblies/WXYZ-Genus_species/WXYZ-translated-protein.fa.gz"));
    assert_eq!(plan(&record(), SequenceType::Protein).len(), 1);
}

#[test]
fn summary_keeps_two_lists_in_order() {
    let mut s = Summary::new();
    assert!(s.succeeded().is_empty() && s.failed().is_empty());
    s.record("A", true);
    s.record("B", false);
    s.record("C", true);
    s.record("D", false);
    assert_eq!(s.succeeded(), &vec!["A".to_string(), "C".to_string()]);
    assert_eq!(s.failed(), &vec!["B".to_string(), "D".to_string()]);
}

#[test]
fn summary_of_a_run_where_all_failed() {
    let mut s = Summary::new();
    s.record("A", false);
    assert!(s.succeeded().is_empty());
    assert_eq!(s.failed().len(), 1);
}

fn named(id: &str) -> OneKpRecord {
    OneKpRecord::new(
        id.to_string(),
        "c".to_string(),
        "o".to_string(),
        "f".to_string(),
        "s".to_string(),
        "t".to_string(),
        format!("{}-dir", id),
    )
}

#[test]
fn run_fetches_each_file_of_each_record_in_order() {
    let mut run = FetchRun::new(vec![named("A"), named("B")], SequenceType::Both);
    let mut names = vec![];
    let mut ends = vec![];
    while let Some(d) = run.next() {
        names.push(d.file_name);
        ends.push(run.report(true));
    }
    assert_eq!(
        names,
        vec!["A-dir-nucleotides.fa.gz", "A-dir-protein.fa.gz", "B-dir-nucleotides.fa.gz", "B-dir-protein.fa.gz"]
    );
    assert_eq!(ends, vec![None, Some(true), None, Some(true)]);
    assert!(run.is_done());
    assert_eq!(run.summary().succeeded(), &vec!["A".to_string(), "B".to_string()]);
    assert!(run.summary().failed().is_empty());
}

#[test]
fn run_failure_ends_the_record_but_not_the_run() {
    let mut run = FetchRun::new(vec![named("A"), named("B"), named("C")], SequenceType::Both);
    assert_eq!(run.current_record().map(|r| r.id().clone()), Some("A".to_string()));
    assert_eq!(run.report(false), Some(false));
    assert_eq!(run.next().map(|d| d.file_name), Some("B-dir-nucleotides.fa.gz".to_string()));
    assert_eq!(run.report(true), None);
    assert_eq!(run.next().map(|d| d.file_name), Some("B-dir-protein.fa.gz".to_string()));
    assert_eq!(run.report(false), Some(false));
    assert_eq!(run.report(true), None);
    assert_eq!(run.report(true), Some(true));
    assert!(run.is_done());
    assert!(run.next().is_none());
    assert!(run.current_record().is_none());
    assert_eq!(run.report(true), None);
    assert_eq!(run.summary().succeeded(), &vec!["C".to_string()]);
    assert_eq!(run.summary().failed(), &vec!["A".to_string(), "B".to_string()]);
}

#[test]
fn run_with_one_file_per_record() {
    let mut run = FetchRun::new(vec![named("A"), named("B")], SequenceType::Protein);
    assert_eq!(run.next().map(|d| d.url), Some(named("A").to_gigadb_url("protein.fa.gz")));
    assert_eq!(run.report(true), Some(true));
    assert_eq!(run.report(false), Some(false));
    assert!(run.is_done());
}

#[test]
fn run_over_no_records_is_done_at_once() {
    let mut run = FetchRun::new(vec![], SequenceType::Both);
    assert!(run.is_done());
    assert!(run.next().is_none());
    assert_eq!(run.report(false), None);
    assert!(run.summary().succeeded().is_empty() && run.summary().failed().is_empty());
}

#[test]
fn to_row_joins_the_six_fields_with_tabs() {
    assert_eq!(record().to_row(), "WXYZ\tClade\tOrder\tFamily\tGenus species\tleaf");
    assert_eq!(OneKpRecord::table_header(), "1kP_ID\tClade\tOrder\tFamily\tSpecies\tTissue Type");
}
