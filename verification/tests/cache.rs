use onekp::cache::{
    cache_action, cache_dir_name, cache_file_name, is_cache_update_required, is_create_dir_fatal,
    CacheAction,
};

#[test]
fn copy_younger_than_an_hour_is_served() {
    assert_eq!(cache_action(Some(0)), CacheAction::Serve);
    assert_eq!(cache_action(Some(3599)), CacheAction::Serve);
}

#[test]
fn stale_or_missing_copy_is_fetched_again() {
    assert_eq!(cache_action(Some(3600)), CacheAction::Refetch);
    assert_eq!(cache_action(Some(u64::MAX)), CacheAction::Refetch);
    assert_eq!(cache_action(None), CacheAction::Refetch);
}

#[test]
fn update_is_required_from_one_hour_on() {
    assert!(!is_cache_update_required(0));
    assert!(!is_cache_update_required(3599));
    assert!(is_cache_update_required(3600));
    assert!(is_cache_update_required(3601));
}

#[test]
fn cache_file_name_is_the_last_segment() {
    assert_eq!(
        cache_file_name("https://ftp.cngb.org/pub/gigadb/pub/10.5524/100001_101000/100627/Sample-List-with-Taxonomy.tsv.csv"),
        "Sample-List-with-Taxonomy.tsv.csv"
    );
    assert_eq!(cache_file_name("plain"), "plain");
    assert_eq!(cache_file_name("a/b"), "b");
}

#[test]
fn cache_file_name_falls_back_to_index() {
    assert_eq!(
        cache_file_name("https://ftp.cngb.org/pub/gigadb/pub/10.5524/100001_101000/100627/assemblies/"),
        "index.html"
    );
    assert_eq!(cache_file_name(""), "index.html");
    assert_eq!(cache_file_name("/"), "index.html");
}

#[test]
fn existing_cache_directory_is_no_error() {
    assert!(!is_create_dir_fatal(Some(17)));
    assert!(!is_create_dir_fatal(None));
    assert!(is_create_dir_fatal(Some(13)));
    assert!(is_create_dir_fatal(Some(2)));
    assert_eq!(cache_dir_name(), ".onekp_cache");
}
