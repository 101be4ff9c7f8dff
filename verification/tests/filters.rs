use chimely::api::inbox::filters::{
    normalize_count_filters, validate_category, FilteredInboxCountsRequest, InboxCountFilter,
};
use chimely::error::ErrorCode;

fn message(filters: Vec<Vec<String>>) -> String {
    let request = FilteredInboxCountsRequest {
        filters: filters
            .into_iter()
            .map(|categories| InboxCountFilter { categories })
            .collect(),
    };
    let e = normalize_count_filters(request).unwrap_err();
    assert_eq!(e.code, ErrorCode::InvalidRequest);
    e.message
}

#[test]
fn count_filters_are_bounded_and_deduplicated() {
    let normalized = normalize_count_filters(FilteredInboxCountsRequest {
        filters: vec![
            InboxCountFilter {
                categories: vec!["billing".into(), "billing".into(), "refund".into()],
            },
            InboxCountFilter {
                categories: vec!["billing".into()],
            },
        ],
    })
    .unwrap();
    assert_eq!(normalized.category_filter_indexes, [0, 0, 1]);
    assert_eq!(normalized.categories, ["billing", "refund", "billing"]);

    for request in [
        FilteredInboxCountsRequest { filters: vec![] },
        FilteredInboxCountsRequest {
            filters: vec![InboxCountFilter { categories: vec![] }],
        },
        FilteredInboxCountsRequest {
            filters: vec![InboxCountFilter {
                categories: vec![String::new()],
            }],
        },
        FilteredInboxCountsRequest {
            filters: vec![InboxCountFilter {
                categories: vec!["x".repeat(256)],
            }],
        },
        FilteredInboxCountsRequest {
            filters: vec![
                InboxCountFilter {
                    categories: (0..50).map(|i| format!("first.{i}")).collect(),
                },
                InboxCountFilter {
                    categories: (0..51).map(|i| format!("second.{i}")).collect(),
                },
            ],
        },
        FilteredInboxCountsRequest {
            filters: (0..101)
                .map(|_| InboxCountFilter {
                    categories: vec!["category".into()],
                })
                .collect(),
        },
    ] {
        assert!(normalize_count_filters(request).is_err());
    }

    let maximum = FilteredInboxCountsRequest {
        filters: (0..100)
            .map(|i| InboxCountFilter {
                categories: vec![format!("category.{i}")],
            })
            .collect(),
    };
    assert!(normalize_count_filters(maximum).is_ok());
}

#[test]
fn count_filter_faults_name_their_reason() {
    assert_eq!(message(vec![]), "filters must contain 1–100 entries");
    assert_eq!(
        message((0..101).map(|_| vec!["a".to_owned()]).collect()),
        "filters must contain 1–100 entries"
    );
    assert_eq!(
        message(vec![vec!["a".to_owned()], vec![]]),
        "each filter must contain at least one category"
    );
    assert_eq!(
        message(vec![vec!["a".to_owned(); 60], vec!["a".to_owned(); 41]]),
        "filters must contain at most 100 category entries"
    );
    assert_eq!(
        message(vec![vec!["a".to_owned(), String::new()]]),
        "category must be 1–255 characters"
    );
}

#[test]
fn the_first_faulty_filter_is_reported() {
    // The second filter is empty, the first one holds an over-long name.
    assert_eq!(
        message(vec![vec!["x".repeat(256)], vec![]]),
        "category must be 1–255 characters"
    );
    // A filter that is too long is refused before its names are looked at.
    let mut long = vec![String::new()];
    long.extend(vec!["a".to_owned(); 100]);
    assert_eq!(message(vec![long]), "filters must contain at most 100 category entries");
}

#[test]
fn category_length_is_counted_in_characters() {
    assert!(validate_category("x").is_ok());
    assert!(validate_category(&"é".repeat(255)).is_ok());
    assert!(validate_category(&"é".repeat(256)).is_err());
    assert!(validate_category("").is_err());
}

#[test]
fn exactly_one_hundred_entries_are_accepted() {
    let request = FilteredInboxCountsRequest {
        filters: vec![
            InboxCountFilter {
                categories: vec!["a".to_owned(); 60],
            },
            InboxCountFilter {
                categories: vec!["b".to_owned(); 40],
            },
        ],
    };
    let n = normalize_count_filters(request).unwrap();
    assert_eq!(n.category_filter_indexes, [0, 1]);
    assert_eq!(n.categories, ["a", "b"]);
}
