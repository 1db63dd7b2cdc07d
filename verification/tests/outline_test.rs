use barepdf::presentation::outline::{flatten_outline, initially_expanded, toggle_outline_row, OutlineNode};

const ITEM_LIMIT: usize = 1000;
const DEPTH_LIMIT: usize = 32;

fn leaf(title: &str, page_index: Option<u32>) -> OutlineNode {
    OutlineNode {
        title: title.to_string(),
        page_index,
        children: Vec::new(),
    }
}

#[test]
fn outline_flattens_nested_targets_and_respects_expansion() {
    let outline = vec![OutlineNode {
        title: "Chapter".into(),
        page_index: None,
        children: vec![leaf("Section", Some(3))],
    }];
    let expanded = vec![vec![0]];
    let rows = flatten_outline(&outline, &expanded, ITEM_LIMIT, DEPTH_LIMIT);
    assert_eq!(rows.len(), 2);
    assert_eq!(rows[1].depth, 1);
    assert_eq!(rows[1].page_index, Some(3));
}

#[test]
fn outline_flattening_has_a_fixed_item_limit() {
    let outline = (0..=ITEM_LIMIT)
        .map(|index| leaf(&index.to_string(), None))
        .collect::<Vec<_>>();

    let rows = flatten_outline(&outline, &[], ITEM_LIMIT, DEPTH_LIMIT);

    assert_eq!(rows.len(), ITEM_LIMIT);
}

#[test]
fn collapsed_entries_hide_their_children_and_untitled_entries_are_named() {
    let outline = vec![
        OutlineNode {
            title: String::new(),
            page_index: Some(0),
            children: vec![leaf("Hidden", Some(1))],
        },
        leaf("Next", Some(2)),
    ];
    let rows = flatten_outline(&outline, &[], ITEM_LIMIT, DEPTH_LIMIT);
    assert_eq!(rows.len(), 2);
    assert_eq!(rows[0].title, "Untitled");
    assert!(rows[0].has_children);
    assert!(!rows[0].expanded);
    assert_eq!(rows[1].title, "Next");
    assert_eq!(rows[1].path, vec![1]);
    assert_eq!(rows[1].depth, 0);
}

#[test]
fn opened_entries_below_the_depth_limit_stay_closed() {
    let outline = vec![OutlineNode {
        title: "Part".into(),
        page_index: None,
        children: vec![OutlineNode {
            title: "Chapter".into(),
            page_index: None,
            children: vec![leaf("Section", Some(9))],
        }],
    }];
    let expanded = vec![vec![0], vec![0, 0]];
    let deep = flatten_outline(&outline, &expanded, ITEM_LIMIT, DEPTH_LIMIT);
    assert_eq!(deep.len(), 3);
    assert_eq!(deep[2].path, vec![0, 0, 0]);
    assert_eq!(deep[2].depth, 2);
    let shallow = flatten_outline(&outline, &expanded, ITEM_LIMIT, 2);
    assert_eq!(shallow.len(), 2);
    assert!(shallow[1].expanded);
    let capped = flatten_outline(&outline, &expanded, 2, DEPTH_LIMIT);
    assert_eq!(capped.len(), 2);
    assert_eq!(capped[1].title, "Chapter");
}

#[test]
fn fetched_outline_opens_top_level_entries_with_children() {
    let outline = vec![
        leaf("Cover", Some(0)),
        OutlineNode {
            title: "Chapter".into(),
            page_index: Some(1),
            children: vec![leaf("Section", Some(2))],
        },
        OutlineNode {
            title: "Appendix".into(),
            page_index: Some(5),
            children: vec![leaf("Tables", Some(6))],
        },
    ];
    let expanded = initially_expanded(&outline);
    assert_eq!(expanded, vec![vec![1], vec![2]]);
    let rows = flatten_outline(&outline, &expanded, ITEM_LIMIT, DEPTH_LIMIT);
    assert_eq!(rows.len(), 5);
    assert_eq!(rows[2].title, "Section");
    assert_eq!(rows[2].path, vec![1, 0]);
}

#[test]
fn clicking_an_outline_line_toggles_it_and_answers_its_page() {
    let outline = vec![OutlineNode {
        title: "Chapter".into(),
        page_index: Some(4),
        children: vec![leaf("Section", Some(5))],
    }];
    let mut expanded: Vec<Vec<usize>> = Vec::new();
    let rows = flatten_outline(&outline, &expanded, ITEM_LIMIT, DEPTH_LIMIT);
    assert_eq!(toggle_outline_row(&rows, &mut expanded, 0), Some(4));
    assert_eq!(expanded, vec![vec![0]]);
    let rows = flatten_outline(&outline, &expanded, ITEM_LIMIT, DEPTH_LIMIT);
    assert_eq!(rows.len(), 2);
    assert_eq!(toggle_outline_row(&rows, &mut expanded, 1), Some(5));
    assert_eq!(expanded, vec![vec![0]]);
    assert_eq!(toggle_outline_row(&rows, &mut expanded, 0), Some(4));
    assert!(expanded.is_empty());
    assert_eq!(toggle_outline_row(&rows, &mut expanded, 9), None);
}
