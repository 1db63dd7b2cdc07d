use barepdf::presentation::ui::{click_count_at, click_selection, next_click_count, ClickSelection};
use barepdf::application::state::DocumentId;
use barepdf::presentation::callbacks::{
    consume_print_preview_render, default_print_preview_range, parse_print_preview_range,
    parse_zoom_percent, print_preview_request_id, tool_drop_paths, PrintPreviewState,
    PRINT_PREVIEW_REQUEST_MASK,
};
use barepdf::presentation::event_pump::{route_dropped_paths, DropRoutingOutcome, PumpMode};
use barepdf::presentation::hud_commands::{
    all_hud_commands, filter_hud_commands, hud_query_action, HudAction,
};
use barepdf::presentation::model::{PaperTintColor, SidebarTab};
use barepdf::presentation::paths::is_pdf_path;
use barepdf::presentation::ui::{
    parse_drop_paths, scrolling_recently, user_is_scrolling, validated_page_input,
};
use std::time::{Duration, Instant};
use barepdf::presentation::tools_panel::{merge_move_down, merge_move_up, merge_remove, merge_reorder};
use barepdf::presentation::tools_panel::shift_click_range;
use barepdf::presentation::tools_panel::{conversion_dpi_is_offered, conversion_from_index, tool_output_name, turn_from_index, ConversionKind, PageTurn};
use barepdf::presentation::callbacks::{confirm_print_plan, PrintPlan};

#[test]
fn parses_and_clamps_integer_zoom_percentages() {
    for (input, expected) in [
        ("125", Some(125)),
        (" 125% ", Some(125)),
        ("125 %", Some(125)),
        ("+125", Some(125)),
        ("0", Some(25)),
        ("-25", Some(25)),
        ("250", Some(200)),
    ] {
        assert_eq!(parse_zoom_percent(input), expected, "{input}");
    }
}

#[test]
fn rejects_non_integer_or_malformed_zoom_percentages() {
    for input in ["", "%", "125.0", "125%%", "abc", "+ 125"] {
        assert_eq!(parse_zoom_percent(input), None, "{input}");
    }
}

#[test]
fn tool_drop_uses_only_pdf_sources_without_opening_them() {
    assert_eq!(
        tool_drop_paths("C:/docs/one.pdf\nC:/docs/two.PDF\nC:/docs/note.txt"),
        vec!["C:/docs/one.pdf".to_string(), "C:/docs/two.PDF".to_string()]
    );
}

#[test]
fn tool_drop_skips_blank_and_comment_lines() {
    assert_eq!(
        tool_drop_paths("  # a comment\n\n  a.pdf  \r\n.pdf\n"),
        vec!["a.pdf".to_string()]
    );
}

#[test]
fn print_preview_accepts_only_the_latest_matching_render_once() {
    let document = DocumentId::new(7);
    let mut preview = PrintPreviewState::open(document, 11, 4, 0);
    let first = PRINT_PREVIEW_REQUEST_MASK | 1;
    let latest = PRINT_PREVIEW_REQUEST_MASK | 2;
    preview.expect_render(first, 0);
    preview.set_page(1);
    preview.expect_render(latest, 1);

    assert!(!preview.accept_render(first, document, 11, 0));
    assert!(!preview.accept_render(latest, DocumentId::new(8), 11, 1));
    assert!(!preview.accept_render(latest, document, 12, 1));
    assert!(preview.accept_render(latest, document, 11, 1));
    assert!(!preview.accept_render(latest, document, 11, 1));
}

#[test]
fn closing_print_preview_rejects_an_in_flight_render() {
    let document = DocumentId::new(7);
    let mut preview = PrintPreviewState::open(document, 11, 2, 0);
    let request = PRINT_PREVIEW_REQUEST_MASK | 3;
    preview.expect_render(request, 0);

    preview.close();

    assert!(!preview.accept_render(request, document, 11, 0));
}

#[test]
fn print_preview_range_is_contiguous_and_bounded() {
    assert_eq!(parse_print_preview_range("", 5), Some((0, 4)));
    assert_eq!(parse_print_preview_range("2-4", 5), Some((1, 3)));
    assert_eq!(parse_print_preview_range("3", 5), Some((2, 2)));
    assert_eq!(parse_print_preview_range("1-2, 3-4", 5), Some((0, 3)));
    assert_eq!(parse_print_preview_range("4-2", 5), None);
    assert_eq!(parse_print_preview_range("1,3", 5), None);
    assert_eq!(parse_print_preview_range("1-3,5", 5), None);
    assert_eq!(parse_print_preview_range("6", 5), None);
}

#[test]
fn print_preview_range_rejects_malformed_pieces() {
    assert_eq!(parse_print_preview_range("1--2", 5), None);
    assert_eq!(parse_print_preview_range("1-2-3", 5), None);
    assert_eq!(parse_print_preview_range("0", 5), None);
    assert_eq!(parse_print_preview_range("1,", 5), None);
    assert_eq!(parse_print_preview_range(" 2 - 3 ", 5), Some((1, 2)));
}

#[test]
fn print_preview_starts_on_a_page_of_the_document_with_every_page() {
    let preview = PrintPreviewState::open(DocumentId::new(1), 3, 4, 9);
    assert_eq!(preview.page_index, 3);
    assert_eq!(preview.range, "1-4");
    assert_eq!(default_print_preview_range(1), "1");
    let mut preview = preview;
    assert_eq!(preview.set_page(-3), 0);
    assert_eq!(preview.set_page(2), 2);
    assert_eq!(preview.set_page(99), 3);
}

#[test]
fn print_preview_follows_generation_or_closes() {
    let document = DocumentId::new(5);
    let mut preview = PrintPreviewState::open(document, 1, 3, 0);
    preview.expect_render(PRINT_PREVIEW_REQUEST_MASK | 1, 0);
    assert!(!preview.follow_generation(Some(document), 2));
    assert_eq!(preview.generation, 2);
    assert!(preview.pending.is_none());
    assert!(preview.follow_generation(Some(DocumentId::new(6)), 3));
    assert!(preview.follow_generation(None, 3));
}

#[test]
fn only_preview_requests_reach_the_preview() {
    let document = DocumentId::new(5);
    let mut preview = Some(PrintPreviewState::open(document, 1, 3, 0));
    let request = print_preview_request_id(0);
    assert_eq!(request, PRINT_PREVIEW_REQUEST_MASK | 1);
    assert_eq!(print_preview_request_id(41), PRINT_PREVIEW_REQUEST_MASK | 41);
    if let Some(p) = preview.as_mut() {
        p.expect_render(request, 0);
    }
    assert_eq!(consume_print_preview_render(&mut preview, 7, document, 1, 0), None);
    assert_eq!(consume_print_preview_render(&mut preview, request, document, 1, 0), Some(true));
    assert_eq!(consume_print_preview_render(&mut preview, request, document, 1, 0), Some(false));
    let mut closed: Option<PrintPreviewState> = None;
    assert_eq!(consume_print_preview_render(&mut closed, request, document, 1, 0), Some(false));
}

#[test]
fn activity_and_pending_work_keep_pump_active() {
    assert_eq!(PumpMode::select(true, false), PumpMode::Active);
    assert_eq!(PumpMode::select(false, true), PumpMode::Active);
    assert_eq!(Duration::from_millis(PumpMode::Active.interval()), Duration::from_millis(16));
}

#[test]
fn quiescent_pump_uses_idle_interval() {
    assert_eq!(PumpMode::select(false, false), PumpMode::Idle);
    assert_eq!(Duration::from_millis(PumpMode::Idle.interval()), Duration::from_millis(250));
}

#[test]
fn routes_dropped_paths_when_tools_is_open() {
    let pdf1 = "doc1.pdf".to_string();
    let pdf2 = "doc2.pdf".to_string();
    let txt = "note.txt".to_string();

    assert_eq!(
        route_dropped_paths(&[pdf1.clone(), pdf2.clone()], true, 0),
        DropRoutingOutcome::ToolsMerge(vec![pdf1.clone(), pdf2.clone()])
    );
    assert_eq!(
        route_dropped_paths(std::slice::from_ref(&pdf1), true, 1),
        DropRoutingOutcome::ToolsSingleSource(pdf1.clone())
    );
    assert_eq!(
        route_dropped_paths(&[pdf1.clone(), pdf2.clone()], true, 1),
        DropRoutingOutcome::ToolsError("tools.error.single_source")
    );
    assert_eq!(
        route_dropped_paths(std::slice::from_ref(&pdf1), true, 4),
        DropRoutingOutcome::ToolsSingleSource(pdf1.clone())
    );
    assert_eq!(
        route_dropped_paths(std::slice::from_ref(&txt), true, 2),
        DropRoutingOutcome::ToolsError("tools.error.drop_pdf")
    );
}

#[test]
fn routes_dropped_paths_when_tools_is_closed() {
    let pdf1 = "doc1.pdf".to_string();
    let pdf2 = "doc2.pdf".to_string();
    let txt = "note.txt".to_string();

    assert_eq!(
        route_dropped_paths(std::slice::from_ref(&pdf1), false, -1),
        DropRoutingOutcome::OpenDocument(pdf1.clone())
    );
    assert_eq!(
        route_dropped_paths(std::slice::from_ref(&txt), false, -1),
        DropRoutingOutcome::Banner("Only PDF files are supported.")
    );
    assert_eq!(
        route_dropped_paths(&[pdf1, pdf2], false, -1),
        DropRoutingOutcome::Banner("Drop exactly one PDF file.")
    );
}

#[test]
fn page_input_is_one_based_and_bounded() {
    assert_eq!(validated_page_input("1", 12), Some(0));
    assert_eq!(validated_page_input("12", 12), Some(11));
    assert_eq!(validated_page_input("0", 12), None);
    assert_eq!(validated_page_input("13", 12), None);
    assert_eq!(validated_page_input("abc", 12), None);
}

#[test]
fn dropped_file_must_be_one_pdf() {
    assert!(matches!(parse_drop_paths("C:/book.pdf"), Some(Ok(_))));
    assert!(matches!(parse_drop_paths("C:/one.pdf\nC:/two.pdf"), Some(Err(_))));
    assert!(matches!(parse_drop_paths("C:/note.txt"), Some(Err(_))));
}

#[test]
fn dropped_file_urls_become_windows_paths() {
    assert_eq!(
        parse_drop_paths("file:///C:/My%20Docs/book.pdf"),
        Some(Ok("C:\\My Docs\\book.pdf".to_string()))
    );
    assert_eq!(parse_drop_paths("# only a comment\n"), None);
}

#[test]
fn active_scroll_does_not_allow_anchor_restore() {
    let now = Instant::now();
    assert!(user_is_scrolling(Some(now - Duration::from_millis(50)), now));
    assert!(!user_is_scrolling(Some(now - Duration::from_millis(250)), now));
    assert!(!user_is_scrolling(None, now));
}

#[test]
fn scrolling_counts_for_180_milliseconds() {
    assert!(scrolling_recently(Some(179_999_999)));
    assert!(!scrolling_recently(Some(180_000_000)));
    assert!(!scrolling_recently(None));
}

#[test]
fn pdf_paths_are_told_by_their_extension() {
    assert!(is_pdf_path("C:/docs/a.PdF"));
    assert!(is_pdf_path("a.pdf/"));
    assert!(!is_pdf_path(".pdf"));
    assert!(!is_pdf_path("a.pdf.txt"));
    assert!(!is_pdf_path("pdf"));
}

#[test]
fn blank_palette_query_lists_every_command() {
    assert_eq!(filter_hud_commands("   "), all_hud_commands());
    assert_eq!(all_hud_commands().len(), 9);
}

#[test]
fn palette_filter_ignores_case_of_the_query() {
    let found = filter_hud_commands("ZEN");
    assert_eq!(found.len(), 1);
    assert_eq!(found[0].id, "zen");
    let tints = filter_hud_commands("paper tint");
    assert_eq!(
        tints.iter().map(|c| c.id).collect::<Vec<_>>(),
        vec!["tint_sepia", "tint_night", "tint_amber", "tint_normal"]
    );
    assert!(filter_hud_commands("fit_page").iter().any(|c| c.id == "fit_page"));
    assert!(filter_hud_commands("nothing like this").is_empty());
}

#[test]
fn palette_queries_name_their_action() {
    assert!(matches!(hud_query_action(" 12 "), HudAction::GoToPage(11)));
    assert!(matches!(hud_query_action("F11"), HudAction::ToggleZen));
    assert!(matches!(hud_query_action("Invert colors"), HudAction::ToggleInvert));
    assert!(matches!(hud_query_action("sepia"), HudAction::SetPaperTint(PaperTintColor::WarmSepia)));
    assert!(matches!(hud_query_action("Gece"), HudAction::SetPaperTint(PaperTintColor::Night)));
    assert!(matches!(hud_query_action("amber"), HudAction::SetPaperTint(PaperTintColor::OledAmber)));
    assert!(matches!(hud_query_action("Original"), HudAction::SetPaperTint(PaperTintColor::Normal)));
    assert!(matches!(hud_query_action("print"), HudAction::Print));
    assert!(matches!(hud_query_action("Fit Width"), HudAction::FitWidth));
    assert!(matches!(hud_query_action("fit page"), HudAction::FitPage));
    assert!(matches!(hud_query_action("0"), HudAction::Unknown(ref s) if s == "0"));
    assert!(matches!(hud_query_action("  "), HudAction::Nothing));
}

#[test]
fn paper_tints_round_trip_through_their_numbers() {
    for tint in [
        PaperTintColor::Normal,
        PaperTintColor::WarmSepia,
        PaperTintColor::Night,
        PaperTintColor::OledAmber,
    ] {
        assert_eq!(PaperTintColor::from_u8(tint.as_u8()), tint);
    }
    assert_eq!(PaperTintColor::from_u8(9), PaperTintColor::Normal);
    assert_eq!(PaperTintColor::Night.display_name(), "Dark Invert");
    assert_eq!(PaperTintColor::OledAmber.as_u8(), 3);
    assert_eq!(PaperTintColor::default(), PaperTintColor::Normal);
    assert_eq!(SidebarTab::default(), SidebarTab::Thumbnails);
}

#[test]
fn merge_list_edits_keep_the_files() {
    let mut files: Vec<String> = ["a", "b", "c"].iter().map(|s| s.to_string()).collect();
    assert_eq!(merge_move_up(&mut files, 2), Some(1));
    assert_eq!(files, vec!["a", "c", "b"]);
    assert_eq!(merge_move_down(&mut files, 1), Some(2));
    assert_eq!(files, vec!["a", "b", "c"]);
    assert_eq!(merge_move_up(&mut files, 0), None);
    assert_eq!(merge_move_down(&mut files, 2), None);
    assert_eq!(merge_reorder(&mut files, 0, 2), Some(2));
    assert_eq!(files, vec!["b", "c", "a"]);
    assert_eq!(merge_reorder(&mut files, 1, 1), None);
    assert_eq!(merge_remove(&mut files, 2), Some(1));
    assert_eq!(merge_remove(&mut files, 0), Some(0));
    assert_eq!(merge_remove(&mut files, 0), Some(-1));
    assert!(files.is_empty());
}

#[test]
fn shift_click_selects_from_the_first_named_page() {
    assert_eq!(shift_click_range("3", 7), "3-7");
    assert_eq!(shift_click_range("9-12, 4", 2), "2-9");
    assert_eq!(shift_click_range("", 5), "5-5");
    assert_eq!(shift_click_range("x, 6", 5), "5-6");
}

#[test]
fn tool_choices_and_output_names() {
    assert_eq!(tool_output_name(Some("book"), "_extracted.pdf"), "book_extracted.pdf");
    assert_eq!(tool_output_name(None, "_rotated.pdf"), "document_rotated.pdf");
    assert_eq!(turn_from_index(3), PageTurn::Degrees270);
    assert_eq!(turn_from_index(7), PageTurn::Degrees90);
    assert_eq!(conversion_from_index(2), Some(ConversionKind::Png));
    assert_eq!(conversion_from_index(4), None);
    assert!(conversion_dpi_is_offered(300));
    assert!(!conversion_dpi_is_offered(200));
}

#[test]
fn print_confirmation_checks_document_generation_and_range() {
    let document = DocumentId::new(3);
    let mut preview = PrintPreviewState::open(document, 5, 6, 0);
    assert_eq!(confirm_print_plan(&preview, Some(document), 5), PrintPlan::Print { first: 0, last: 5 });
    preview.set_range("2-3".to_string());
    preview.set_orientation(9);
    assert_eq!(preview.orientation, 2);
    assert_eq!(confirm_print_plan(&preview, Some(document), 5), PrintPlan::Print { first: 1, last: 2 });
    assert_eq!(confirm_print_plan(&preview, Some(document), 6), PrintPlan::Close);
    assert_eq!(confirm_print_plan(&preview, None, 5), PrintPlan::Close);
    preview.set_range("3-1".to_string());
    assert_eq!(confirm_print_plan(&preview, Some(document), 5), PrintPlan::BadRange);
    preview.close();
    preview.set_range("1".to_string());
    assert_eq!(preview.range, "3-1");
    assert_eq!(confirm_print_plan(&preview, Some(document), 5), PrintPlan::Nothing);
}

#[test]
fn a_scroll_at_this_instant_counts() {
    let now = Instant::now();
    assert!(user_is_scrolling(Some(now), now));
}

#[test]
fn clicks_within_400_ms_continue_a_series() {
    assert_eq!(next_click_count(1, 399_999_999), 2);
    assert_eq!(next_click_count(2, 10), 3);
    assert_eq!(next_click_count(3, 400_000_000), 1);
    let now = Instant::now();
    assert_eq!(click_count_at(1, now, now), 2);
    assert_eq!(click_count_at(5, now, now + Duration::from_secs(1)), 1);
    assert_eq!(click_selection(1), ClickSelection::Caret);
    assert_eq!(click_selection(2), ClickSelection::Word);
    assert_eq!(click_selection(3), ClickSelection::Line);
    assert_eq!(click_selection(7), ClickSelection::Line);
}

#[test]
fn pdf_paths_are_recognised_by_their_extension() {
    assert!(is_pdf_path("a.pdf/."));
    assert!(is_pdf_path("docs/Report.PDF"));
    assert!(!is_pdf_path("docs/.pdf"));
    assert!(!is_pdf_path("notes.txt"));
    assert!(!is_pdf_path("pdf"));
}
