use lumen_asr_desktop::edit_attribution::{
    EditProjection, InsertionAnchor, TerminalInsertionAnchor,
};

#[test]
fn terminal_pane_anchor_ignores_unrelated_screen_repaints() {
    let anchor = TerminalInsertionAnchor::from_snapshot(
        "status: listening\nproject $ HERDR\nfooter: old",
        "HERDR",
    )
    .unwrap();

    assert_eq!(
        anchor.project("status: ready\nproject $ Herdr\nfooter: new"),
        EditProjection::Edited { after_text: "Herdr".into() }
    );
}

#[test]
fn terminal_pane_anchor_rejects_a_context_free_rendered_row() {
    let error =
        TerminalInsertionAnchor::from_snapshot("header\nHERDR\nfooter", "HERDR").unwrap_err();

    assert_eq!(error, "pane_line_context_unavailable");
}

#[test]
fn terminal_pane_anchor_rejects_multiple_later_context_matches() {
    let anchor =
        TerminalInsertionAnchor::from_snapshot("header\nproject $ HERDR\nfooter", "HERDR").unwrap();

    assert_eq!(
        anchor.project("project $ Herdr\nproject $ Other"),
        EditProjection::Unrelated
    );
}

#[test]
fn terminal_pane_anchor_rejects_an_ambiguous_initial_screen() {
    let error = TerminalInsertionAnchor::from_snapshot("HERDR\nother HERDR", "HERDR").unwrap_err();

    assert_eq!(error, "inserted_text_not_unique_in_pane");
}

#[test]
fn terminal_pane_anchor_rejects_multiline_insertions_for_ax_fallback() {
    let error = TerminalInsertionAnchor::from_snapshot(
        "project $ first line\nsecond line",
        "first line\nsecond line",
    )
    .unwrap_err();

    assert_eq!(error, "pane_multiline_insert_unsupported");
}

#[test]
fn extracts_an_edit_to_the_inserted_span_without_storing_surrounding_document_text() {
    let anchor = InsertionAnchor::from_post_insert("前文 Lumen Asr 后文", "Lumen Asr").unwrap();

    assert_eq!(
        anchor.project("前文 Lumen ASR 后文"),
        EditProjection::Edited { after_text: "Lumen ASR".into() }
    );
}

#[test]
fn accepts_deleting_the_inserted_span() {
    let anchor = InsertionAnchor::from_post_insert("prefix听写结果", "听写结果").unwrap();

    assert_eq!(
        anchor.project("prefix"),
        EditProjection::Edited { after_text: String::new() }
    );
}

#[test]
fn rejects_an_edit_outside_the_inserted_span() {
    let anchor = InsertionAnchor::from_post_insert("旧内容 本次听写 尾部", "本次听写").unwrap();

    assert_eq!(
        anchor.project("旧内容已改 本次听写 尾部"),
        EditProjection::Unrelated
    );
}

#[test]
fn rejects_an_ambiguous_duplicate_insertion() {
    let error = InsertionAnchor::from_post_insert("Codex and Codex", "Codex").unwrap_err();

    assert_eq!(error, "inserted_text_not_unique_in_field");
}

#[test]
fn reports_the_original_field_as_unchanged() {
    let anchor = InsertionAnchor::from_post_insert("一段听写", "一段听写").unwrap();

    assert_eq!(anchor.project("一段听写"), EditProjection::Unchanged);
}

#[test]
fn extracts_only_the_latest_terminal_line_after_an_ax_redraw() {
    let anchor =
        InsertionAnchor::from_post_insert("history\nproject $ LUMEN ORIGINAL", "LUMEN ORIGINAL")
            .unwrap();

    assert_eq!(
        anchor.project_terminal_current_line(
            "history\nproject $ LUMEN EDITED%              project $ LUMEN EDITED"
        ),
        EditProjection::Edited { after_text: "LUMEN EDITED".into() }
    );
}

#[test]
fn collapses_a_terminal_redraw_when_the_prompt_was_not_exposed_initially() {
    let anchor =
        InsertionAnchor::from_post_insert("last login\nLUMEN ORIGINAL", "LUMEN ORIGINAL").unwrap();

    assert_eq!(
        anchor.project_terminal_current_line(
            "last login\nLUMEN EDITED%              project $ LUMEN EDITED"
        ),
        EditProjection::Edited { after_text: "LUMEN EDITED".into() }
    );
}

#[test]
fn strips_a_redrawn_shell_prompt_from_a_similar_edited_suffix() {
    let anchor = InsertionAnchor::from_post_insert(
        "last login\nLUMEN ORIGINAL 1234567890",
        "LUMEN ORIGINAL 1234567890",
    )
    .unwrap();

    assert_eq!(
        anchor.project_terminal_current_line(
            "last login\nproject on main via rust LUMEN EDITED 1234567890"
        ),
        EditProjection::Edited { after_text: "LUMEN EDITED 1234567890".into() }
    );
}

#[test]
fn rejects_terminal_command_execution_as_an_edit() {
    let anchor =
        InsertionAnchor::from_post_insert("last login\nLUMEN ORIGINAL", "LUMEN ORIGINAL").unwrap();

    assert_eq!(
        anchor.project_terminal_current_line(
            "last login\nLUMEN ORIGINAL\ncommand output\nproject $ "
        ),
        EditProjection::Unrelated
    );
}

#[test]
fn the_text_must_be_where_it_was_inserted() {
    assert_eq!(
        InsertionAnchor::from_post_insert("nothing here", "text").unwrap_err(),
        "inserted_text_not_found_in_field"
    );
    assert_eq!(
        InsertionAnchor::from_post_insert("field", "").unwrap_err(),
        "inserted_text_empty"
    );
    assert_eq!(
        TerminalInsertionAnchor::from_snapshot("$ here", "text").unwrap_err(),
        "inserted_text_not_found_in_pane"
    );
}

#[test]
fn a_screen_edit_stands_in_one_row() {
    let anchor = TerminalInsertionAnchor::from_snapshot("$ one\nrest", "one").unwrap();
    assert_eq!(anchor.project("$ one\nelse"), EditProjection::Unchanged);
    assert_eq!(
        anchor.project("top\n$ two words"),
        EditProjection::Edited { after_text: "two words".into() }
    );
    assert_eq!(anchor.project("no prompt"), EditProjection::Unrelated);
}
