//! The bounded subset of a captured context that may be sent to the corrector,
//! and the provenance of what each pipeline stage was offered.
use crate::context_manifest::BrowserContext;
use crate::context_manifest::ContextManifest;
use crate::context_manifest::EditorContext;
use crate::context_manifest::SourceState;
use crate::context_manifest::TargetContext;
use crate::context_manifest::VisibleTextBlock;
use crate::outside;
use crate::text;
use vstd::prelude::*;
use vstd::string::*;

verus! {

pub const TARGET_TEXT_LIMIT: usize = 256;

pub const EDITOR_SELECTED_LIMIT: usize = 1_000;

pub const EDITOR_CONTEXT_LIMIT: usize = 1_500;

pub const EDITOR_FIELD_LIMIT: usize = 3_500;

pub const VISIBLE_BLOCK_LIMIT: usize = 10;

pub const VISIBLE_TEXT_LIMIT: usize = 2_000;

// ---------------------------------------------------------------------------
// Projections
// ---------------------------------------------------------------------------

/// Bounded, deterministic subset of a captured context snapshot that may be
/// sent to the configured corrector.
#[derive(Debug, Clone, Default, PartialEq, Eq)]
pub struct CorrectorContextProjection {
    pub schema_version: u32,
    pub target: Option<CorrectorTargetProjection>,
    pub editor: Option<CorrectorEditorProjection>,
    pub browser: Option<CorrectorBrowserProjection>,
    pub visible_text: Vec<String>,
    pub truncated: bool,
}

#[derive(Debug, Clone, Default, PartialEq, Eq)]
pub struct CorrectorTargetProjection {
    pub app_name: Option<String>,
    pub bundle_id: Option<String>,
    pub window_title: Option<String>,
    pub document_url: Option<String>,
}

#[derive(Debug, Clone, Default, PartialEq, Eq)]
pub struct CorrectorEditorProjection {
    pub role: Option<String>,
    pub title: Option<String>,
    pub label: Option<String>,
    pub placeholder: Option<String>,
    pub selected_text: Option<String>,
    pub cursor_before: Option<String>,
    pub cursor_after: Option<String>,
    pub nearby_before: Option<String>,
    pub nearby_after: Option<String>,
    pub field_text: Option<String>,
}

#[derive(Debug, Clone, Default, PartialEq, Eq)]
pub struct CorrectorBrowserProjection {
    pub title: Option<String>,
    pub domain: Option<String>,
    pub page_language: Option<String>,
    pub selection_text: Option<String>,
    pub nearby_before: Option<String>,
    pub nearby_after: Option<String>,
}

/// The model of a [`CorrectorTargetProjection`].
#[verifier::ext_equal]
pub struct TargetText {
    pub app_name: Option<Seq<char>>,
    pub bundle_id: Option<Seq<char>>,
    pub window_title: Option<Seq<char>>,
    pub document_url: Option<Seq<char>>,
}

/// The model of a [`CorrectorEditorProjection`].
#[verifier::ext_equal]
pub struct EditorText {
    pub role: Option<Seq<char>>,
    pub title: Option<Seq<char>>,
    pub label: Option<Seq<char>>,
    pub placeholder: Option<Seq<char>>,
    pub selected_text: Option<Seq<char>>,
    pub cursor_before: Option<Seq<char>>,
    pub cursor_after: Option<Seq<char>>,
    pub nearby_before: Option<Seq<char>>,
    pub nearby_after: Option<Seq<char>>,
    pub field_text: Option<Seq<char>>,
}

/// The model of a [`CorrectorBrowserProjection`].
#[verifier::ext_equal]
pub struct BrowserText {
    pub title: Option<Seq<char>>,
    pub domain: Option<Seq<char>>,
    pub page_language: Option<Seq<char>>,
    pub selection_text: Option<Seq<char>>,
    pub nearby_before: Option<Seq<char>>,
    pub nearby_after: Option<Seq<char>>,
}

/// The model of a [`CorrectorContextProjection`].
#[verifier::ext_equal]
pub struct ContextText {
    pub schema_version: int,
    pub target: Option<TargetText>,
    pub editor: Option<EditorText>,
    pub browser: Option<BrowserText>,
    pub visible_text: Seq<Seq<char>>,
    pub truncated: bool,
}

impl View for CorrectorTargetProjection {
    type V = TargetText;

    open spec fn view(&self) -> TargetText {
        TargetText {
            app_name: text::opt(self.app_name),
            bundle_id: text::opt(self.bundle_id),
            window_title: text::opt(self.window_title),
            document_url: text::opt(self.document_url),
        }
    }
}

impl View for CorrectorEditorProjection {
    type V = EditorText;

    open spec fn view(&self) -> EditorText {
        EditorText {
            role: text::opt(self.role),
            title: text::opt(self.title),
            label: text::opt(self.label),
            placeholder: text::opt(self.placeholder),
            selected_text: text::opt(self.selected_text),
            cursor_before: text::opt(self.cursor_before),
            cursor_after: text::opt(self.cursor_after),
            nearby_before: text::opt(self.nearby_before),
            nearby_after: text::opt(self.nearby_after),
            field_text: text::opt(self.field_text),
        }
    }
}

impl View for CorrectorBrowserProjection {
    type V = BrowserText;

    open spec fn view(&self) -> BrowserText {
        BrowserText {
            title: text::opt(self.title),
            domain: text::opt(self.domain),
            page_language: text::opt(self.page_language),
            selection_text: text::opt(self.selection_text),
            nearby_before: text::opt(self.nearby_before),
            nearby_after: text::opt(self.nearby_after),
        }
    }
}

/// The model of an optional part.
pub open spec fn part<T: View>(value: Option<T>) -> Option<T::V> {
    match value {
        Some(v) => Some(v@),
        None => None,
    }
}

impl View for CorrectorContextProjection {
    type V = ContextText;

    open spec fn view(&self) -> ContextText {
        ContextText {
            schema_version: self.schema_version as int,
            target: part(self.target),
            editor: part(self.editor),
            browser: part(self.browser),
            visible_text: text::texts(self.visible_text@),
            truncated: self.truncated,
        }
    }
}

// ---------------------------------------------------------------------------
// Bounded texts
// ---------------------------------------------------------------------------

/// A text without the white space around it; nothing where that leaves nothing.
pub open spec fn normalized(value: Option<Seq<char>>) -> Option<Seq<char>> {
    match value {
        Some(s) => if text::trim(s).len() == 0 {
            None
        } else {
            Some(text::trim(s))
        },
        None => None,
    }
}

/// The first `limit` scalar values of a normalized text.
pub open spec fn head(value: Option<Seq<char>>, limit: int) -> Option<Seq<char>> {
    match normalized(value) {
        Some(s) => Some(
            if s.len() <= limit {
                s
            } else {
                s.take(limit)
            },
        ),
        None => None,
    }
}

/// The last `limit` scalar values of a normalized text.
pub open spec fn tail(value: Option<Seq<char>>, limit: int) -> Option<Seq<char>> {
    match normalized(value) {
        Some(s) => Some(
            if s.len() <= limit {
                s
            } else {
                s.skip(s.len() - limit)
            },
        ),
        None => None,
    }
}

/// A normalized text with its middle left out where it is over `limit`.
pub open spec fn edges(value: Option<Seq<char>>, limit: int) -> Option<Seq<char>> {
    match normalized(value) {
        Some(s) => Some(
            if s.len() <= limit {
                s
            } else {
                s.take(limit / 2) + "\n…\n"@ + s.skip(s.len() - (limit - limit / 2))
            },
        ),
        None => None,
    }
}

/// A normalized text is over `limit`, so that part of it is left out.
pub open spec fn over(value: Option<Seq<char>>, limit: int) -> bool {
    normalized(value) matches Some(s) && s.len() > limit
}

/// `value` where it is allowed.
pub open spec fn allow(allowed: bool, value: Option<Seq<char>>) -> Option<Seq<char>> {
    if allowed {
        value
    } else {
        None
    }
}

fn normalized_text(value: &str) -> (r: Option<String>)
    ensures
        text::opt(r) == normalized(Some(value@)),
{
    let trimmed: String = text::trimmed(value);
    if trimmed.as_str().is_empty() {
        None
    } else {
        Some(trimmed)
    }
}

fn bounded_prefix(value: Option<&String>, limit: usize, truncated: &mut bool) -> (r: Option<String>)
    ensures
        text::opt(r) == head(text::seen(value), limit as int),
        *final(truncated) == (*old(truncated) || over(text::seen(value), limit as int)),
{
    let value: String = match value {
        Some(value) => match normalized_text(value.as_str()) {
            Some(value) => value,
            None => return None,
        },
        None => return None,
    };
    let chars: Vec<char> = text::to_chars(value.as_str());
    if chars.len() <= limit {
        return Some(value);
    }
    *truncated = true;
    let cut: String = text::from_chars(&chars, 0, limit);
    assert(cut@ =~= chars@.take(limit as int));
    Some(cut)
}

fn bounded_suffix(value: Option<&String>, limit: usize, truncated: &mut bool) -> (r: Option<String>)
    ensures
        text::opt(r) == tail(text::seen(value), limit as int),
        *final(truncated) == (*old(truncated) || over(text::seen(value), limit as int)),
{
    let value: String = match value {
        Some(value) => match normalized_text(value.as_str()) {
            Some(value) => value,
            None => return None,
        },
        None => return None,
    };
    let chars: Vec<char> = text::to_chars(value.as_str());
    let count: usize = chars.len();
    if count <= limit {
        return Some(value);
    }
    *truncated = true;
    let cut: String = text::from_chars(&chars, count - limit, count);
    assert(cut@ =~= chars@.skip(count - limit));
    Some(cut)
}

fn bounded_around_edges(value: Option<&String>, limit: usize, truncated: &mut bool) -> (r: Option<
    String,
>)
    ensures
        text::opt(r) == edges(text::seen(value), limit as int),
        *final(truncated) == (*old(truncated) || over(text::seen(value), limit as int)),
{
    let value: String = match value {
        Some(value) => match normalized_text(value.as_str()) {
            Some(value) => value,
            None => return None,
        },
        None => return None,
    };
    let chars: Vec<char> = text::to_chars(value.as_str());
    let count: usize = chars.len();
    if count <= limit {
        return Some(value);
    }
    *truncated = true;
    let left: usize = limit / 2;
    let right: usize = limit - left;
    let mut cut: String = text::from_chars(&chars, 0, left);
    let suffix: String = text::from_chars(&chars, count - right, count);
    assert(cut@ =~= chars@.take(left as int));
    assert(suffix@ =~= chars@.skip(count - right));
    cut.append("\n…\n");
    cut.append(suffix.as_str());
    Some(cut)
}

/// `value` up to its query and its fragment.
pub open spec fn without_query(value: Seq<char>) -> Seq<char> {
    text::until(value, |c: char| c == '?' || c == '#')
}

fn strip_url_query_and_fragment(value: &str) -> (r: String)
    ensures
        r@ == without_query(value@),
{
    let cut = |c: char| -> (b: bool)
        ensures
            b == (c == '?' || c == '#'),
        { c == '?' || c == '#' };
    text::until_where(value, cut, Ghost(|c: char| c == '?' || c == '#'))
}

/// The applications that are known to be web browsers.
pub open spec fn known_browser(bundle_id: Seq<char>) -> bool {
    ||| bundle_id == "com.apple.Safari"@
    ||| bundle_id == "com.apple.SafariTechnologyPreview"@
    ||| bundle_id == "com.google.Chrome"@
    ||| bundle_id == "com.google.Chrome.canary"@
    ||| bundle_id == "com.brave.Browser"@
    ||| bundle_id == "com.microsoft.edgemac"@
    ||| bundle_id == "company.thebrowser.Browser"@
    ||| bundle_id == "org.mozilla.firefox"@
    ||| bundle_id == "com.vivaldi.Vivaldi"@
    ||| bundle_id == "com.operasoftware.Opera"@
}

fn is_known_browser_bundle(bundle_id: &str) -> (r: bool)
    ensures
        r == known_browser(bundle_id@),
{
    text::same(bundle_id, "com.apple.Safari") || text::same(
        bundle_id,
        "com.apple.SafariTechnologyPreview",
    ) || text::same(bundle_id, "com.google.Chrome") || text::same(
        bundle_id,
        "com.google.Chrome.canary",
    ) || text::same(bundle_id, "com.brave.Browser") || text::same(
        bundle_id,
        "com.microsoft.edgemac",
    ) || text::same(bundle_id, "company.thebrowser.Browser") || text::same(
        bundle_id,
        "org.mozilla.firefox",
    ) || text::same(bundle_id, "com.vivaldi.Vivaldi") || text::same(
        bundle_id,
        "com.operasoftware.Opera",
    )
}

// ---------------------------------------------------------------------------
// The projection of a manifest
// ---------------------------------------------------------------------------

/// The target is a known browser of whose page nothing was learnt, so that a
/// private page cannot be told from any other.
pub open spec fn browser_privacy_unknown(manifest: ContextManifest) -> bool {
    &&& manifest.target matches Some(target)
    &&& target.bundle_id matches Some(bundle_id)
    &&& known_browser(bundle_id@)
    &&& !(manifest.browser_status matches Some(state) && state.collected())
}

/// Text of the manifest may leave the machine.
pub open spec fn text_allowed(manifest: ContextManifest) -> bool {
    &&& manifest.privacy.raw_text_allowed
    &&& !manifest.secure_focus()
    &&& !(manifest.browser_status matches Some(state) && state.refused())
    &&& !browser_privacy_unknown(manifest)
}

pub open spec fn target_text(target: TargetContext, allowed: bool) -> TargetText {
    TargetText {
        app_name: head(text::opt(target.app_name), TARGET_TEXT_LIMIT as int),
        bundle_id: head(text::opt(target.bundle_id), TARGET_TEXT_LIMIT as int),
        window_title: allow(
            allowed,
            head(text::opt(target.window_title), TARGET_TEXT_LIMIT as int),
        ),
        document_url: allow(allowed, head(url_text(target), TARGET_TEXT_LIMIT as int)),
    }
}

/// The document's address, without its query and its fragment.
pub open spec fn url_text(target: TargetContext) -> Option<Seq<char>> {
    match target.document_url {
        Some(url) => Some(without_query(url@)),
        None => None,
    }
}

/// Part of the target's text is left out.
pub open spec fn target_cut(target: TargetContext, allowed: bool) -> bool {
    let limit = TARGET_TEXT_LIMIT as int;
    ||| over(text::opt(target.app_name), limit)
    ||| over(text::opt(target.bundle_id), limit)
    ||| allowed && over(text::opt(target.window_title), limit)
    ||| allowed && over(url_text(target), limit)
}

/// The field tells what stands at the cursor.
pub open spec fn has_cursor_context(editor: EditorContext) -> bool {
    editor.cursor_prefix is Some || editor.cursor_suffix is Some || editor.selected_text is Some
}

/// The field tells what stands near it.
pub open spec fn has_nearby_context(editor: EditorContext) -> bool {
    editor.nearby_before is Some || editor.nearby_after is Some
}

pub open spec fn editor_text(editor: EditorContext, allowed: bool) -> EditorText {
    let meta = TARGET_TEXT_LIMIT as int;
    let context = EDITOR_CONTEXT_LIMIT as int;
    let nearby = allowed && !has_cursor_context(editor);
    EditorText {
        role: head(text::opt(editor.role), meta),
        title: allow(allowed, head(text::opt(editor.title), meta)),
        label: allow(allowed, head(text::opt(editor.label), meta)),
        placeholder: allow(allowed, head(text::opt(editor.placeholder), meta)),
        selected_text: allow(
            allowed,
            head(text::opt(editor.selected_text), EDITOR_SELECTED_LIMIT as int),
        ),
        cursor_before: allow(allowed, tail(text::opt(editor.cursor_prefix), context)),
        cursor_after: allow(allowed, head(text::opt(editor.cursor_suffix), context)),
        nearby_before: allow(nearby, tail(text::opt(editor.nearby_before), context)),
        nearby_after: allow(nearby, head(text::opt(editor.nearby_after), context)),
        field_text: allow(
            nearby && !has_nearby_context(editor),
            edges(text::opt(editor.full_field_text), EDITOR_FIELD_LIMIT as int),
        ),
    }
}

/// Part of the field's text is left out.
pub open spec fn editor_cut(editor: EditorContext, allowed: bool) -> bool {
    let meta = TARGET_TEXT_LIMIT as int;
    let context = EDITOR_CONTEXT_LIMIT as int;
    let nearby = allowed && !has_cursor_context(editor);
    ||| over(text::opt(editor.role), meta)
    ||| allowed && over(text::opt(editor.title), meta)
    ||| allowed && over(text::opt(editor.label), meta)
    ||| allowed && over(text::opt(editor.placeholder), meta)
    ||| allowed && over(text::opt(editor.selected_text), EDITOR_SELECTED_LIMIT as int)
    ||| allowed && over(text::opt(editor.cursor_prefix), context)
    ||| allowed && over(text::opt(editor.cursor_suffix), context)
    ||| nearby && over(text::opt(editor.nearby_before), context)
    ||| nearby && over(text::opt(editor.nearby_after), context)
    ||| nearby && !has_nearby_context(editor) && over(
        text::opt(editor.full_field_text),
        EDITOR_FIELD_LIMIT as int,
    )
}

pub open spec fn browser_text(
    browser: BrowserContext,
    allowed: bool,
    editor_has_text: bool,
) -> BrowserText {
    let meta = TARGET_TEXT_LIMIT as int;
    let context = EDITOR_CONTEXT_LIMIT as int;
    let reference = allowed && !editor_has_text;
    BrowserText {
        title: allow(allowed, head(text::opt(browser.title), meta)),
        domain: allow(allowed, head(text::opt(browser.domain), meta)),
        page_language: head(text::opt(browser.page_language), meta),
        selection_text: allow(
            reference,
            head(text::opt(browser.selection_text), EDITOR_SELECTED_LIMIT as int),
        ),
        nearby_before: allow(reference, tail(text::opt(browser.nearby_before), context)),
        nearby_after: allow(reference, head(text::opt(browser.nearby_after), context)),
    }
}

/// Part of the page's text is left out.
pub open spec fn browser_cut(
    browser: BrowserContext,
    allowed: bool,
    editor_has_text: bool,
) -> bool {
    let meta = TARGET_TEXT_LIMIT as int;
    let context = EDITOR_CONTEXT_LIMIT as int;
    let reference = allowed && !editor_has_text;
    ||| allowed && over(text::opt(browser.title), meta)
    ||| allowed && over(text::opt(browser.domain), meta)
    ||| over(text::opt(browser.page_language), meta)
    ||| reference && over(text::opt(browser.selection_text), EDITOR_SELECTED_LIMIT as int)
    ||| reference && over(text::opt(browser.nearby_before), context)
    ||| reference && over(text::opt(browser.nearby_after), context)
}

impl TargetText {
    pub open spec fn present(self) -> bool {
        ||| self.app_name is Some
        ||| self.bundle_id is Some
        ||| self.window_title is Some
        ||| self.document_url is Some
    }
}

impl EditorText {
    /// Some of the field's own text is there.
    pub open spec fn has_reference_text(self) -> bool {
        ||| self.selected_text is Some
        ||| self.cursor_before is Some
        ||| self.cursor_after is Some
        ||| self.nearby_before is Some
        ||| self.nearby_after is Some
        ||| self.field_text is Some
    }

    pub open spec fn present(self) -> bool {
        ||| self.role is Some
        ||| self.title is Some
        ||| self.label is Some
        ||| self.placeholder is Some
        ||| self.has_reference_text()
    }
}

impl BrowserText {
    /// Some of the page's own text is there.
    pub open spec fn has_reference_text(self) -> bool {
        ||| self.selection_text is Some
        ||| self.nearby_before is Some
        ||| self.nearby_after is Some
    }

    pub open spec fn present(self) -> bool {
        ||| self.title is Some
        ||| self.domain is Some
        ||| self.page_language is Some
        ||| self.has_reference_text()
    }
}

/// The visible text collected so far.
#[verifier::ext_equal]
pub struct VisibleText {
    pub texts: Seq<Seq<char>>,
    pub chars: int,
    pub cut: bool,
}

/// What is collected of the first `n` blocks: each block's text as far as the
/// budget goes, and none twice.
pub open spec fn visible_text(blocks: Seq<VisibleTextBlock>, n: int) -> VisibleText
    decreases n,
{
    if n <= 0 {
        VisibleText { texts: Seq::empty(), chars: 0, cut: false }
    } else {
        let before = visible_text(blocks, n - 1);
        let left = VISIBLE_TEXT_LIMIT - before.chars;
        if left <= 0 {
            VisibleText { cut: true, ..before }
        } else {
            let block = Some(blocks[n - 1].text@);
            match head(block, left) {
                None => before,
                Some(s) => VisibleText {
                    texts: if before.texts.contains(s) {
                        before.texts
                    } else {
                        before.texts.push(s)
                    },
                    chars: before.chars + s.len(),
                    cut: before.cut || over(block, left),
                },
            }
        }
    }
}

/// The number of blocks that are looked at.
pub open spec fn blocks_used(blocks: Seq<VisibleTextBlock>) -> int {
    if blocks.len() <= VISIBLE_BLOCK_LIMIT {
        blocks.len() as int
    } else {
        VISIBLE_BLOCK_LIMIT as int
    }
}

/// A part, where there is anything in it.
pub open spec fn project_target(manifest: ContextManifest) -> Option<TargetText> {
    match manifest.target {
        Some(target) => {
            let projected = target_text(target, text_allowed(manifest));
            if projected.present() {
                Some(projected)
            } else {
                None
            }
        },
        None => None,
    }
}

pub open spec fn project_editor(manifest: ContextManifest) -> Option<EditorText> {
    match manifest.editor {
        Some(editor) => {
            let projected = editor_text(editor, text_allowed(manifest));
            if projected.present() {
                Some(projected)
            } else {
                None
            }
        },
        None => None,
    }
}

pub open spec fn editor_has_text(manifest: ContextManifest) -> bool {
    project_editor(manifest) matches Some(editor) && editor.has_reference_text()
}

pub open spec fn project_browser(manifest: ContextManifest) -> Option<BrowserText> {
    match manifest.browser {
        Some(browser) => {
            let projected = browser_text(
                browser,
                text_allowed(manifest),
                editor_has_text(manifest),
            );
            if projected.present() {
                Some(projected)
            } else {
                None
            }
        },
        None => None,
    }
}

pub open spec fn browser_has_text(manifest: ContextManifest) -> bool {
    project_browser(manifest) matches Some(browser) && browser.has_reference_text()
}

/// The visible text stands in for the field's and the page's text, where
/// there is neither.
pub open spec fn project_visible(manifest: ContextManifest) -> VisibleText {
    if text_allowed(manifest) && !editor_has_text(manifest) && !browser_has_text(manifest) {
        match manifest.visible_text_fused {
            Some(document) => {
                let seen = visible_text(document.blocks@, blocks_used(document.blocks@));
                VisibleText {
                    cut: seen.cut || document.blocks@.len() > VISIBLE_BLOCK_LIMIT,
                    ..seen
                }
            },
            None => visible_text(Seq::empty(), 0),
        }
    } else {
        visible_text(Seq::empty(), 0)
    }
}

/// Part of the manifest's text is left out.
pub open spec fn projection_cut(manifest: ContextManifest) -> bool {
    let allowed = text_allowed(manifest);
    ||| manifest.target matches Some(target) && target_cut(target, allowed)
    ||| manifest.editor matches Some(editor) && editor_cut(editor, allowed)
    ||| manifest.browser matches Some(browser) && browser_cut(
        browser,
        allowed,
        editor_has_text(manifest),
    )
    ||| project_visible(manifest).cut
}

/// The context that may be sent to the corrector.
pub open spec fn project_context(manifest: ContextManifest) -> Option<ContextText> {
    let projected = ContextText {
        schema_version: 1,
        target: project_target(manifest),
        editor: project_editor(manifest),
        browser: project_browser(manifest),
        visible_text: project_visible(manifest).texts,
        truncated: projection_cut(manifest),
    };
    if projected.target is Some || projected.editor is Some || projected.browser is Some
        || projected.visible_text.len() > 0 {
        Some(projected)
    } else {
        None
    }
}

fn target_projection_present(value: &CorrectorTargetProjection) -> (r: bool)
    ensures
        r == value@.present(),
{
    value.app_name.is_some() || value.bundle_id.is_some() || value.window_title.is_some()
        || value.document_url.is_some()
}

fn editor_projection_present(value: &CorrectorEditorProjection) -> (r: bool)
    ensures
        r == value@.present(),
{
    value.role.is_some() || value.title.is_some() || value.label.is_some()
        || value.placeholder.is_some() || editor_projection_has_reference_text(value)
}

fn editor_projection_has_reference_text(value: &CorrectorEditorProjection) -> (r: bool)
    ensures
        r == value@.has_reference_text(),
{
    value.selected_text.is_some() || value.cursor_before.is_some() || value.cursor_after.is_some()
        || value.nearby_before.is_some() || value.nearby_after.is_some()
        || value.field_text.is_some()
}

fn browser_projection_present(value: &CorrectorBrowserProjection) -> (r: bool)
    ensures
        r == value@.present(),
{
    value.title.is_some() || value.domain.is_some() || value.page_language.is_some()
        || browser_projection_has_reference_text(value)
}

fn browser_projection_has_reference_text(value: &CorrectorBrowserProjection) -> (r: bool)
    ensures
        r == value@.has_reference_text(),
{
    value.selection_text.is_some() || value.nearby_before.is_some() || value.nearby_after.is_some()
}

/// Whether text of the manifest may leave the machine.
fn context_text_allowed(manifest: &ContextManifest) -> (r: bool)
    ensures
        r == text_allowed(*manifest),
{
    let refused: bool = match manifest.browser_status {
        Some(SourceState::Denied) => true,
        Some(SourceState::SkippedPolicy) => true,
        _ => false,
    };
    let collected: bool = match manifest.browser_status {
        Some(SourceState::Succeeded) => true,
        Some(SourceState::Empty) => true,
        _ => false,
    };
    let browser_target: bool = match &manifest.target {
        Some(target) => match &target.bundle_id {
            Some(bundle_id) => is_known_browser_bundle(bundle_id.as_str()),
            None => false,
        },
        None => false,
    };
    manifest.privacy.raw_text_allowed && !manifest.has_secure_focus() && !refused && !(
    browser_target && !collected)
}

fn target_projection(target: &TargetContext, allowed: bool, truncated: &mut bool) -> (r: Option<
    CorrectorTargetProjection,
>)
    ensures
        part(r) == ({
            let projected = target_text(*target, allowed);
            if projected.present() {
                Some(projected)
            } else {
                None
            }
        }),
        *final(truncated) == (*old(truncated) || target_cut(*target, allowed)),
{
    let app_name: Option<String> = bounded_prefix(
        target.app_name.as_ref(),
        TARGET_TEXT_LIMIT,
        truncated,
    );
    let bundle_id: Option<String> = bounded_prefix(
        target.bundle_id.as_ref(),
        TARGET_TEXT_LIMIT,
        truncated,
    );
    let window_title: Option<String> = if allowed {
        bounded_prefix(target.window_title.as_ref(), TARGET_TEXT_LIMIT, truncated)
    } else {
        None
    };
    let document_url: Option<String> = if allowed {
        match &target.document_url {
            Some(url) => {
                let url: String = strip_url_query_and_fragment(url.as_str());
                bounded_prefix(Some(&url), TARGET_TEXT_LIMIT, truncated)
            },
            None => None,
        }
    } else {
        None
    };
    let projection = CorrectorTargetProjection { app_name, bundle_id, window_title, document_url };
    if target_projection_present(&projection) {
        Some(projection)
    } else {
        None
    }
}

fn editor_projection(editor: &EditorContext, allowed: bool, truncated: &mut bool) -> (r: Option<
    CorrectorEditorProjection,
>)
    ensures
        part(r) == ({
            let projected = editor_text(*editor, allowed);
            if projected.present() {
                Some(projected)
            } else {
                None
            }
        }),
        *final(truncated) == (*old(truncated) || editor_cut(*editor, allowed)),
{
    let at_cursor: bool = editor.cursor_prefix.is_some() || editor.cursor_suffix.is_some()
        || editor.selected_text.is_some();
    let nearby: bool = allowed && !at_cursor;
    let whole: bool = nearby && !(editor.nearby_before.is_some() || editor.nearby_after.is_some());
    let role: Option<String> = bounded_prefix(editor.role.as_ref(), TARGET_TEXT_LIMIT, truncated);
    let title: Option<String> = if allowed {
        bounded_prefix(editor.title.as_ref(), TARGET_TEXT_LIMIT, truncated)
    } else {
        None
    };
    let label: Option<String> = if allowed {
        bounded_prefix(editor.label.as_ref(), TARGET_TEXT_LIMIT, truncated)
    } else {
        None
    };
    let placeholder: Option<String> = if allowed {
        bounded_prefix(editor.placeholder.as_ref(), TARGET_TEXT_LIMIT, truncated)
    } else {
        None
    };
    let selected_text: Option<String> = if allowed {
        bounded_prefix(editor.selected_text.as_ref(), EDITOR_SELECTED_LIMIT, truncated)
    } else {
        None
    };
    let cursor_before: Option<String> = if allowed {
        bounded_suffix(editor.cursor_prefix.as_ref(), EDITOR_CONTEXT_LIMIT, truncated)
    } else {
        None
    };
    let cursor_after: Option<String> = if allowed {
        bounded_prefix(editor.cursor_suffix.as_ref(), EDITOR_CONTEXT_LIMIT, truncated)
    } else {
        None
    };
    let nearby_before: Option<String> = if nearby {
        bounded_suffix(editor.nearby_before.as_ref(), EDITOR_CONTEXT_LIMIT, truncated)
    } else {
        None
    };
    let nearby_after: Option<String> = if nearby {
        bounded_prefix(editor.nearby_after.as_ref(), EDITOR_CONTEXT_LIMIT, truncated)
    } else {
        None
    };
    let field_text: Option<String> = if whole {
        bounded_around_edges(editor.full_field_text.as_ref(), EDITOR_FIELD_LIMIT, truncated)
    } else {
        None
    };
    let projection = CorrectorEditorProjection {
        role,
        title,
        label,
        placeholder,
        selected_text,
        cursor_before,
        cursor_after,
        nearby_before,
        nearby_after,
        field_text,
    };
    if editor_projection_present(&projection) {
        Some(projection)
    } else {
        None
    }
}

fn browser_projection(
    browser: &BrowserContext,
    allowed: bool,
    has_text: bool,
    truncated: &mut bool,
) -> (r: Option<CorrectorBrowserProjection>)
    ensures
        part(r) == ({
            let projected = browser_text(*browser, allowed, has_text);
            if projected.present() {
                Some(projected)
            } else {
                None
            }
        }),
        *final(truncated) == (*old(truncated) || browser_cut(*browser, allowed, has_text)),
{
    let reference: bool = allowed && !has_text;
    let title: Option<String> = if allowed {
        bounded_prefix(browser.title.as_ref(), TARGET_TEXT_LIMIT, truncated)
    } else {
        None
    };
    let domain: Option<String> = if allowed {
        bounded_prefix(browser.domain.as_ref(), TARGET_TEXT_LIMIT, truncated)
    } else {
        None
    };
    let page_language: Option<String> = bounded_prefix(
        browser.page_language.as_ref(),
        TARGET_TEXT_LIMIT,
        truncated,
    );
    let selection_text: Option<String> = if reference {
        bounded_prefix(browser.selection_text.as_ref(), EDITOR_SELECTED_LIMIT, truncated)
    } else {
        None
    };
    let nearby_before: Option<String> = if reference {
        bounded_suffix(browser.nearby_before.as_ref(), EDITOR_CONTEXT_LIMIT, truncated)
    } else {
        None
    };
    let nearby_after: Option<String> = if reference {
        bounded_prefix(browser.nearby_after.as_ref(), EDITOR_CONTEXT_LIMIT, truncated)
    } else {
        None
    };
    let projection = CorrectorBrowserProjection {
        title,
        domain,
        page_language,
        selection_text,
        nearby_before,
        nearby_after,
    };
    if browser_projection_present(&projection) {
        Some(projection)
    } else {
        None
    }
}

/// Whether `s` is one of `texts`.
fn among(texts: &Vec<String>, s: &str) -> (r: bool)
    ensures
        r == text::texts(texts@).contains(s@),
{
    let mut i: usize = 0;
    while i < texts.len()
        invariant
            i <= texts@.len(),
            forall|j: int| 0 <= j < i ==> text::texts(texts@)[j] != s@,
        decreases texts@.len() - i,
    {
        if text::same(texts[i].as_str(), s) {
            assert(text::texts(texts@)[i as int] == s@);
            return true;
        }
        i = i + 1;
    }
    false
}

fn visible_projection(blocks: &Vec<VisibleTextBlock>, truncated: &mut bool) -> (r: Vec<String>)
    ensures
        text::texts(r@) == visible_text(blocks@, blocks_used(blocks@)).texts,
        *final(truncated) == (*old(truncated) || visible_text(blocks@, blocks_used(blocks@)).cut
            || blocks@.len() > VISIBLE_BLOCK_LIMIT),
{
    let used: usize = if blocks.len() <= VISIBLE_BLOCK_LIMIT {
        blocks.len()
    } else {
        VISIBLE_BLOCK_LIMIT
    };
    let mut texts: Vec<String> = Vec::new();
    let mut chars: usize = 0;
    let mut cut: bool = false;
    let mut i: usize = 0;
    assert(text::texts(texts@) =~= Seq::empty());
    while i < used
        invariant
            i <= used <= blocks@.len(),
            chars <= VISIBLE_TEXT_LIMIT,
            visible_text(blocks@, i as int) == (VisibleText {
                texts: text::texts(texts@),
                chars: chars as int,
                cut,
            }),
        decreases used - i,
    {
        if chars >= VISIBLE_TEXT_LIMIT {
            cut = true;
        } else {
            let left: usize = VISIBLE_TEXT_LIMIT - chars;
            if let Some(text) = bounded_prefix(Some(&blocks[i].text), left, &mut cut) {
                let count: usize = text::to_chars(text.as_str()).len();
                chars = chars + count;
                if !among(&texts, text.as_str()) {
                    let ghost before = text::texts(texts@);
                    let ghost last = text@;
                    texts.push(text);
                    assert(text::texts(texts@) =~= before.push(last));
                }
            }
        }
        i = i + 1;
    }
    if cut || blocks.len() > VISIBLE_BLOCK_LIMIT {
        *truncated = true;
    }
    texts
}

/// The bounded subset of `manifest` that may be sent to the corrector.
///
/// A secure focus signal from either accessibility or the browser applies to
/// every textual fallback, and so does a browser policy denial. Without a
/// successful browser result a known browser's page counts as private.
pub fn corrector_projection(manifest: &ContextManifest) -> (r: Option<CorrectorContextProjection>)
    ensures
        part(r) == project_context(*manifest),
{
    let mut truncated: bool = false;
    let allowed: bool = context_text_allowed(manifest);
    let target: Option<CorrectorTargetProjection> = match &manifest.target {
        Some(target) => target_projection(target, allowed, &mut truncated),
        None => None,
    };
    let editor: Option<CorrectorEditorProjection> = match &manifest.editor {
        Some(editor) => editor_projection(editor, allowed, &mut truncated),
        None => None,
    };
    let editor_reference: bool = match &editor {
        Some(editor) => editor_projection_has_reference_text(editor),
        None => false,
    };
    let browser: Option<CorrectorBrowserProjection> = match &manifest.browser {
        Some(browser) => browser_projection(browser, allowed, editor_reference, &mut truncated),
        None => None,
    };
    let browser_reference: bool = match &browser {
        Some(browser) => browser_projection_has_reference_text(browser),
        None => false,
    };
    let mut visible: Vec<String> = Vec::new();
    assert(text::texts(visible@) =~= Seq::empty());
    if allowed && !editor_reference && !browser_reference {
        if let Some(document) = &manifest.visible_text_fused {
            visible = visible_projection(&document.blocks, &mut truncated);
        }
    }
    let projection = CorrectorContextProjection {
        schema_version: 1,
        target,
        editor,
        browser,
        visible_text: visible,
        truncated,
    };
    let names: Vec<String> = projection.source_names();
    proof {
        assert(projection@.visible_text =~= project_visible(*manifest).texts);
        assert(names@.len() == projection@.sources().len());
    }
    if names.len() > 0 {
        Some(projection)
    } else {
        None
    }
}

impl ContextText {
    /// The sources that the context was projected from.
    pub open spec fn sources(self) -> Seq<Seq<char>> {
        let a = if self.target is Some {
            seq!["target"@]
        } else {
            Seq::empty()
        };
        let b = if self.editor is Some {
            a.push("editor_ax"@)
        } else {
            a
        };
        let c = if self.browser is Some {
            b.push("browser"@)
        } else {
            b
        };
        if self.visible_text.len() > 0 {
            c.push("visible_text"@)
        } else {
            c
        }
    }
}

impl CorrectorContextProjection {
    /// The names of the sources that the projection holds text of.
    pub fn source_names(&self) -> (r: Vec<String>)
        ensures
            text::texts(r@) == self@.sources(),
    {
        let mut sources: Vec<String> = Vec::new();
        if self.target.is_some() {
            sources.push("target".to_owned());
        }
        if self.editor.is_some() {
            sources.push("editor_ax".to_owned());
        }
        if self.browser.is_some() {
            sources.push("browser".to_owned());
        }
        if self.visible_text.len() > 0 {
            sources.push("visible_text".to_owned());
        }
        assert(text::texts(sources@) =~= self@.sources());
        sources
    }
}

// ---------------------------------------------------------------------------
// Laws of the projection
// ---------------------------------------------------------------------------

/// Where text may not leave the machine (it was not to be kept, the focus is
/// on a secure field, the browser's policy refused it, or the page of a known
/// browser may be private) nothing is projected but the names of the
/// application and the field's role and the page's language.
pub proof fn refused_text_is_never_projected(manifest: ContextManifest)
    requires
        !text_allowed(manifest),
        project_context(manifest) is Some,
    ensures
        ({
            let context = project_context(manifest)->0;
            &&& context.visible_text.len() == 0
            &&& context.target matches Some(target) ==> target.window_title is None
                && target.document_url is None
            &&& context.editor matches Some(editor) ==> editor == (EditorText {
                role: editor.role,
                title: None,
                label: None,
                placeholder: None,
                selected_text: None,
                cursor_before: None,
                cursor_after: None,
                nearby_before: None,
                nearby_after: None,
                field_text: None,
            })
            &&& context.browser matches Some(browser) ==> browser == (BrowserText {
                title: None,
                domain: None,
                page_language: browser.page_language,
                selection_text: None,
                nearby_before: None,
                nearby_after: None,
            })
        }),
{
}

/// The visible text is projected only where there is neither text of the
/// field nor text of the page.
pub proof fn visible_text_is_a_fallback(manifest: ContextManifest)
    requires
        project_context(manifest) is Some,
        project_context(manifest)->0.visible_text.len() > 0,
    ensures
        text_allowed(manifest),
        project_context(manifest)->0.editor matches Some(editor) ==> !editor.has_reference_text(),
        project_context(manifest)->0.browser matches Some(browser) ==> !browser.has_reference_text(),
{
}

/// A text of at most `limit` scalar values, or none.
pub open spec fn within(value: Option<Seq<char>>, limit: int) -> bool {
    value matches Some(s) ==> 0 < s.len() <= limit
}

proof fn lemma_bounds(value: Option<Seq<char>>, limit: int)
    requires
        2 <= limit,
    ensures
        within(head(value, limit), limit),
        within(tail(value, limit), limit),
        within(edges(value, limit), limit + 3),
{
    reveal_strlit("\n…\n");
}

/// No text of a projection is over its limit.
pub proof fn projection_is_bounded(manifest: ContextManifest)
    requires
        project_context(manifest) is Some,
    ensures
        ({
            let context = project_context(manifest)->0;
            let meta = TARGET_TEXT_LIMIT as int;
            let selected = EDITOR_SELECTED_LIMIT as int;
            let near = EDITOR_CONTEXT_LIMIT as int;
            &&& context.target matches Some(t) ==> within(t.app_name, meta) && within(
                t.bundle_id,
                meta,
            ) && within(t.window_title, meta) && within(t.document_url, meta)
            &&& context.editor matches Some(e) ==> within(e.role, meta) && within(e.title, meta)
                && within(e.label, meta) && within(e.placeholder, meta) && within(
                e.selected_text,
                selected,
            ) && within(e.cursor_before, near) && within(e.cursor_after, near) && within(
                e.nearby_before,
                near,
            ) && within(e.nearby_after, near) && within(e.field_text, EDITOR_FIELD_LIMIT + 3)
            &&& context.browser matches Some(b) ==> within(b.title, meta) && within(b.domain, meta)
                && within(b.page_language, meta) && within(b.selection_text, selected) && within(
                b.nearby_before,
                near,
            ) && within(b.nearby_after, near)
        }),
{
    assert forall|value: Option<Seq<char>>, limit: int| 2 <= limit implies within(
        #[trigger] head(value, limit),
        limit,
    ) by {
        lemma_bounds(value, limit);
    }
    assert forall|value: Option<Seq<char>>, limit: int| 2 <= limit implies within(
        #[trigger] tail(value, limit),
        limit,
    ) by {
        lemma_bounds(value, limit);
    }
    assert forall|value: Option<Seq<char>>, limit: int| 2 <= limit implies within(
        #[trigger] edges(value, limit),
        limit + 3,
    ) by {
        lemma_bounds(value, limit);
    }
}

/// The number of scalar values of all `texts` together.
pub open spec fn total_len(texts: Seq<Seq<char>>) -> int
    decreases texts.len(),
{
    if texts.len() == 0 {
        0
    } else {
        total_len(texts.drop_last()) + texts.last().len()
    }
}

proof fn lemma_visible_bounded(blocks: Seq<VisibleTextBlock>, n: int)
    requires
        0 <= n,
    ensures
        ({
            let seen = visible_text(blocks, n);
            &&& total_len(seen.texts) <= seen.chars <= VISIBLE_TEXT_LIMIT
            &&& seen.texts.len() <= n
            &&& seen.texts.no_duplicates()
        }),
    decreases n,
{
    if n > 0 {
        lemma_visible_bounded(blocks, n - 1);
        let before = visible_text(blocks, n - 1);
        let left = VISIBLE_TEXT_LIMIT - before.chars;
        if left > 0 {
            let block = Some(blocks[n - 1].text@);
            if let Some(s) = head(block, left) {
                assert(s.len() <= left);
                let seen = visible_text(blocks, n);
                if !before.texts.contains(s) {
                    assert(seen.texts.drop_last() =~= before.texts);
                }
            }
        }
    }
}

/// The visible text of a projection has at most the budget's scalar values in
/// all, comes from at most the first ten blocks, and has no text twice.
pub proof fn visible_text_is_bounded(manifest: ContextManifest)
    ensures
        total_len(project_visible(manifest).texts) <= VISIBLE_TEXT_LIMIT,
        project_visible(manifest).texts.len() <= VISIBLE_BLOCK_LIMIT,
        project_visible(manifest).texts.no_duplicates(),
{
    if let Some(document) = manifest.visible_text_fused {
        lemma_visible_bounded(document.blocks@, blocks_used(document.blocks@));
    }
    lemma_visible_bounded(Seq::empty(), 0);
}

/// A projected address holds neither a query nor a fragment.
pub proof fn projected_address_has_no_query(manifest: ContextManifest)
    requires
        project_target(manifest) is Some,
        project_target(manifest)->0.document_url is Some,
    ensures
        ({
            let url = project_target(manifest)->0.document_url->0;
            !url.contains('?') && !url.contains('#')
        }),
{
    let full = manifest.target->0.document_url->0@;
    let bare = without_query(full);
    let cut = |c: char| c == '?' || c == '#';
    text::lemma_until_free(full, cut);
    text::lemma_trim_is_part(bare);
    let url = project_target(manifest)->0.document_url->0;
    assert forall|i: int| 0 <= i < url.len() implies url[i] != '?' && url[i] != '#' by {
        assert(url[i] == text::trim(bare)[i]);
        let c = text::trim(bare)[i];
        assert(bare.contains(c));
        assert(!cut(bare[bare.index_of(c)]));
    }
}

// ---------------------------------------------------------------------------
// The model message
// ---------------------------------------------------------------------------

/// No scalar value of `s` is a control character below U+0020.
pub open spec fn printable(s: Seq<char>) -> bool {
    forall|i: int| 0 <= i < s.len() ==> #[trigger] s[i] >= ' '
}

/// The members of a JSON object so far, with one more.
pub open spec fn with_member(members: Seq<char>, name: Seq<char>, json: Seq<char>) -> Seq<char> {
    let member = "\""@ + name + "\":"@ + json;
    if members.len() == 0 {
        member
    } else {
        members + ","@ + member
    }
}

/// The members of a JSON object so far, with one more where there is a text
/// for it.
pub open spec fn with_text(
    members: Seq<char>,
    name: Seq<char>,
    value: Option<Seq<char>>,
) -> Seq<char> {
    match value {
        Some(value) => with_member(members, name, outside::json_literal(value)),
        None => members,
    }
}

pub open spec fn target_json(t: TargetText) -> Seq<char> {
    let a = with_text(Seq::empty(), "app_name"@, t.app_name);
    let b = with_text(a, "bundle_id"@, t.bundle_id);
    let c = with_text(b, "window_title"@, t.window_title);
    "{"@ + with_text(c, "document_url"@, t.document_url) + "}"@
}

pub open spec fn editor_json(e: EditorText) -> Seq<char> {
    let a = with_text(Seq::empty(), "role"@, e.role);
    let b = with_text(a, "title"@, e.title);
    let c = with_text(b, "label"@, e.label);
    let d = with_text(c, "placeholder"@, e.placeholder);
    let f = with_text(d, "selected_text"@, e.selected_text);
    let g = with_text(f, "cursor_before"@, e.cursor_before);
    let h = with_text(g, "cursor_after"@, e.cursor_after);
    let i = with_text(h, "nearby_before"@, e.nearby_before);
    let j = with_text(i, "nearby_after"@, e.nearby_after);
    "{"@ + with_text(j, "field_text"@, e.field_text) + "}"@
}

pub open spec fn browser_json(b: BrowserText) -> Seq<char> {
    let c = with_text(Seq::empty(), "title"@, b.title);
    let d = with_text(c, "domain"@, b.domain);
    let e = with_text(d, "page_language"@, b.page_language);
    let f = with_text(e, "selection_text"@, b.selection_text);
    let g = with_text(f, "nearby_before"@, b.nearby_before);
    "{"@ + with_text(g, "nearby_after"@, b.nearby_after) + "}"@
}

/// The JSON string literals of `texts`.
pub open spec fn literals(texts: Seq<Seq<char>>) -> Seq<Seq<char>> {
    texts.map_values(|s: Seq<char>| outside::json_literal(s))
}

/// A projection as a JSON object; what is missing is left out.
pub open spec fn context_json(context: ContextText) -> Seq<char> {
    let a = with_member(
        Seq::empty(),
        "schema_version"@,
        text::decimal(context.schema_version as nat),
    );
    let b = match context.target {
        Some(target) => with_member(a, "target"@, target_json(target)),
        None => a,
    };
    let c = match context.editor {
        Some(editor) => with_member(b, "editor"@, editor_json(editor)),
        None => b,
    };
    let d = match context.browser {
        Some(browser) => with_member(c, "browser"@, browser_json(browser)),
        None => c,
    };
    let e = if context.visible_text.len() > 0 {
        with_member(
            d,
            "visible_text"@,
            "["@ + text::join(literals(context.visible_text), ","@) + "]"@,
        )
    } else {
        d
    };
    "{"@ + with_member(
        e,
        "truncated"@,
        if context.truncated {
            "true"@
        } else {
            "false"@
        },
    ) + "}"@
}

/// The two digits of an escaped control character.
pub proof fn lemma_control_digits(c: char)
    requires
        (c as nat) < 32,
    ensures
        text::hex_digits(c as nat, 2) == seq![
            text::hex_digit((c as nat) / 16),
            text::hex_digit((c as nat) % 16),
        ],
        '0' <= text::hex_digit((c as nat) / 16) <= '1',
        '0' <= text::hex_digit((c as nat) % 16) <= 'f',
{
    reveal_with_fuel(text::hex_digits, 3);
    let n = c as nat;
    assert((n / 16) % 16 == n / 16);
    assert(text::hex_digits(n, 2) =~= seq![text::hex_digit(n / 16), text::hex_digit(n % 16)]);
}

proof fn lemma_char_printable(c: char)
    ensures
        printable(outside::json_char(c)),
{
    if (c as nat) < 32 {
        lemma_control_digits(c);
    }
}

proof fn lemma_literal_printable(s: Seq<char>)
    ensures
        printable(outside::json_literal(s)),
    decreases s.len(),
{
    if s.len() > 0 {
        lemma_literal_printable(s.drop_last());
        let body = outside::json_body(s.drop_last());
        assert forall|i: int| 0 <= i < body.len() implies #[trigger] body[i] >= ' ' by {
            assert(outside::json_literal(s.drop_last())[i + 1] == body[i]);
        }
        lemma_char_printable(s.last());
    }
}

/// `s` with the two Unicode line separators, which JSON permits as they are,
/// in escaped form.
pub open spec fn separators_escaped(s: Seq<char>) -> Seq<char>
    decreases s.len(),
{
    if s.len() == 0 {
        Seq::empty()
    } else {
        let before = separators_escaped(s.drop_last());
        if s.last() == '\u{2028}' {
            before + "\\u2028"@
        } else if s.last() == '\u{2029}' {
            before + "\\u2029"@
        } else {
            before.push(s.last())
        }
    }
}

/// Nothing in `s` ends a line.
pub open spec fn one_line(s: Seq<char>) -> bool {
    forall|i: int|
        0 <= i < s.len() ==> #[trigger] s[i] >= ' ' && s[i] != '\u{2028}' && s[i] != '\u{2029}'
}

fn escape_separators(json: &str) -> (r: String)
    ensures
        r@ == separators_escaped(json@),
        printable(json@) ==> one_line(r@),
{
    let chars: Vec<char> = text::to_chars(json);
    let mut r: String = String::new();
    let mut i: usize = 0;
    proof {
        reveal_strlit("\\u2028");
        reveal_strlit("\\u2029");
    }
    while i < chars.len()
        invariant
            i <= chars@.len(),
            chars@ == json@,
            r@ == separators_escaped(chars@.take(i as int)),
            printable(json@) ==> one_line(r@),
            one_line("\\u2028"@),
            one_line("\\u2029"@),
        decreases chars@.len() - i,
    {
        assert(chars@.take(i + 1).drop_last() =~= chars@.take(i as int));
        if chars[i] == '\u{2028}' {
            r.append("\\u2028");
        } else if chars[i] == '\u{2029}' {
            r.append("\\u2029");
        } else {
            r.push(chars[i]);
        }
        i = i + 1;
    }
    assert(chars@.take(i as int) =~= chars@);
    r
}

fn add_member(members: &mut String, name: &str, json: &str)
    requires
        printable(old(members)@),
        printable(name@),
        printable(json@),
    ensures
        final(members)@ == with_member(old(members)@, name@, json@),
        printable(final(members)@),
{
    proof {
        reveal_strlit(",");
        reveal_strlit("\"");
        reveal_strlit("\":");
    }
    let ghost before = members@;
    if !members.as_str().is_empty() {
        members.append(",");
    }
    members.append("\"");
    members.append(name);
    members.append("\":");
    members.append(json);
    assert(members@ =~= with_member(before, name@, json@));
}

fn add_text(members: &mut String, name: &str, value: &Option<String>) -> (r: Result<
    (),
    serde_json::Error,
>)
    requires
        printable(old(members)@),
        printable(name@),
    ensures
        r is Ok,
        final(members)@ == with_text(old(members)@, name@, text::opt(*value)),
        printable(final(members)@),
{
    if let Some(value) = value {
        let json: String = match outside::json_string(value.as_str()) {
            Ok(json) => json,
            Err(error) => return Err(error),
        };
        proof {
            lemma_literal_printable(value@);
        }
        add_member(members, name, json.as_str());
    }
    Ok(())
}

/// `members` between `open` and `close`.
fn enclosed(open: &str, members: &str, close: &str) -> (r: String)
    requires
        printable(open@),
        printable(members@),
        printable(close@),
    ensures
        r@ == open@ + members@ + close@,
        printable(r@),
{
    let mut r: String = open.to_owned();
    r.append(members);
    r.append(close);
    r
}

impl CorrectorTargetProjection {
    fn to_json(&self) -> (r: Result<String, serde_json::Error>)
        ensures
            r matches Ok(json) && json@ == target_json(self@) && printable(json@),
    {
        proof {
            reveal_strlit("{");
            reveal_strlit("}");
            reveal_strlit("app_name");
            reveal_strlit("bundle_id");
            reveal_strlit("window_title");
            reveal_strlit("document_url");
        }
        let mut members: String = String::new();
        add_text(&mut members, "app_name", &self.app_name)?;
        add_text(&mut members, "bundle_id", &self.bundle_id)?;
        add_text(&mut members, "window_title", &self.window_title)?;
        add_text(&mut members, "document_url", &self.document_url)?;
        Ok(enclosed("{", members.as_str(), "}"))
    }
}

impl CorrectorEditorProjection {
    fn to_json(&self) -> (r: Result<String, serde_json::Error>)
        ensures
            r matches Ok(json) && json@ == editor_json(self@) && printable(json@),
    {
        proof {
            reveal_strlit("{");
            reveal_strlit("}");
            reveal_strlit("role");
            reveal_strlit("title");
            reveal_strlit("label");
            reveal_strlit("placeholder");
            reveal_strlit("selected_text");
            reveal_strlit("cursor_before");
            reveal_strlit("cursor_after");
            reveal_strlit("nearby_before");
            reveal_strlit("nearby_after");
            reveal_strlit("field_text");
        }
        let mut members: String = String::new();
        add_text(&mut members, "role", &self.role)?;
        add_text(&mut members, "title", &self.title)?;
        add_text(&mut members, "label", &self.label)?;
        add_text(&mut members, "placeholder", &self.placeholder)?;
        add_text(&mut members, "selected_text", &self.selected_text)?;
        add_text(&mut members, "cursor_before", &self.cursor_before)?;
        add_text(&mut members, "cursor_after", &self.cursor_after)?;
        add_text(&mut members, "nearby_before", &self.nearby_before)?;
        add_text(&mut members, "nearby_after", &self.nearby_after)?;
        add_text(&mut members, "field_text", &self.field_text)?;
        Ok(enclosed("{", members.as_str(), "}"))
    }
}

impl CorrectorBrowserProjection {
    fn to_json(&self) -> (r: Result<String, serde_json::Error>)
        ensures
            r matches Ok(json) && json@ == browser_json(self@) && printable(json@),
    {
        proof {
            reveal_strlit("{");
            reveal_strlit("}");
            reveal_strlit("title");
            reveal_strlit("domain");
            reveal_strlit("page_language");
            reveal_strlit("selection_text");
            reveal_strlit("nearby_before");
            reveal_strlit("nearby_after");
        }
        let mut members: String = String::new();
        add_text(&mut members, "title", &self.title)?;
        add_text(&mut members, "domain", &self.domain)?;
        add_text(&mut members, "page_language", &self.page_language)?;
        add_text(&mut members, "selection_text", &self.selection_text)?;
        add_text(&mut members, "nearby_before", &self.nearby_before)?;
        add_text(&mut members, "nearby_after", &self.nearby_after)?;
        Ok(enclosed("{", members.as_str(), "}"))
    }
}

/// The JSON array of `texts`.
fn texts_json(texts: &Vec<String>) -> (r: Result<String, serde_json::Error>)
    ensures
        r matches Ok(json) && json@ == "["@ + text::join(literals(text::texts(texts@)), ","@)
            + "]"@ && printable(json@),
{
    proof {
        reveal_strlit("[");
        reveal_strlit("]");
        reveal_strlit(",");
    }
    let ghost all = literals(text::texts(texts@));
    let mut items: String = String::new();
    let mut i: usize = 0;
    assert(all.take(0) =~= Seq::empty());
    while i < texts.len()
        invariant
            i <= texts@.len(),
            all == literals(text::texts(texts@)),
            items@ == text::join(all.take(i as int), ","@),
            printable(items@),
            printable(","@),
        decreases texts@.len() - i,
    {
        let json: String = match outside::json_string(texts[i].as_str()) {
            Ok(json) => json,
            Err(error) => return Err(error),
        };
        proof {
            lemma_literal_printable(texts@[i as int]@);
        }
        if i > 0 {
            items.append(",");
        }
        items.append(json.as_str());
        proof {
            let next = all.take(i + 1);
            assert(next.drop_last() =~= all.take(i as int));
            assert(next.last() == json@);
            assert(items@ =~= text::join(next, ","@));
        }
        i = i + 1;
    }
    assert(all.take(i as int) =~= all);
    Ok(enclosed("[", items.as_str(), "]"))
}

proof fn lemma_decimal_printable(n: nat)
    ensures
        printable(text::decimal(n)),
    decreases n,
{
    if n >= 10 {
        lemma_decimal_printable(n / 10);
    }
}

impl CorrectorContextProjection {
    fn to_json(&self) -> (r: Result<String, serde_json::Error>)
        ensures
            r matches Ok(json) && json@ == context_json(self@) && printable(json@),
    {
        proof {
            reveal_strlit("{");
            reveal_strlit("}");
            reveal_strlit("schema_version");
            reveal_strlit("target");
            reveal_strlit("editor");
            reveal_strlit("browser");
            reveal_strlit("visible_text");
            reveal_strlit("truncated");
            reveal_strlit("true");
            reveal_strlit("false");
            lemma_decimal_printable(self.schema_version as nat);
        }
        let mut members: String = String::new();
        let version: String = text::decimal_text(self.schema_version as u64);
        add_member(&mut members, "schema_version", version.as_str());
        if let Some(target) = &self.target {
            let json: String = target.to_json()?;
            add_member(&mut members, "target", json.as_str());
        }
        if let Some(editor) = &self.editor {
            let json: String = editor.to_json()?;
            add_member(&mut members, "editor", json.as_str());
        }
        if let Some(browser) = &self.browser {
            let json: String = browser.to_json()?;
            add_member(&mut members, "browser", json.as_str());
        }
        if self.visible_text.len() > 0 {
            let json: String = texts_json(&self.visible_text)?;
            add_member(&mut members, "visible_text", json.as_str());
        }
        add_member(
            &mut members,
            "truncated",
            if self.truncated {
                "true"
            } else {
                "false"
            },
        );
        Ok(enclosed("{", members.as_str(), "}"))
    }

    /// Serialize the projection as one JSON line. JSON escapes embedded
    /// newlines, so the model message can place it between standalone markers;
    /// the Unicode line separators, which JSON permits, are escaped too, so
    /// that untrusted page text cannot create a visual marker boundary.
    pub fn to_model_json(&self) -> (r: Result<String, serde_json::Error>)
        ensures
            r matches Ok(json) && json@ == separators_escaped(context_json(self@)) && one_line(
                json@,
            ),
    {
        let json: String = self.to_json()?;
        Ok(escape_separators(json.as_str()))
    }
}

// ---------------------------------------------------------------------------
// Laws of what is shown
// ---------------------------------------------------------------------------

/// `field` holds the text of `value` without the white space around it: all of it
/// where it is within `limit`, `limit` scalar values of it where it is over, and
/// nothing where it is blank or missing.
pub open spec fn holds_text(field: Option<Seq<char>>, value: Option<String>, limit: int) -> bool {
    match value {
        Some(s) => {
            let t = text::trim(s@);
            &&& t.len() == 0 ==> field is None
            &&& 0 < t.len() <= limit ==> field == Some(t)
            &&& t.len() > limit ==> (field matches Some(part) && part.len() == limit)
        },
        None => field is None,
    }
}

/// What `field` holds stands at the beginning of `value`'s text.
pub open spec fn holds_the_beginning(field: Option<Seq<char>>, value: Option<String>) -> bool {
    field matches Some(part) ==> {
        let t = text::trim(value->0@);
        part.len() <= t.len() && part == t.subrange(0, part.len() as int)
    }
}

/// What `field` holds stands at the end of `value`'s text.
pub open spec fn holds_the_end(field: Option<Seq<char>>, value: Option<String>) -> bool {
    field matches Some(part) ==> {
        let t = text::trim(value->0@);
        part.len() <= t.len() && part == t.subrange(t.len() - part.len(), t.len() as int)
    }
}

/// What is projected of the field that is written to; nothing where there is nothing.
pub open spec fn shown_editor(manifest: ContextManifest) -> EditorText {
    match project_context(manifest) {
        Some(ContextText { editor: Some(editor), .. }) => editor,
        _ => EditorText {
            role: None,
            title: None,
            label: None,
            placeholder: None,
            selected_text: None,
            cursor_before: None,
            cursor_after: None,
            nearby_before: None,
            nearby_after: None,
            field_text: None,
        },
    }
}

/// What is projected of the target; nothing where there is nothing.
pub open spec fn shown_target(manifest: ContextManifest) -> TargetText {
    match project_context(manifest) {
        Some(ContextText { target: Some(target), .. }) => target,
        _ => TargetText {
            app_name: None,
            bundle_id: None,
            window_title: None,
            document_url: None,
        },
    }
}

/// What is projected of the page; nothing where there is nothing.
pub open spec fn shown_browser(manifest: ContextManifest) -> BrowserText {
    match project_context(manifest) {
        Some(ContextText { browser: Some(browser), .. }) => browser,
        _ => BrowserText {
            title: None,
            domain: None,
            page_language: None,
            selection_text: None,
            nearby_before: None,
            nearby_after: None,
        },
    }
}

/// What is projected of the text on the screen; nothing where there is nothing.
pub open spec fn shown_text(manifest: ContextManifest) -> Seq<Seq<char>> {
    match project_context(manifest) {
        Some(context) => context.visible_text,
        None => Seq::empty(),
    }
}

proof fn lemma_held(value: Option<String>, limit: int)
    requires
        limit > 0,
    ensures
        holds_text(head(text::opt(value), limit), value, limit),
        holds_text(tail(text::opt(value), limit), value, limit),
        holds_the_beginning(head(text::opt(value), limit), value),
        holds_the_end(tail(text::opt(value), limit), value),
{
    if let Some(s) = value {
        let t = text::trim(s@);
        assert(t.subrange(0, t.len() as int) =~= t);
        if t.len() > limit {
            assert(t.take(limit) =~= t.subrange(0, limit));
            assert(t.skip(t.len() - limit) =~= t.subrange(t.len() - limit, t.len() as int));
        }
    }
}

/// Where text is allowed, each text of the field that is written to stands in the
/// projection's field of that name: its title, its label, its placeholder, what is
/// selected, and what stands before and after the cursor.
pub proof fn field_texts_stand_in_their_places(manifest: ContextManifest, editor: EditorContext)
    requires
        manifest.editor == Some(editor),
        text_allowed(manifest),
    ensures
        holds_text(shown_editor(manifest).role, editor.role, 256),
        holds_text(shown_editor(manifest).title, editor.title, 256),
        holds_text(shown_editor(manifest).label, editor.label, 256),
        holds_text(shown_editor(manifest).placeholder, editor.placeholder, 256),
        holds_text(shown_editor(manifest).selected_text, editor.selected_text, 1_000),
        holds_text(shown_editor(manifest).cursor_before, editor.cursor_prefix, 1_500),
        holds_text(shown_editor(manifest).cursor_after, editor.cursor_suffix, 1_500),
        holds_the_beginning(shown_editor(manifest).title, editor.title),
        holds_the_beginning(shown_editor(manifest).label, editor.label),
        holds_the_beginning(shown_editor(manifest).placeholder, editor.placeholder),
        holds_the_beginning(shown_editor(manifest).selected_text, editor.selected_text),
        holds_the_end(shown_editor(manifest).cursor_before, editor.cursor_prefix),
        holds_the_beginning(shown_editor(manifest).cursor_after, editor.cursor_suffix),
{
    lemma_held(editor.role, 256);
    lemma_held(editor.title, 256);
    lemma_held(editor.label, 256);
    lemma_held(editor.placeholder, 256);
    lemma_held(editor.selected_text, 1_000);
    lemma_held(editor.cursor_prefix, 1_500);
    lemma_held(editor.cursor_suffix, 1_500);
}

/// What stands near the field is projected where nothing is known of the cursor, and the
/// whole of the field where nothing is known of what stands near it either.
pub proof fn nearby_text_is_a_fallback(manifest: ContextManifest, editor: EditorContext)
    requires
        manifest.editor == Some(editor),
        text_allowed(manifest),
    ensures
        editor.cursor_prefix is None && editor.cursor_suffix is None && editor.selected_text is None
            ==> {
            &&& holds_text(shown_editor(manifest).nearby_before, editor.nearby_before, 1_500)
            &&& holds_the_end(shown_editor(manifest).nearby_before, editor.nearby_before)
            &&& holds_text(shown_editor(manifest).nearby_after, editor.nearby_after, 1_500)
            &&& holds_the_beginning(shown_editor(manifest).nearby_after, editor.nearby_after)
        },
        editor.cursor_prefix is Some || editor.cursor_suffix is Some || editor.selected_text is Some
            ==> shown_editor(manifest).nearby_before is None && shown_editor(manifest).nearby_after
            is None && shown_editor(manifest).field_text is None,
        editor.nearby_before is Some || editor.nearby_after is Some ==> shown_editor(
            manifest,
        ).field_text is None,
        editor.cursor_prefix is None && editor.cursor_suffix is None && editor.selected_text is None
            && editor.nearby_before is None && editor.nearby_after is None ==> match
        editor.full_field_text {
            Some(s) => {
                let t = text::trim(s@);
                let shown = shown_editor(manifest).field_text;
                &&& t.len() == 0 ==> shown is None
                &&& 0 < t.len() <= 3_500 ==> shown == Some(t)
                &&& t.len() > 3_500 ==> shown == Some(
                    t.subrange(0, 1_750) + "\n…\n"@ + t.subrange(t.len() - 1_750, t.len() as int),
                )
            },
            None => shown_editor(manifest).field_text is None,
        },
{
    lemma_held(editor.nearby_before, 1_500);
    lemma_held(editor.nearby_after, 1_500);
    if let Some(s) = editor.full_field_text {
        let t = text::trim(s@);
        if t.len() > 3_500 {
            assert(t.take(1_750) =~= t.subrange(0, 1_750));
            assert(t.skip(t.len() - 1_750) =~= t.subrange(t.len() - 1_750, t.len() as int));
        }
    }
}

/// The target's texts stand in their fields, its address up to the query and the
/// fragment; its name is told even where text is not allowed.
pub proof fn target_texts_stand_in_their_places(manifest: ContextManifest, target: TargetContext)
    requires
        manifest.target == Some(target),
    ensures
        holds_text(shown_target(manifest).app_name, target.app_name, 256),
        holds_the_beginning(shown_target(manifest).app_name, target.app_name),
        holds_text(shown_target(manifest).bundle_id, target.bundle_id, 256),
        holds_the_beginning(shown_target(manifest).bundle_id, target.bundle_id),
        text_allowed(manifest) ==> holds_text(
            shown_target(manifest).window_title,
            target.window_title,
            256,
        ) && holds_the_beginning(shown_target(manifest).window_title, target.window_title),
        text_allowed(manifest) ==> match target.document_url {
            Some(url) => (!url@.contains('?') && !url@.contains('#') ==> holds_text(
                shown_target(manifest).document_url,
                target.document_url,
                256,
            ) && holds_the_beginning(shown_target(manifest).document_url, target.document_url)),
            None => shown_target(manifest).document_url is None,
        },
{
    lemma_held(target.app_name, 256);
    lemma_held(target.bundle_id, 256);
    lemma_held(target.window_title, 256);
    lemma_held(target.document_url, 256);
    if let Some(url) = target.document_url {
        if !url@.contains('?') && !url@.contains('#') {
            let cut = |c: char| c == '?' || c == '#';
            lemma_nothing_to_cut(url@, cut);
        }
    }
}

proof fn lemma_nothing_to_cut(s: Seq<char>, cut: spec_fn(char) -> bool)
    requires
        forall|i: int| 0 <= i < s.len() ==> !cut(#[trigger] s[i]),
    ensures
        text::until(s, cut) == s,
{
    text::until_is_the_beginning(s, cut);
    assert(s.take(s.len() as int) =~= s);
}

/// An address is told as far as its query or its fragment begins.
pub proof fn address_ends_at_its_query(
    manifest: ContextManifest,
    target: TargetContext,
    before: Seq<char>,
    rest: Seq<char>,
)
    requires
        manifest.target == Some(target),
        text_allowed(manifest),
        target.document_url matches Some(url) && url@ == before + rest,
        rest.len() > 0 && (rest[0] == '?' || rest[0] == '#'),
        forall|i: int| 0 <= i < before.len() ==> #[trigger] before[i] != '?' && before[i] != '#',
        0 < text::trim(before).len() <= 256,
    ensures
        shown_target(manifest).document_url == Some(text::trim(before)),
{
    let cut = |c: char| c == '?' || c == '#';
    let all = before + rest;
    text::until_is_the_beginning(all, cut);
    assert(all[before.len() as int] == rest[0]);
    let n = text::until(all, cut).len() as int;
    if n < before.len() {
        assert(all[n] == before[n]);
    }
    assert(all.take(before.len() as int) =~= before);
}

/// The page's texts stand in their fields; what is selected on it and what stands near
/// the focus is told where the field that is written to tells nothing.
pub proof fn page_texts_stand_in_their_places(manifest: ContextManifest, browser: BrowserContext)
    requires
        manifest.browser == Some(browser),
        text_allowed(manifest),
    ensures
        holds_text(shown_browser(manifest).title, browser.title, 256),
        holds_the_beginning(shown_browser(manifest).title, browser.title),
        holds_text(shown_browser(manifest).domain, browser.domain, 256),
        holds_the_beginning(shown_browser(manifest).domain, browser.domain),
        holds_text(shown_browser(manifest).page_language, browser.page_language, 256),
        ({
            let editor = shown_editor(manifest);
            let told = editor.selected_text is Some || editor.cursor_before is Some
                || editor.cursor_after is Some || editor.nearby_before is Some
                || editor.nearby_after is Some || editor.field_text is Some;
            let shown = shown_browser(manifest);
            &&& told ==> shown.selection_text is None && shown.nearby_before is None
                && shown.nearby_after is None
            &&& !told ==> holds_text(shown.selection_text, browser.selection_text, 1_000)
                && holds_the_beginning(shown.selection_text, browser.selection_text)
            &&& !told ==> holds_text(shown.nearby_before, browser.nearby_before, 1_500)
                && holds_the_end(shown.nearby_before, browser.nearby_before)
            &&& !told ==> holds_text(shown.nearby_after, browser.nearby_after, 1_500)
                && holds_the_beginning(shown.nearby_after, browser.nearby_after)
        }),
{
    lemma_held(browser.title, 256);
    lemma_held(browser.domain, 256);
    lemma_held(browser.page_language, 256);
    lemma_held(browser.selection_text, 1_000);
    lemma_held(browser.nearby_before, 1_500);
    lemma_held(browser.nearby_after, 1_500);
}

/// The lengths of the blocks' texts, without the white space around them, added up.
pub open spec fn block_chars(blocks: Seq<VisibleTextBlock>, n: int) -> int
    decreases n,
{
    if n <= 0 {
        0
    } else {
        block_chars(blocks, n - 1) + text::trim(blocks[n - 1].text@).len()
    }
}

proof fn lemma_blocks_shown(blocks: Seq<VisibleTextBlock>, n: int)
    requires
        0 <= n <= blocks.len(),
        block_chars(blocks, n) <= 2_000,
        forall|i: int| 0 <= i < n ==> text::trim((#[trigger] blocks[i]).text@).len() > 0,
    ensures
        ({
            let seen = visible_text(blocks, n);
            &&& !seen.cut
            &&& seen.chars == block_chars(blocks, n)
            &&& forall|i: int|
                0 <= i < n ==> seen.texts.contains(text::trim((#[trigger] blocks[i]).text@))
            &&& forall|j: int|
                0 <= j < seen.texts.len() ==> exists|i: int|
                    0 <= i < n && text::trim((#[trigger] blocks[i]).text@) == #[trigger] seen.texts[j]
        }),
    decreases n,
{
    if n > 0 {
        assert(text::trim(blocks[n - 1].text@).len() > 0);
        lemma_blocks_shown(blocks, n - 1);
        let before = visible_text(blocks, n - 1);
        let seen = visible_text(blocks, n);
        let s = text::trim(blocks[n - 1].text@);
        assert(head(Some(blocks[n - 1].text@), 2_000 - before.chars) == Some(s));
        assert forall|i: int| 0 <= i < n implies seen.texts.contains(
            text::trim((#[trigger] blocks[i]).text@),
        ) by {
            if i < n - 1 {
                let t = text::trim(blocks[i].text@);
                assert(before.texts.contains(t));
                let j = choose|j: int| 0 <= j < before.texts.len() && before.texts[j] == t;
                assert(seen.texts[j] == t);
            } else if !before.texts.contains(s) {
                assert(seen.texts[before.texts.len() as int] == s);
            }
        }
        assert forall|j: int| 0 <= j < seen.texts.len() implies exists|i: int|
            0 <= i < n && text::trim((#[trigger] blocks[i]).text@) == #[trigger] seen.texts[j] by {
            if j < before.texts.len() {
                assert(before.texts[j] == seen.texts[j]);
                let i = choose|i: int|
                    0 <= i < n - 1 && text::trim((#[trigger] blocks[i]).text@) == before.texts[j];
                assert(text::trim(blocks[i].text@) == seen.texts[j]);
            } else {
                assert(text::trim(blocks[n - 1].text@) == seen.texts[j]);
            }
        }
    }
}

/// Up to ten blocks of text on the screen are projected whole, without the white space
/// around them, where they are within the limit together and neither the field nor the
/// page tells anything.
pub proof fn screen_text_is_shown(manifest: ContextManifest, document: crate::context_manifest::VisibleTextDocument)
    requires
        text_allowed(manifest),
        manifest.visible_text_fused == Some(document),
        manifest.editor is None,
        manifest.browser is None,
        document.blocks@.len() <= 10,
        block_chars(document.blocks@, document.blocks@.len() as int) <= 2_000,
        forall|i: int|
            0 <= i < document.blocks@.len() ==> text::trim(
                (#[trigger] document.blocks@[i]).text@,
            ).len() > 0,
    ensures
        forall|i: int|
            0 <= i < document.blocks@.len() ==> shown_text(manifest).contains(
                text::trim((#[trigger] document.blocks@[i]).text@),
            ),
        forall|j: int|
            0 <= j < shown_text(manifest).len() ==> exists|i: int|
                0 <= i < document.blocks@.len() && text::trim((#[trigger] document.blocks@[i]).text@)
                    == #[trigger] shown_text(manifest)[j],
        document.blocks@.len() > 0 && manifest.target is None ==> (project_context(manifest) matches
            Some(context) && !context.truncated),
{
    lemma_blocks_shown(document.blocks@, document.blocks@.len() as int);
    if document.blocks@.len() > 0 {
        assert(shown_text(manifest) =~= visible_text(
            document.blocks@,
            document.blocks@.len() as int,
        ).texts);
    }
}

/// Text may leave the machine only where it is allowed, no field that hides what is
/// typed has the focus, the page is not refused, and a browser's page is known.
pub proof fn text_is_allowed_for_these(manifest: ContextManifest)
    ensures
        !manifest.privacy.raw_text_allowed ==> !text_allowed(manifest),
        manifest.editor matches Some(editor) && editor.secure ==> !text_allowed(manifest),
        manifest.browser matches Some(browser) && browser.focused_element matches Some(element)
            && element.secure ==> !text_allowed(manifest),
        manifest.browser_status == Some(SourceState::Denied) ==> !text_allowed(manifest),
        manifest.browser_status == Some(SourceState::SkippedPolicy) ==> !text_allowed(manifest),
        manifest.privacy.raw_text_allowed && manifest.editor is None && manifest.browser is None
            && manifest.browser_status is None && manifest.target is None ==> text_allowed(
            manifest,
        ),
        manifest.privacy.raw_text_allowed && (manifest.browser_status == Some(
            SourceState::Succeeded,
        ) || manifest.browser_status == Some(SourceState::Empty)) && (
        manifest.editor matches Some(editor) ==> !editor.secure) && (
        manifest.browser matches Some(browser) ==> (
        browser.focused_element matches Some(element) ==> !element.secure)) ==> text_allowed(
            manifest,
        ),
        manifest.target matches Some(target) && target.bundle_id matches Some(id) && (id@
            == "com.apple.Safari"@ || id@ == "com.apple.SafariTechnologyPreview"@ || id@
            == "com.google.Chrome"@ || id@ == "com.google.Chrome.canary"@ || id@
            == "com.brave.Browser"@ || id@ == "com.microsoft.edgemac"@ || id@
            == "company.thebrowser.Browser"@ || id@ == "org.mozilla.firefox"@ || id@
            == "com.vivaldi.Vivaldi"@ || id@ == "com.operasoftware.Opera"@)
            && manifest.browser_status != Some(SourceState::Succeeded) && manifest.browser_status
            != Some(SourceState::Empty) ==> !text_allowed(manifest),
        manifest.privacy.raw_text_allowed && (manifest.editor matches Some(editor)
            ==> !editor.secure) && manifest.browser is None && manifest.browser_status is None && (
        manifest.target matches Some(target) ==> (target.bundle_id matches Some(id) ==> id@.len()
            < 16)) ==> text_allowed(manifest),
{
    reveal_strlit("com.apple.Safari");
    reveal_strlit("com.apple.SafariTechnologyPreview");
    reveal_strlit("com.google.Chrome");
    reveal_strlit("com.google.Chrome.canary");
    reveal_strlit("com.brave.Browser");
    reveal_strlit("com.microsoft.edgemac");
    reveal_strlit("company.thebrowser.Browser");
    reveal_strlit("org.mozilla.firefox");
    reveal_strlit("com.vivaldi.Vivaldi");
    reveal_strlit("com.operasoftware.Opera");
    assert("com.apple.Safari"@.len() >= 16 && "com.apple.SafariTechnologyPreview"@.len() >= 16 && "com.google.Chrome"@.len() >= 16 && "com.google.Chrome.canary"@.len() >= 16 && "com.brave.Browser"@.len() >= 16 && "com.microsoft.edgemac"@.len() >= 16 && "company.thebrowser.Browser"@.len() >= 16 && "org.mozilla.firefox"@.len() >= 16 && "com.vivaldi.Vivaldi"@.len() >= 16 && "com.operasoftware.Opera"@.len() >= 16);
}

/// The projection tells whether part of a text was left out.
pub proof fn cut_text_is_told(manifest: ContextManifest, editor: EditorContext)
    requires
        manifest.editor == Some(editor),
        text_allowed(manifest),
    ensures
        project_context(manifest) is Some ==> ({
            let context = project_context(manifest)->0;
            &&& (editor.selected_text matches Some(s) && text::trim(s@).len() > 1_000) ==> context.truncated
            &&& (editor.cursor_prefix matches Some(s) && text::trim(s@).len() > 1_500) ==> context.truncated
            &&& (editor.cursor_suffix matches Some(s) && text::trim(s@).len() > 1_500) ==> context.truncated
            &&& (editor.title matches Some(s) && text::trim(s@).len() > 256) ==> context.truncated
            &&& (editor.label matches Some(s) && text::trim(s@).len() > 256) ==> context.truncated
            &&& (editor.placeholder matches Some(s) && text::trim(s@).len() > 256) ==> context.truncated
            &&& (editor.role matches Some(s) && text::trim(s@).len() > 256) ==> context.truncated
        }),
        (editor.selected_text matches Some(s) ==> text::trim(s@).len() <= 1_000) && (
        editor.cursor_prefix matches Some(s) ==> text::trim(s@).len() <= 1_500) && (
        editor.cursor_suffix matches Some(s) ==> text::trim(s@).len() <= 1_500) && (
        editor.title matches Some(s) ==> text::trim(s@).len() <= 256) && (
        editor.label matches Some(s) ==> text::trim(s@).len() <= 256) && (
        editor.placeholder matches Some(s) ==> text::trim(s@).len() <= 256) && (
        editor.role matches Some(s) ==> text::trim(s@).len() <= 256) && (
        editor.nearby_before matches Some(s) ==> text::trim(s@).len() <= 1_500) && (
        editor.nearby_after matches Some(s) ==> text::trim(s@).len() <= 1_500) && (
        editor.full_field_text matches Some(s) ==> text::trim(s@).len() <= 3_500)
            && manifest.target is None && manifest.browser is None && manifest.visible_text_fused
            is None ==> (project_context(manifest) matches Some(context) ==> !context.truncated),
{
}

/// There is a projection exactly where some part of it holds something, and it is of the
/// first version.
pub proof fn projection_is_made_of_its_parts(manifest: ContextManifest)
    ensures
        project_context(manifest) matches Some(context) ==> context.schema_version == 1 && (
        context.target is Some || context.editor is Some || context.browser is Some
            || context.visible_text.len() > 0),
        manifest.target is None && manifest.editor is None && manifest.browser is None
            && manifest.visible_text_fused is None ==> project_context(manifest) is None,
        manifest.target matches Some(target) && target.app_name matches Some(name) && text::trim(
            name@,
        ).len() > 0 ==> (project_context(manifest) matches Some(context) && context.target is Some),
        manifest.editor matches Some(editor) && editor.role matches Some(role) && text::trim(
            role@,
        ).len() > 0 ==> (project_context(manifest) matches Some(context) && context.editor is Some),
        manifest.browser matches Some(browser) && browser.page_language matches Some(language)
            && text::trim(language@).len() > 0 ==> (project_context(manifest) matches Some(context)
            && context.browser is Some),
{
}

/// The sources of a projection are the parts that are there, in their order.
pub proof fn sources_are_the_parts(context: ContextText)
    ensures
        context.sources().contains("target"@) <==> context.target is Some,
        context.sources().contains("editor_ax"@) <==> context.editor is Some,
        context.sources().contains("browser"@) <==> context.browser is Some,
        context.sources().contains("visible_text"@) <==> context.visible_text.len() > 0,
        context.sources().no_duplicates(),
        context.target is Some ==> context.sources()[0] == "target"@,
        context.visible_text.len() > 0 ==> context.sources().last() == "visible_text"@,
        context.target is None && context.editor is Some ==> context.sources()[0] == "editor_ax"@,
{
    reveal_strlit("target");
    reveal_strlit("editor_ax");
    reveal_strlit("browser");
    reveal_strlit("visible_text");
    assert("target"@.len() == 6 && "target"@[0] == 't' && "target"@[1] == 'a'
        && "target"@[2] == 'r' && "target"@[3] == 'g' && "target"@[4] == 'e'
        && "target"@[5] == 't');
    assert("editor_ax"@.len() == 9 && "editor_ax"@[0] == 'e' && "editor_ax"@[1] == 'd'
        && "editor_ax"@[2] == 'i' && "editor_ax"@[3] == 't' && "editor_ax"@[4] == 'o'
        && "editor_ax"@[5] == 'r' && "editor_ax"@[6] == '_' && "editor_ax"@[7] == 'a'
        && "editor_ax"@[8] == 'x');
    assert("browser"@.len() == 7 && "browser"@[0] == 'b' && "browser"@[1] == 'r'
        && "browser"@[2] == 'o' && "browser"@[3] == 'w' && "browser"@[4] == 's'
        && "browser"@[5] == 'e' && "browser"@[6] == 'r');
    assert("visible_text"@.len() == 12 && "visible_text"@[0] == 'v' && "visible_text"@[1] == 'i'
        && "visible_text"@[2] == 's' && "visible_text"@[3] == 'i' && "visible_text"@[4] == 'b'
        && "visible_text"@[5] == 'l' && "visible_text"@[6] == 'e' && "visible_text"@[7] == '_'
        && "visible_text"@[8] == 't' && "visible_text"@[9] == 'e' && "visible_text"@[10] == 'x'
        && "visible_text"@[11] == 't');
    let s = context.sources();
    let a: int = if context.target is Some {
        1
    } else {
        0
    };
    let b: int = if context.editor is Some {
        a + 1
    } else {
        a
    };
    let d: int = if context.browser is Some {
        b + 1
    } else {
        b
    };
    assert(context.target is Some ==> s[0] == "target"@);
    assert(context.editor is Some ==> s[a] == "editor_ax"@);
    assert(context.browser is Some ==> s[b] == "browser"@);
    assert(context.visible_text.len() > 0 ==> s[d] == "visible_text"@);
}

proof fn lemma_occurs(hay: Seq<char>, needle: Seq<char>, before: Seq<char>, after: Seq<char>)
    requires
        hay == before + needle + after,
    ensures
        text::occurs(hay, needle),
{
    let at = before.len() as int;
    assert(hay.subrange(at, at + needle.len()) =~= needle);
    assert(text::occurs_at(hay, needle, at));
}

/// A member is added behind those that are there.
proof fn lemma_member(members: Seq<char>, name: Seq<char>, json: Seq<char>, held: Seq<char>)
    ensures
        text::occurs(with_member(members, name, json), "\""@ + name + "\":"@ + json),
        text::occurs(members, held) ==> text::occurs(with_member(members, name, json), held),
{
    let member = "\""@ + name + "\":"@ + json;
    let all = with_member(members, name, json);
    if members.len() == 0 {
        lemma_occurs(all, member, Seq::empty(), Seq::empty());
        assert(Seq::<char>::empty() + member + Seq::<char>::empty() =~= member);
        if text::occurs(members, held) {
            let at = choose|at: int| text::occurs_at(members, held, at);
            assert(held.len() == 0);
            assert(all.subrange(0, 0) =~= held);
            assert(text::occurs_at(all, held, 0));
        }
    } else {
        lemma_occurs(all, member, members + ","@, Seq::empty());
        assert(members + ","@ + member + Seq::<char>::empty() =~= all);
        if text::occurs(members, held) {
            let at = choose|at: int| text::occurs_at(members, held, at);
            assert(all.subrange(at, at + held.len()) =~= members.subrange(at, at + held.len()));
            assert(text::occurs_at(all, held, at));
        }
    }
}

proof fn lemma_text_member(
    members: Seq<char>,
    name: Seq<char>,
    value: Option<Seq<char>>,
    held: Seq<char>,
)
    ensures
        value matches Some(s) ==> text::occurs(
            with_text(members, name, value),
            "\""@ + name + "\":"@ + outside::json_literal(s),
        ),
        text::occurs(members, held) ==> text::occurs(with_text(members, name, value), held),
{
    if let Some(s) = value {
        lemma_member(members, name, outside::json_literal(s), held);
    }
}

proof fn lemma_enclosed(members: Seq<char>, held: Seq<char>)
    ensures
        text::occurs(members, held) ==> text::occurs("{"@ + members + "}"@, held),
{
    if text::occurs(members, held) {
        let at = choose|at: int| text::occurs_at(members, held, at);
        let all = "{"@ + members + "}"@;
        reveal_strlit("{");
        assert(all.subrange(at + 1, at + 1 + held.len()) =~= members.subrange(at, at + held.len()));
        assert(text::occurs_at(all, held, at + 1));
    }
}

/// A text of a projection, as it is written down under its name.
pub open spec fn written(name: Seq<char>, value: Option<Seq<char>>) -> Seq<char> {
    "\""@ + name + "\":"@ + outside::json_literal(value->0)
}

/// Each text of the target is written down under its own name.
pub proof fn target_is_written_down(target: TargetText)
    ensures
        target.app_name is Some ==> text::occurs(
            target_json(target),
            written("app_name"@, target.app_name),
        ),
        target.bundle_id is Some ==> text::occurs(
            target_json(target),
            written("bundle_id"@, target.bundle_id),
        ),
        target.window_title is Some ==> text::occurs(
            target_json(target),
            written("window_title"@, target.window_title),
        ),
        target.document_url is Some ==> text::occurs(
            target_json(target),
            written("document_url"@, target.document_url),
        ),
{
    let m0 = with_text(Seq::<char>::empty(), "app_name"@, target.app_name);
    lemma_text_member(Seq::<char>::empty(), "app_name"@, target.app_name, written("app_name"@, target.app_name));
    let m1 = with_text(m0, "bundle_id"@, target.bundle_id);
    lemma_text_member(m0, "bundle_id"@, target.bundle_id, written("app_name"@, target.app_name));
    lemma_text_member(m0, "bundle_id"@, target.bundle_id, written("bundle_id"@, target.bundle_id));
    let m2 = with_text(m1, "window_title"@, target.window_title);
    lemma_text_member(m1, "window_title"@, target.window_title, written("app_name"@, target.app_name));
    lemma_text_member(m1, "window_title"@, target.window_title, written("bundle_id"@, target.bundle_id));
    lemma_text_member(m1, "window_title"@, target.window_title, written("window_title"@, target.window_title));
    let m3 = with_text(m2, "document_url"@, target.document_url);
    lemma_text_member(m2, "document_url"@, target.document_url, written("app_name"@, target.app_name));
    lemma_text_member(m2, "document_url"@, target.document_url, written("bundle_id"@, target.bundle_id));
    lemma_text_member(m2, "document_url"@, target.document_url, written("window_title"@, target.window_title));
    lemma_text_member(m2, "document_url"@, target.document_url, written("document_url"@, target.document_url));
    lemma_enclosed(m3, written("app_name"@, target.app_name));
    lemma_enclosed(m3, written("bundle_id"@, target.bundle_id));
    lemma_enclosed(m3, written("window_title"@, target.window_title));
    lemma_enclosed(m3, written("document_url"@, target.document_url));
}

/// Each text of the field is written down under its own name.
pub proof fn field_is_written_down(editor: EditorText)
    ensures
        editor.role is Some ==> text::occurs(
            editor_json(editor),
            written("role"@, editor.role),
        ),
        editor.title is Some ==> text::occurs(
            editor_json(editor),
            written("title"@, editor.title),
        ),
        editor.label is Some ==> text::occurs(
            editor_json(editor),
            written("label"@, editor.label),
        ),
        editor.placeholder is Some ==> text::occurs(
            editor_json(editor),
            written("placeholder"@, editor.placeholder),
        ),
        editor.selected_text is Some ==> text::occurs(
            editor_json(editor),
            written("selected_text"@, editor.selected_text),
        ),
        editor.cursor_before is Some ==> text::occurs(
            editor_json(editor),
            written("cursor_before"@, editor.cursor_before),
        ),
        editor.cursor_after is Some ==> text::occurs(
            editor_json(editor),
            written("cursor_after"@, editor.cursor_after),
        ),
        editor.nearby_before is Some ==> text::occurs(
            editor_json(editor),
            written("nearby_before"@, editor.nearby_before),
        ),
        editor.nearby_after is Some ==> text::occurs(
            editor_json(editor),
            written("nearby_after"@, editor.nearby_after),
        ),
        editor.field_text is Some ==> text::occurs(
            editor_json(editor),
            written("field_text"@, editor.field_text),
        ),
{
    let m0 = with_text(Seq::<char>::empty(), "role"@, editor.role);
    lemma_text_member(Seq::<char>::empty(), "role"@, editor.role, written("role"@, editor.role));
    let m1 = with_text(m0, "title"@, editor.title);
    lemma_text_member(m0, "title"@, editor.title, written("role"@, editor.role));
    lemma_text_member(m0, "title"@, editor.title, written("title"@, editor.title));
    let m2 = with_text(m1, "label"@, editor.label);
    lemma_text_member(m1, "label"@, editor.label, written("role"@, editor.role));
    lemma_text_member(m1, "label"@, editor.label, written("title"@, editor.title));
    lemma_text_member(m1, "label"@, editor.label, written("label"@, editor.label));
    let m3 = with_text(m2, "placeholder"@, editor.placeholder);
    lemma_text_member(m2, "placeholder"@, editor.placeholder, written("role"@, editor.role));
    lemma_text_member(m2, "placeholder"@, editor.placeholder, written("title"@, editor.title));
    lemma_text_member(m2, "placeholder"@, editor.placeholder, written("label"@, editor.label));
    lemma_text_member(m2, "placeholder"@, editor.placeholder, written("placeholder"@, editor.placeholder));
    let m4 = with_text(m3, "selected_text"@, editor.selected_text);
    lemma_text_member(m3, "selected_text"@, editor.selected_text, written("role"@, editor.role));
    lemma_text_member(m3, "selected_text"@, editor.selected_text, written("title"@, editor.title));
    lemma_text_member(m3, "selected_text"@, editor.selected_text, written("label"@, editor.label));
    lemma_text_member(m3, "selected_text"@, editor.selected_text, written("placeholder"@, editor.placeholder));
    lemma_text_member(m3, "selected_text"@, editor.selected_text, written("selected_text"@, editor.selected_text));
    let m5 = with_text(m4, "cursor_before"@, editor.cursor_before);
    lemma_text_member(m4, "cursor_before"@, editor.cursor_before, written("role"@, editor.role));
    lemma_text_member(m4, "cursor_before"@, editor.cursor_before, written("title"@, editor.title));
    lemma_text_member(m4, "cursor_before"@, editor.cursor_before, written("label"@, editor.label));
    lemma_text_member(m4, "cursor_before"@, editor.cursor_before, written("placeholder"@, editor.placeholder));
    lemma_text_member(m4, "cursor_before"@, editor.cursor_before, written("selected_text"@, editor.selected_text));
    lemma_text_member(m4, "cursor_before"@, editor.cursor_before, written("cursor_before"@, editor.cursor_before));
    let m6 = with_text(m5, "cursor_after"@, editor.cursor_after);
    lemma_text_member(m5, "cursor_after"@, editor.cursor_after, written("role"@, editor.role));
    lemma_text_member(m5, "cursor_after"@, editor.cursor_after, written("title"@, editor.title));
    lemma_text_member(m5, "cursor_after"@, editor.cursor_after, written("label"@, editor.label));
    lemma_text_member(m5, "cursor_after"@, editor.cursor_after, written("placeholder"@, editor.placeholder));
    lemma_text_member(m5, "cursor_after"@, editor.cursor_after, written("selected_text"@, editor.selected_text));
    lemma_text_member(m5, "cursor_after"@, editor.cursor_after, written("cursor_before"@, editor.cursor_before));
    lemma_text_member(m5, "cursor_after"@, editor.cursor_after, written("cursor_after"@, editor.cursor_after));
    let m7 = with_text(m6, "nearby_before"@, editor.nearby_before);
    lemma_text_member(m6, "nearby_before"@, editor.nearby_before, written("role"@, editor.role));
    lemma_text_member(m6, "nearby_before"@, editor.nearby_before, written("title"@, editor.title));
    lemma_text_member(m6, "nearby_before"@, editor.nearby_before, written("label"@, editor.label));
    lemma_text_member(m6, "nearby_before"@, editor.nearby_before, written("placeholder"@, editor.placeholder));
    lemma_text_member(m6, "nearby_before"@, editor.nearby_before, written("selected_text"@, editor.selected_text));
    lemma_text_member(m6, "nearby_before"@, editor.nearby_before, written("cursor_before"@, editor.cursor_before));
    lemma_text_member(m6, "nearby_before"@, editor.nearby_before, written("cursor_after"@, editor.cursor_after));
    lemma_text_member(m6, "nearby_before"@, editor.nearby_before, written("nearby_before"@, editor.nearby_before));
    let m8 = with_text(m7, "nearby_after"@, editor.nearby_after);
    lemma_text_member(m7, "nearby_after"@, editor.nearby_after, written("role"@, editor.role));
    lemma_text_member(m7, "nearby_after"@, editor.nearby_after, written("title"@, editor.title));
    lemma_text_member(m7, "nearby_after"@, editor.nearby_after, written("label"@, editor.label));
    lemma_text_member(m7, "nearby_after"@, editor.nearby_after, written("placeholder"@, editor.placeholder));
    lemma_text_member(m7, "nearby_after"@, editor.nearby_after, written("selected_text"@, editor.selected_text));
    lemma_text_member(m7, "nearby_after"@, editor.nearby_after, written("cursor_before"@, editor.cursor_before));
    lemma_text_member(m7, "nearby_after"@, editor.nearby_after, written("cursor_after"@, editor.cursor_after));
    lemma_text_member(m7, "nearby_after"@, editor.nearby_after, written("nearby_before"@, editor.nearby_before));
    lemma_text_member(m7, "nearby_after"@, editor.nearby_after, written("nearby_after"@, editor.nearby_after));
    let m9 = with_text(m8, "field_text"@, editor.field_text);
    lemma_text_member(m8, "field_text"@, editor.field_text, written("role"@, editor.role));
    lemma_text_member(m8, "field_text"@, editor.field_text, written("title"@, editor.title));
    lemma_text_member(m8, "field_text"@, editor.field_text, written("label"@, editor.label));
    lemma_text_member(m8, "field_text"@, editor.field_text, written("placeholder"@, editor.placeholder));
    lemma_text_member(m8, "field_text"@, editor.field_text, written("selected_text"@, editor.selected_text));
    lemma_text_member(m8, "field_text"@, editor.field_text, written("cursor_before"@, editor.cursor_before));
    lemma_text_member(m8, "field_text"@, editor.field_text, written("cursor_after"@, editor.cursor_after));
    lemma_text_member(m8, "field_text"@, editor.field_text, written("nearby_before"@, editor.nearby_before));
    lemma_text_member(m8, "field_text"@, editor.field_text, written("nearby_after"@, editor.nearby_after));
    lemma_text_member(m8, "field_text"@, editor.field_text, written("field_text"@, editor.field_text));
    lemma_enclosed(m9, written("role"@, editor.role));
    lemma_enclosed(m9, written("title"@, editor.title));
    lemma_enclosed(m9, written("label"@, editor.label));
    lemma_enclosed(m9, written("placeholder"@, editor.placeholder));
    lemma_enclosed(m9, written("selected_text"@, editor.selected_text));
    lemma_enclosed(m9, written("cursor_before"@, editor.cursor_before));
    lemma_enclosed(m9, written("cursor_after"@, editor.cursor_after));
    lemma_enclosed(m9, written("nearby_before"@, editor.nearby_before));
    lemma_enclosed(m9, written("nearby_after"@, editor.nearby_after));
    lemma_enclosed(m9, written("field_text"@, editor.field_text));
}

/// Each text of the page is written down under its own name.
pub proof fn page_is_written_down(browser: BrowserText)
    ensures
        browser.title is Some ==> text::occurs(
            browser_json(browser),
            written("title"@, browser.title),
        ),
        browser.domain is Some ==> text::occurs(
            browser_json(browser),
            written("domain"@, browser.domain),
        ),
        browser.page_language is Some ==> text::occurs(
            browser_json(browser),
            written("page_language"@, browser.page_language),
        ),
        browser.selection_text is Some ==> text::occurs(
            browser_json(browser),
            written("selection_text"@, browser.selection_text),
        ),
        browser.nearby_before is Some ==> text::occurs(
            browser_json(browser),
            written("nearby_before"@, browser.nearby_before),
        ),
        browser.nearby_after is Some ==> text::occurs(
            browser_json(browser),
            written("nearby_after"@, browser.nearby_after),
        ),
{
    let m0 = with_text(Seq::<char>::empty(), "title"@, browser.title);
    lemma_text_member(Seq::<char>::empty(), "title"@, browser.title, written("title"@, browser.title));
    let m1 = with_text(m0, "domain"@, browser.domain);
    lemma_text_member(m0, "domain"@, browser.domain, written("title"@, browser.title));
    lemma_text_member(m0, "domain"@, browser.domain, written("domain"@, browser.domain));
    let m2 = with_text(m1, "page_language"@, browser.page_language);
    lemma_text_member(m1, "page_language"@, browser.page_language, written("title"@, browser.title));
    lemma_text_member(m1, "page_language"@, browser.page_language, written("domain"@, browser.domain));
    lemma_text_member(m1, "page_language"@, browser.page_language, written("page_language"@, browser.page_language));
    let m3 = with_text(m2, "selection_text"@, browser.selection_text);
    lemma_text_member(m2, "selection_text"@, browser.selection_text, written("title"@, browser.title));
    lemma_text_member(m2, "selection_text"@, browser.selection_text, written("domain"@, browser.domain));
    lemma_text_member(m2, "selection_text"@, browser.selection_text, written("page_language"@, browser.page_language));
    lemma_text_member(m2, "selection_text"@, browser.selection_text, written("selection_text"@, browser.selection_text));
    let m4 = with_text(m3, "nearby_before"@, browser.nearby_before);
    lemma_text_member(m3, "nearby_before"@, browser.nearby_before, written("title"@, browser.title));
    lemma_text_member(m3, "nearby_before"@, browser.nearby_before, written("domain"@, browser.domain));
    lemma_text_member(m3, "nearby_before"@, browser.nearby_before, written("page_language"@, browser.page_language));
    lemma_text_member(m3, "nearby_before"@, browser.nearby_before, written("selection_text"@, browser.selection_text));
    lemma_text_member(m3, "nearby_before"@, browser.nearby_before, written("nearby_before"@, browser.nearby_before));
    let m5 = with_text(m4, "nearby_after"@, browser.nearby_after);
    lemma_text_member(m4, "nearby_after"@, browser.nearby_after, written("title"@, browser.title));
    lemma_text_member(m4, "nearby_after"@, browser.nearby_after, written("domain"@, browser.domain));
    lemma_text_member(m4, "nearby_after"@, browser.nearby_after, written("page_language"@, browser.page_language));
    lemma_text_member(m4, "nearby_after"@, browser.nearby_after, written("selection_text"@, browser.selection_text));
    lemma_text_member(m4, "nearby_after"@, browser.nearby_after, written("nearby_before"@, browser.nearby_before));
    lemma_text_member(m4, "nearby_after"@, browser.nearby_after, written("nearby_after"@, browser.nearby_after));
    lemma_enclosed(m5, written("title"@, browser.title));
    lemma_enclosed(m5, written("domain"@, browser.domain));
    lemma_enclosed(m5, written("page_language"@, browser.page_language));
    lemma_enclosed(m5, written("selection_text"@, browser.selection_text));
    lemma_enclosed(m5, written("nearby_before"@, browser.nearby_before));
    lemma_enclosed(m5, written("nearby_after"@, browser.nearby_after));
}

/// Each part of a projection is written down under its own name, with the version and
/// whether anything was cut.
pub proof fn projection_is_written_down(context: ContextText)
    requires
        context.schema_version >= 0,
    ensures
        text::occurs(
            context_json(context),
            "\"schema_version\":"@ + text::decimal(context.schema_version as nat),
        ),
        context.target matches Some(target) ==> text::occurs(
            context_json(context),
            "\"target\":"@ + target_json(target),
        ),
        context.editor matches Some(editor) ==> text::occurs(
            context_json(context),
            "\"editor\":"@ + editor_json(editor),
        ),
        context.browser matches Some(browser) ==> text::occurs(
            context_json(context),
            "\"browser\":"@ + browser_json(browser),
        ),
        context.truncated ==> text::occurs(context_json(context), "\"truncated\":true"@),
        !context.truncated ==> text::occurs(context_json(context), "\"truncated\":false"@),
        context.visible_text.len() > 0 ==> text::occurs(
            context_json(context),
            "\"visible_text\":["@ + text::join(literals(context.visible_text), ","@) + "]"@,
        ),
{
    let version = "\"schema_version\":"@ + text::decimal(context.schema_version as nat);
    let target = "\"target\":"@ + target_json(context.target->0);
    let editor = "\"editor\":"@ + editor_json(context.editor->0);
    let browser = "\"browser\":"@ + browser_json(context.browser->0);
    let seen = "["@ + text::join(literals(context.visible_text), ","@) + "]"@;
    let visible = "\"visible_text\":["@ + text::join(literals(context.visible_text), ","@) + "]"@;
    let told = if context.truncated {
        "true"@
    } else {
        "false"@
    };
    let cut = if context.truncated {
        "\"truncated\":true"@
    } else {
        "\"truncated\":false"@
    };
    reveal_strlit("\"");
    reveal_strlit("\":");
    reveal_strlit("\"schema_version\":");
    reveal_strlit("schema_version");
    reveal_strlit("\"target\":");
    reveal_strlit("target");
    reveal_strlit("\"editor\":");
    reveal_strlit("editor");
    reveal_strlit("\"browser\":");
    reveal_strlit("browser");
    reveal_strlit("\"visible_text\":[");
    reveal_strlit("visible_text");
    reveal_strlit("[");
    reveal_strlit("\"truncated\":true");
    reveal_strlit("\"truncated\":false");
    reveal_strlit("truncated");
    reveal_strlit("true");
    reveal_strlit("false");
    assert("\""@ + "schema_version"@ + "\":"@ =~= "\"schema_version\":"@);
    assert("\""@ + "target"@ + "\":"@ =~= "\"target\":"@);
    assert("\""@ + "editor"@ + "\":"@ =~= "\"editor\":"@);
    assert("\""@ + "browser"@ + "\":"@ =~= "\"browser\":"@);
    assert("\""@ + "visible_text"@ + "\":"@ + seen =~= visible);
    assert("\""@ + "truncated"@ + "\":"@ + told =~= cut);
    let a = with_member(
        Seq::empty(),
        "schema_version"@,
        text::decimal(context.schema_version as nat),
    );
    lemma_member(
        Seq::empty(),
        "schema_version"@,
        text::decimal(context.schema_version as nat),
        version,
    );
    let b = match context.target {
        Some(t) => with_member(a, "target"@, target_json(t)),
        None => a,
    };
    lemma_member(a, "target"@, target_json(context.target->0), version);
    let d = match context.editor {
        Some(e) => with_member(b, "editor"@, editor_json(e)),
        None => b,
    };
    lemma_member(b, "editor"@, editor_json(context.editor->0), version);
    lemma_member(b, "editor"@, editor_json(context.editor->0), target);
    let e = match context.browser {
        Some(p) => with_member(d, "browser"@, browser_json(p)),
        None => d,
    };
    lemma_member(d, "browser"@, browser_json(context.browser->0), version);
    lemma_member(d, "browser"@, browser_json(context.browser->0), target);
    lemma_member(d, "browser"@, browser_json(context.browser->0), editor);
    let f = if context.visible_text.len() > 0 {
        with_member(e, "visible_text"@, seen)
    } else {
        e
    };
    lemma_member(e, "visible_text"@, seen, version);
    lemma_member(e, "visible_text"@, seen, target);
    lemma_member(e, "visible_text"@, seen, editor);
    lemma_member(e, "visible_text"@, seen, browser);
    let g = with_member(f, "truncated"@, told);
    lemma_member(f, "truncated"@, told, version);
    lemma_member(f, "truncated"@, told, target);
    lemma_member(f, "truncated"@, told, editor);
    lemma_member(f, "truncated"@, told, browser);
    lemma_member(f, "truncated"@, told, visible);
    lemma_enclosed(g, version);
    lemma_enclosed(g, target);
    lemma_enclosed(g, editor);
    lemma_enclosed(g, browser);
    lemma_enclosed(g, visible);
    lemma_enclosed(g, cut);
}

/// Escaping the line separators changes nothing else.
pub proof fn other_text_is_not_escaped(s: Seq<char>)
    requires
        !s.contains('\u{2028}'),
        !s.contains('\u{2029}'),
    ensures
        separators_escaped(s) == s,
    decreases s.len(),
{
    if s.len() > 0 {
        let before = s.drop_last();
        assert forall|i: int| 0 <= i < before.len() implies #[trigger] before[i] != '\u{2028}'
            && before[i] != '\u{2029}' by {
            assert(s[i] == before[i]);
            assert(s.contains(s[i]));
        }
        other_text_is_not_escaped(before);
        assert(s.contains(s[s.len() - 1]));
        assert(before.push(s.last()) =~= s);
    } else {
        assert(separators_escaped(s) =~= s);
    }
}

/// A line separator is written by its number.
pub proof fn separators_are_escaped_one_by_one(s: Seq<char>)
    ensures
        separators_escaped(s.push('\u{2028}')) == separators_escaped(s) + "\\u2028"@,
        separators_escaped(s.push('\u{2029}')) == separators_escaped(s) + "\\u2029"@,
{
    assert(s.push('\u{2028}').drop_last() =~= s);
    assert(s.push('\u{2029}').drop_last() =~= s);
}

/// A projection is seen as it is.
pub proof fn projected_context_is_seen_as_it_is(context: CorrectorContextProjection)
    ensures
        context@.schema_version == context.schema_version,
        context@.truncated == context.truncated,
        context.target matches Some(t) ==> {
            &&& context@.target matches Some(seen)
            &&& seen.app_name == text::opt(t.app_name)
            &&& seen.bundle_id == text::opt(t.bundle_id)
            &&& seen.window_title == text::opt(t.window_title)
            &&& seen.document_url == text::opt(t.document_url)
        },
        context.editor matches Some(e) ==> {
            &&& context@.editor matches Some(seen)
            &&& seen.role == text::opt(e.role)
            &&& seen.title == text::opt(e.title)
            &&& seen.label == text::opt(e.label)
            &&& seen.placeholder == text::opt(e.placeholder)
            &&& seen.selected_text == text::opt(e.selected_text)
            &&& seen.cursor_before == text::opt(e.cursor_before)
            &&& seen.cursor_after == text::opt(e.cursor_after)
            &&& seen.nearby_before == text::opt(e.nearby_before)
            &&& seen.nearby_after == text::opt(e.nearby_after)
            &&& seen.field_text == text::opt(e.field_text)
        },
        context.browser matches Some(b) ==> {
            &&& context@.browser matches Some(seen)
            &&& seen.title == text::opt(b.title)
            &&& seen.domain == text::opt(b.domain)
            &&& seen.page_language == text::opt(b.page_language)
            &&& seen.selection_text == text::opt(b.selection_text)
            &&& seen.nearby_before == text::opt(b.nearby_before)
            &&& seen.nearby_after == text::opt(b.nearby_after)
        },
        context@.target is Some <==> context.target is Some,
        context@.editor is Some <==> context.editor is Some,
        context@.browser is Some <==> context.browser is Some,
        context@.visible_text == text::texts(context.visible_text@),
{
}

/// The projection tells whether part of a text of the target or of the page was left out.
pub proof fn cut_page_text_is_told(
    manifest: ContextManifest,
    target: TargetContext,
    browser: BrowserContext,
)
    requires
        manifest.target == Some(target),
        manifest.browser == Some(browser),
        manifest.editor is None,
        text_allowed(manifest),
        project_context(manifest) is Some,
    ensures
        ({
            let context = project_context(manifest)->0;
            &&& (target.app_name matches Some(s) && text::trim(s@).len() > 256)
                ==> context.truncated
            &&& (target.bundle_id matches Some(s) && text::trim(s@).len() > 256)
                ==> context.truncated
            &&& (target.window_title matches Some(s) && text::trim(s@).len() > 256)
                ==> context.truncated
            &&& (browser.title matches Some(s) && text::trim(s@).len() > 256) ==> context.truncated
            &&& (browser.domain matches Some(s) && text::trim(s@).len() > 256) ==> context.truncated
            &&& (browser.page_language matches Some(s) && text::trim(s@).len() > 256)
                ==> context.truncated
            &&& (browser.selection_text matches Some(s) && text::trim(s@).len() > 1_000)
                ==> context.truncated
            &&& (browser.nearby_before matches Some(s) && text::trim(s@).len() > 1_500)
                ==> context.truncated
            &&& (browser.nearby_after matches Some(s) && text::trim(s@).len() > 1_500)
                ==> context.truncated
        }),
        (target.app_name matches Some(s) ==> text::trim(s@).len() <= 256) && (
        target.bundle_id matches Some(s) ==> text::trim(s@).len() <= 256) && (
        target.window_title matches Some(s) ==> text::trim(s@).len() <= 256)
            && target.document_url is None && (browser.title matches Some(s) ==> text::trim(s@).len()
            <= 256) && (browser.domain matches Some(s) ==> text::trim(s@).len() <= 256) && (
        browser.page_language matches Some(s) ==> text::trim(s@).len() <= 256) && (
        browser.selection_text matches Some(s) ==> text::trim(s@).len() <= 1_000) && (
        browser.nearby_before matches Some(s) ==> text::trim(s@).len() <= 1_500) && (
        browser.nearby_after matches Some(s) ==> text::trim(s@).len() <= 1_500)
            && manifest.visible_text_fused is None ==> !project_context(manifest)->0.truncated,
{
}

/// Blocks of text beyond the tenth, and text beyond the budget, are left out, and this is
/// told.
pub proof fn cut_screen_text_is_told(
    manifest: ContextManifest,
    document: crate::context_manifest::VisibleTextDocument,
)
    requires
        text_allowed(manifest),
        manifest.visible_text_fused == Some(document),
        manifest.editor is None,
        manifest.browser is None,
        project_context(manifest) is Some,
        document.blocks@.len() > 10,
    ensures
        project_context(manifest)->0.truncated,
        shown_text(manifest).len() <= 10,
{
    visible_text_is_bounded(manifest);
}

/// A long block is cut at the budget of all blocks, at its end.
pub proof fn long_block_is_cut(block: VisibleTextBlock)
    requires
        text::trim(block.text@).len() > 2_000,
    ensures
        ({
            let seen = visible_text(seq![block], 1);
            &&& seen.texts == seq![text::trim(block.text@).subrange(0, 2_000)]
            &&& seen.cut
        }),
{
    reveal_with_fuel(visible_text, 2);
    let t = text::trim(block.text@);
    assert(t.take(2_000) =~= t.subrange(0, 2_000));
    assert(visible_text(seq![block], 1).texts =~= seq![t.subrange(0, 2_000)]);
}

} // verus!
