//! What a context capture found: the plain data that projections read.
use vstd::prelude::*;

verus! {

/// How the collection of one source ended.
#[derive(Debug, Clone, Copy, PartialEq, Eq, Structural)]
pub enum SourceState {
    Succeeded,
    Empty,
    Denied,
    SkippedPolicy,
    Unavailable,
    /// Not ended yet, or ended in any other way.
    Other,
}

impl SourceState {
    /// The source was collected, whether or not there was anything to collect.
    pub open spec fn collected(self) -> bool {
        self is Succeeded || self is Empty
    }

    /// Collecting the source was not allowed.
    pub open spec fn refused(self) -> bool {
        self is Denied || self is SkippedPolicy
    }
}

/// The application that the dictation is for.
#[derive(Debug, Clone, Default)]
pub struct TargetContext {
    pub app_name: Option<String>,
    pub bundle_id: Option<String>,
    pub window_title: Option<String>,
    pub document_url: Option<String>,
}

/// The focused text field, as accessibility sees it.
#[derive(Debug, Clone, Default)]
pub struct EditorContext {
    pub role: Option<String>,
    pub title: Option<String>,
    pub label: Option<String>,
    pub placeholder: Option<String>,
    pub selected_text: Option<String>,
    pub cursor_prefix: Option<String>,
    pub cursor_suffix: Option<String>,
    pub full_field_text: Option<String>,
    pub nearby_before: Option<String>,
    pub nearby_after: Option<String>,
    pub secure: bool,
}

/// The focused element of a web page.
#[derive(Debug, Clone, Default)]
pub struct BrowserElementContext {
    pub role: Option<String>,
    pub aria_label: Option<String>,
    pub placeholder: Option<String>,
    pub value: Option<String>,
    pub sibling_before: Option<String>,
    pub sibling_after: Option<String>,
    pub secure: bool,
}

/// The web page that is open.
#[derive(Debug, Clone, Default)]
pub struct BrowserContext {
    pub title: Option<String>,
    pub url: Option<String>,
    pub origin: Option<String>,
    pub domain: Option<String>,
    pub page_language: Option<String>,
    pub selection_text: Option<String>,
    pub nearby_before: Option<String>,
    pub nearby_after: Option<String>,
    pub focused_element: Option<BrowserElementContext>,
    pub viewport_text_blocks: Vec<VisibleTextBlock>,
}

/// One block of text on the screen.
#[derive(Debug, Clone, Default)]
pub struct VisibleTextBlock {
    pub text: String,
    pub source_refs: Vec<String>,
    pub order: u32,
}

/// The text on the screen, fused from all sources.
#[derive(Debug, Clone, Default)]
pub struct VisibleTextDocument {
    pub blocks: Vec<VisibleTextBlock>,
}

/// A node of the accessibility tree.
#[derive(Debug, Default)]
pub struct AxNode {
    pub role: Option<String>,
    pub title: Option<String>,
    pub value: Option<String>,
    pub description: Option<String>,
    pub children: Vec<AxNode>,
}

/// The part of the accessibility tree that is on the screen.
#[derive(Debug, Default)]
pub struct AxVisibleContext {
    pub roots: Vec<AxNode>,
}

/// The text that was recognised on one screenshot.
#[derive(Debug, Clone, Default)]
pub struct OcrDocument {
    pub text: String,
}

/// What the capture was allowed to keep.
#[derive(Debug, Clone, Default)]
pub struct PrivacyContext {
    pub raw_text_allowed: bool,
    pub screenshots_allowed: bool,
}

/// Everything that one capture found.
#[derive(Debug, Default)]
pub struct ContextManifest {
    pub target: Option<TargetContext>,
    pub editor: Option<EditorContext>,
    pub browser: Option<BrowserContext>,
    pub ax_visible: Option<AxVisibleContext>,
    pub ocr_documents: Vec<OcrDocument>,
    pub visible_text_fused: Option<VisibleTextDocument>,
    pub browser_status: Option<SourceState>,
    pub privacy: PrivacyContext,
}

impl ContextManifest {
    /// The focused element of the web page, where there is one.
    pub open spec fn element(self) -> Option<BrowserElementContext> {
        match self.browser {
            Some(browser) => browser.focused_element,
            None => None,
        }
    }

    /// The focus is on a field that hides what is typed, by accessibility or
    /// by the browser.
    pub open spec fn secure_focus(self) -> bool {
        ||| self.editor matches Some(editor) && editor.secure
        ||| self.element() matches Some(element) && element.secure
    }

    /// Whether the focus is on a field that hides what is typed.
    pub fn has_secure_focus(&self) -> (r: bool)
        ensures
            r == self.secure_focus(),
    {
        let editor_secure: bool = match &self.editor {
            Some(editor) => editor.secure,
            None => false,
        };
        let element_secure: bool = match &self.browser {
            Some(browser) => match &browser.focused_element {
                Some(element) => element.secure,
                None => false,
            },
            None => false,
        };
        editor_secure || element_secure
    }
}

// ---------------------------------------------------------------------------
// Laws of the manifest
// ---------------------------------------------------------------------------

/// A field that hides what is typed has the focus where accessibility or the browser says
/// so, and only there.
pub proof fn secure_focus_is_told_by_either(manifest: ContextManifest)
    ensures
        manifest.editor matches Some(editor) && editor.secure ==> manifest.secure_focus(),
        manifest.browser matches Some(browser) && browser.focused_element matches Some(element)
            && element.secure ==> manifest.secure_focus(),
        manifest.editor is None && manifest.browser is None ==> !manifest.secure_focus(),
        (manifest.editor matches Some(editor) ==> !editor.secure) && (
        manifest.browser matches Some(browser) ==> (
        browser.focused_element matches Some(element) ==> !element.secure))
            ==> !manifest.secure_focus(),
        manifest.browser matches Some(browser) ==> manifest.element() == browser.focused_element,
        SourceState::Succeeded.collected() && SourceState::Empty.collected(),
        SourceState::Denied.refused() && SourceState::SkippedPolicy.refused(),
        !SourceState::Denied.collected() && !SourceState::Succeeded.refused(),
{
}

} // verus!
