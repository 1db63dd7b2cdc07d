use vstd::prelude::*;
use crate::application::state::DocumentId;
use crate::tools::job::SecretPassword;

verus! {

/// The effects that a step of the view model asks the window to carry out.
pub enum AppCommand {
    RequestPageRender { document_id: DocumentId, page_index: u32 },
    OpenDocumentPath { path: String, password: Option<SecretPassword> },
    SavePreferences,
    SyncWindowChrome,
    InvalidateCanvas,
    ExecutePrintDialog,
    ShowBanner { message: String, can_retry: bool },
}

pub ghost enum CommandView {
    RequestPageRender { document_id: DocumentId, page_index: u32 },
    OpenDocumentPath { path: Seq<char>, password: Option<Seq<u8>> },
    SavePreferences,
    SyncWindowChrome,
    InvalidateCanvas,
    ExecutePrintDialog,
    ShowBanner { message: Seq<char>, can_retry: bool },
}

impl View for AppCommand {
    type V = CommandView;

    open spec fn view(&self) -> CommandView {
        match self {
            AppCommand::RequestPageRender { document_id, page_index } => CommandView::RequestPageRender {
                document_id: *document_id,
                page_index: *page_index,
            },
            AppCommand::OpenDocumentPath { path, password } => CommandView::OpenDocumentPath {
                path: path@,
                password: match password {
                    Some(p) => Some(p@),
                    None => None,
                },
            },
            AppCommand::SavePreferences => CommandView::SavePreferences,
            AppCommand::SyncWindowChrome => CommandView::SyncWindowChrome,
            AppCommand::InvalidateCanvas => CommandView::InvalidateCanvas,
            AppCommand::ExecutePrintDialog => CommandView::ExecutePrintDialog,
            AppCommand::ShowBanner { message, can_retry } => CommandView::ShowBanner {
                message: message@,
                can_retry: *can_retry,
            },
        }
    }
}

pub open spec fn command_view(c: Option<AppCommand>) -> Option<CommandView> {
    match c {
        Some(c) => Some(c@),
        None => None,
    }
}

} // verus!
