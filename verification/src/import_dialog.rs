//! The import and export popups: the path being typed, which step the import
//! is at, and the message an import ends with.
use vstd::prelude::*;
use crate::details::int_text;
use crate::keymap::action::KeyAction;
use crate::state::ImportExportMode;
use crate::storage::{push_decimal, ImportMode, ImportPreview, ImportResult};
use crate::text::{push_char, push_str};

verus! {

/// The import/export popup.
pub struct ImportExportDialog {
    /// Whether the export popup is open.
    pub export_open: bool,
    /// Whether the import popup is open.
    pub import_open: bool,
    pub mode: ImportExportMode,
    /// The file path typed so far.
    pub path: String,
    /// What the import would do, once previewed.
    pub preview: Option<ImportPreview>,
    /// 0 to merge into what is there, 1 to replace it.
    pub mode_index: usize,
}

/// What Enter asks the caller to do with the typed path.
pub enum FileRequest {
    Nothing,
    Export(String),
    Preview(String),
    Import(String, ImportMode),
}

pub enum FileRequestView {
    Nothing,
    Export(Seq<char>),
    Preview(Seq<char>),
    Import(Seq<char>, ImportMode),
}

pub open spec fn file_request_view(r: FileRequest) -> FileRequestView {
    match r {
        FileRequest::Nothing => FileRequestView::Nothing,
        FileRequest::Export(p) => FileRequestView::Export(p@),
        FileRequest::Preview(p) => FileRequestView::Preview(p@),
        FileRequest::Import(p, m) => FileRequestView::Import(p@, m),
    }
}

/// The popup's state as values: export open, import open, step, path,
/// preview and import mode row.
pub type FileDialogView = (bool, bool, ImportExportMode, Seq<char>, Option<ImportPreview>, usize);

pub open spec fn file_dialog_view(d: ImportExportDialog) -> FileDialogView {
    (d.export_open, d.import_open, d.mode, d.path@, d.preview, d.mode_index)
}

/// The import mode a row stands for: the second replaces, any other merges.
pub open spec fn mode_of_row(i: usize) -> ImportMode {
    if i == 1 {
        ImportMode::Replace
    } else {
        ImportMode::Merge
    }
}

/// What a key does to the popup, and what Enter asks for.
pub open spec fn file_step(d: FileDialogView, action: KeyAction) -> (FileDialogView, FileRequestView) {
    let (e, i, mode, path, preview, row) = d;
    let importing = mode == ImportExportMode::Import || mode == ImportExportMode::ImportPreview;
    match action {
        KeyAction::DeleteCharBackward => (
            (e, i, mode, if path.len() > 0 {
                path.drop_last()
            } else {
                path
            }, preview, row),
            FileRequestView::Nothing,
        ),
        KeyAction::KillLine => (
            (e, i, if mode == ImportExportMode::ImportPreview {
                ImportExportMode::Import
            } else {
                mode
            }, Seq::empty(), None, row),
            FileRequestView::Nothing,
        ),
        KeyAction::NavigateUp => if importing {
            ((e, i, ImportExportMode::Import, path, None, 0), FileRequestView::Nothing)
        } else {
            (d, FileRequestView::Nothing)
        },
        KeyAction::NavigateDown => if importing {
            ((e, i, mode, path, preview, 1), FileRequestView::Nothing)
        } else {
            (d, FileRequestView::Nothing)
        },
        KeyAction::Confirm => (d, match mode {
            ImportExportMode::Export => if path.len() > 0 {
                FileRequestView::Export(path)
            } else {
                FileRequestView::Nothing
            },
            ImportExportMode::Import => if path.len() > 0 {
                FileRequestView::Preview(path)
            } else {
                FileRequestView::Nothing
            },
            ImportExportMode::ImportPreview => if preview is Some {
                FileRequestView::Import(path, mode_of_row(row))
            } else {
                FileRequestView::Nothing
            },
        }),
        _ => (d, FileRequestView::Nothing),
    }
}

/// What the status line says after an import: the commands imported, the
/// collections imported and the commands skipped, each only when there were
/// any.
pub open spec fn import_message(r: ImportResult) -> Seq<char> {
    let a = if r.imported_commands > 0 {
        "Imported "@ + int_text(r.imported_commands as int) + " commands"@
    } else {
        Seq::empty()
    };
    let b = if r.imported_collections > 0 {
        (if a.len() > 0 {
            a + ", "@
        } else {
            a
        }) + int_text(r.imported_collections as int) + " collections"@
    } else {
        a
    };
    if r.skipped_commands > 0 {
        b + ", skipped "@ + int_text(r.skipped_commands as int)
    } else {
        b
    }
}

/// The status message for what an import did.
pub fn import_summary(r: ImportResult) -> (msg: String)
    ensures
        msg@ == import_message(r),
{
    let mut msg = String::new();
    if r.imported_commands > 0 {
        push_str(&mut msg, "Imported ");
        push_decimal(&mut msg, r.imported_commands as u64);
        push_str(&mut msg, " commands");
    }
    let ghost a = msg@;
    if r.imported_collections > 0 {
        if !msg.as_str().is_empty() {
            push_str(&mut msg, ", ");
        }
        push_decimal(&mut msg, r.imported_collections as u64);
        push_str(&mut msg, " collections");
    }
    if r.skipped_commands > 0 {
        push_str(&mut msg, ", skipped ");
        push_decimal(&mut msg, r.skipped_commands as u64);
    }
    msg
}

impl ImportExportDialog {
    /// Both popups closed.
    pub fn new() -> (r: ImportExportDialog)
        ensures
            file_dialog_view(r) == (false, false, ImportExportMode::Export, Seq::<char>::empty(), None::<
                ImportPreview,
            >, 0usize),
    {
        ImportExportDialog {
            export_open: false,
            import_open: false,
            mode: ImportExportMode::Export,
            path: String::new(),
            preview: None,
            mode_index: 0,
        }
    }

    /// Opens the export popup with no path typed.
    pub fn open_export(&mut self)
        ensures
            file_dialog_view(*final(self)) == (true, false, ImportExportMode::Export, Seq::<char>::empty(), None::<
                ImportPreview,
            >, 0usize),
    {
        self.export_open = true;
        self.import_open = false;
        self.mode = ImportExportMode::Export;
        self.path = String::new();
        self.preview = None;
        self.mode_index = 0;
    }

    /// Opens the import popup with no path typed.
    pub fn open_import(&mut self)
        ensures
            file_dialog_view(*final(self)) == (false, true, ImportExportMode::Import, Seq::<char>::empty(), None::<
                ImportPreview,
            >, 0usize),
    {
        self.import_open = true;
        self.export_open = false;
        self.mode = ImportExportMode::Import;
        self.path = String::new();
        self.preview = None;
        self.mode_index = 0;
    }

    /// Closes both popups, forgetting the path and the preview.
    pub fn close(&mut self)
        ensures
            file_dialog_view(*final(self)) == (false, false, old(self).mode, Seq::<char>::empty(), None::<
                ImportPreview,
            >, old(self).mode_index),
    {
        self.export_open = false;
        self.import_open = false;
        self.path = String::new();
        self.preview = None;
    }

    /// Types `c` into the path.
    pub fn insert_char(&mut self, c: char)
        ensures
            final(self).path@ == old(self).path@.push(c),
            final(self).mode == old(self).mode,
            final(self).preview == old(self).preview,
            final(self).mode_index == old(self).mode_index,
            final(self).export_open == old(self).export_open,
            final(self).import_open == old(self).import_open,
    {
        push_char(&mut self.path, c);
    }

    /// Shows what the import would do and moves to its last step.
    pub fn show_preview(&mut self, preview: ImportPreview)
        ensures
            file_dialog_view(*final(self)) == (old(self).export_open, old(self).import_open, ImportExportMode::ImportPreview, old(self).path@, Some(preview), old(self).mode_index),
    {
        self.preview = Some(preview);
        self.mode = ImportExportMode::ImportPreview;
    }

    /// Runs a key of the popup.
    pub fn dispatch(&mut self, action: KeyAction) -> (r: FileRequest)
        ensures
            (file_dialog_view(*final(self)), file_request_view(r)) == file_step(
                file_dialog_view(*old(self)),
                action,
            ),
    {
        let importing = self.mode == ImportExportMode::Import || self.mode == ImportExportMode::ImportPreview;
        match action {
            KeyAction::DeleteCharBackward => {
                let ghost before = self.path@;
                let mut chars = crate::text::chars_of(self.path.as_str());
                chars.pop();
                self.path = crate::text::string_of(chars.as_slice());
                assert(self.path@ =~= (if before.len() > 0 {
                    before.drop_last()
                } else {
                    before
                }));
                FileRequest::Nothing
            },
            KeyAction::KillLine => {
                self.path = String::new();
                self.preview = None;
                if self.mode == ImportExportMode::ImportPreview {
                    self.mode = ImportExportMode::Import;
                }
                FileRequest::Nothing
            },
            KeyAction::NavigateUp => {
                if importing {
                    self.mode_index = 0;
                    self.preview = None;
                    self.mode = ImportExportMode::Import;
                }
                FileRequest::Nothing
            },
            KeyAction::NavigateDown => {
                if importing {
                    self.mode_index = 1;
                }
                FileRequest::Nothing
            },
            KeyAction::Confirm => match self.mode {
                ImportExportMode::Export => {
                    if self.path.as_str().is_empty() {
                        FileRequest::Nothing
                    } else {
                        FileRequest::Export(self.path.clone())
                    }
                },
                ImportExportMode::Import => {
                    if self.path.as_str().is_empty() {
                        FileRequest::Nothing
                    } else {
                        FileRequest::Preview(self.path.clone())
                    }
                },
                ImportExportMode::ImportPreview => {
                    if self.preview.is_some() {
                        let m = if self.mode_index == 1 {
                            ImportMode::Replace
                        } else {
                            ImportMode::Merge
                        };
                        FileRequest::Import(self.path.clone(), m)
                    } else {
                        FileRequest::Nothing
                    }
                },
            },
            _ => FileRequest::Nothing,
        }
    }
}

} // verus!
