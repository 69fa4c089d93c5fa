//! What the user can ask for from each part of the window.

use vstd::prelude::*;

use crate::ids::{AccountId, FolderId, MessageId};

verus! {

pub enum TopBarAction {
    Compose,
    SyncFolder,
    Search(String),
    ClearSearch,
    OpenAccountWizard,
    OpenAbout,
}

pub enum SidebarAction {
    SelectAccount(AccountId),
    SelectFolder(FolderId),
    SyncAllFolders,
}

#[derive(Debug, Clone, PartialEq, Eq)]
pub enum MessageListAction {
    SelectMessage(MessageId),
    /// (message id, new flagged state)
    ToggleFlag(MessageId, bool),
    /// (message id, new seen state)
    ToggleRead(MessageId, bool),
    DeleteMessage(MessageId),
}

#[derive(Debug, Clone, PartialEq, Eq)]
pub enum MessageViewAction {
    Reply(MessageId),
    Forward(MessageId),
    ToggleFlag(MessageId, bool),
    ToggleRead(MessageId, bool),
    Delete(MessageId),
    /// The HTML body to show in a browser.
    OpenHtmlInBrowser(String),
    /// (blob hash, file name)
    DownloadAttachment(String, String),
}

pub enum ComposerAction {
    Send,
    SaveDraft,
    PickAttachment,
    RemoveAttachment(usize),
    Cancel,
}

pub enum AccountWizardAction {
    SaveAccount,
    Cancel,
}

/// Requests from the system tray menu.
#[derive(Debug, Clone, Copy, PartialEq, Eq, Structural)]
pub enum TrayCommand {
    Show,
    Compose,
    Quit,
}

/// Requests a second invocation of the program hands to the running one.
#[derive(Debug, Clone, Copy, PartialEq, Eq, Structural)]
pub enum CliCommand {
    Show,
    Compose,
}

/// State of the connection to the background service.
#[derive(Debug, Clone, PartialEq, Eq)]
pub enum ConnectionStatus {
    Connected,
    Connecting,
    Disconnected(String),
}

} // verus!
