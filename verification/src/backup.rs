//! The cloud backup dialog: the WebDAV account typed into it, the state of
//! its two actions (connection test and sync), and the sync decision that
//! keeps the newer of the local data and the cloud snapshot.

use vstd::prelude::*;
use crate::types::{AppSettings, SyncSnapshot};
use crate::text::{string_of, text_lt};
use crate::webdav::{TransferState, transfer_from, choose_authoritative, local_stamp};
use crate::todos::{DoitApp, is_export_of, took_snapshot, has_config};
use crate::dates::is_datetime_text;

verus! {

/// The backup dialog's state.
pub struct BackupPanel {
    /// The WebDAV address, user and password typed into the dialog.
    pub url: String,
    pub user: String,
    pub pass: String,
    /// The connection test and the sync, each with its own state.
    pub test_state: TransferState,
    pub sync_state: TransferState,
}

/// The message of a completed sync.
pub open spec fn synced_msg() -> Seq<char> {
    "已同步，本地与云端均为最新"@
}

/// The local data changed after the cloud snapshot was taken.
pub open spec fn local_is_newer(last: Seq<char>, cloud: SyncSnapshot) -> bool {
    text_lt(cloud.exported_at@, last)
}

impl BackupPanel {
    /// The dialog prefilled with the account of the settings, both actions idle.
    pub fn new(settings: &AppSettings) -> (r: Self)
        ensures
            r.url@ == settings.cloud_sync.webdav_url@,
            r.user@ == settings.cloud_sync.webdav_username@,
            r.pass@ == settings.cloud_sync.webdav_password@,
            r.test_state == TransferState::Idle,
            r.sync_state == TransferState::Idle,
    {
        BackupPanel {
            url: string_of(settings.cloud_sync.webdav_url.as_str()),
            user: string_of(settings.cloud_sync.webdav_username.as_str()),
            pass: string_of(settings.cloud_sync.webdav_password.as_str()),
            test_state: TransferState::Idle,
            sync_state: TransferState::Idle,
        }
    }

    /// Prefills the account from the current settings and resets both actions.
    pub fn sync_from(&mut self, settings: &AppSettings)
        ensures
            final(self).url@ == settings.cloud_sync.webdav_url@,
            final(self).user@ == settings.cloud_sync.webdav_username@,
            final(self).pass@ == settings.cloud_sync.webdav_password@,
            final(self).test_state == TransferState::Idle,
            final(self).sync_state == TransferState::Idle,
    {
        *self = BackupPanel::new(settings);
    }

    /// The address, user and password typed into the dialog.
    pub fn config(&self) -> (r: (String, String, String))
        ensures
            r.0@ == self.url@,
            r.1@ == self.user@,
            r.2@ == self.pass@,
    {
        (string_of(self.url.as_str()), string_of(self.user.as_str()), string_of(self.pass.as_str()))
    }

    /// The sync button is disabled while a sync runs or without an address.
    pub fn sync_disabled(&self) -> (r: bool)
        ensures
            r == (self.sync_state is Busy || self.url@.len() == 0),
    {
        let busy = match self.sync_state {
            TransferState::Busy => true,
            _ => false,
        };
        busy || self.url.as_str().unicode_len() == 0
    }

    /// The caption of the test button.
    pub fn test_button_label(&self) -> (r: &'static str)
        ensures
            self.test_state is Busy ==> r@ == "测试中…"@,
            !(self.test_state is Busy) ==> r@ == "测试连接"@,
    {
        match self.test_state {
            TransferState::Busy => "测试中…",
            _ => "测试连接",
        }
    }

    /// The caption of the sync button.
    pub fn sync_button_label(&self) -> (r: &'static str)
        ensures
            self.sync_state is Busy ==> r@ == "同步中…"@,
            !(self.sync_state is Busy) ==> r@ == "立即同步"@,
    {
        match self.sync_state {
            TransferState::Busy => "同步中…",
            _ => "立即同步",
        }
    }

    /// Starts the connection test: marks it busy, mirrors the typed account
    /// into the settings (turning sync on) and returns it to test with.
    pub fn begin_test(&mut self, app: &mut DoitApp) -> (r: (String, String, String))
        ensures
            *final(self) == (BackupPanel { test_state: TransferState::Busy, ..*old(self) }),
            r.0@ == old(self).url@ && r.1@ == old(self).user@ && r.2@ == old(self).pass@,
            has_config(*final(app), *old(app), old(self).url@, old(self).user@, old(self).pass@),
    {
        self.test_state = TransferState::Busy;
        app.push_config(self.url.as_str(), self.user.as_str(), self.pass.as_str());
        self.config()
    }

    /// The connection test finished.
    pub fn finish_test(&mut self, result: Result<String, String>)
        ensures
            match result {
                Ok(m) => final(self).test_state == TransferState::Done(m),
                Err(e) => final(self).test_state == TransferState::Failed(e),
            },
            *final(self) == (BackupPanel { test_state: final(self).test_state, ..*old(self) }),
    {
        self.test_state = transfer_from(result);
    }

    /// Starts a sync: marks it busy, mirrors the typed account into the
    /// settings (turning sync on) and returns it to sync with.
    pub fn begin_sync(&mut self, app: &mut DoitApp) -> (r: (String, String, String))
        ensures
            *final(self) == (BackupPanel { sync_state: TransferState::Busy, ..*old(self) }),
            r.0@ == old(self).url@ && r.1@ == old(self).user@ && r.2@ == old(self).pass@,
            has_config(*final(app), *old(app), old(self).url@, old(self).user@, old(self).pass@),
    {
        self.sync_state = TransferState::Busy;
        app.push_config(self.url.as_str(), self.user.as_str(), self.pass.as_str());
        self.config()
    }

    /// Ends a sync: on success the kept snapshot replaces the local data and
    /// the message shows; on failure the error shows and the data stays.
    pub fn finish_sync(&mut self, app: &mut DoitApp, result: Result<(SyncSnapshot, String), String>)
        ensures
            match result {
                Ok((snap, msg)) => {
                    &&& final(self).sync_state == TransferState::Done(msg)
                    &&& took_snapshot(*final(app), *old(app), snap)
                },
                Err(e) => {
                    &&& final(self).sync_state == TransferState::Failed(e)
                    &&& *final(app) == *old(app)
                },
            },
            *final(self) == (BackupPanel { sync_state: final(self).sync_state, ..*old(self) }),
    {
        match result {
            Ok((snap, msg)) => {
                app.apply_snapshot(snap);
                self.sync_state = TransferState::Done(msg);
            },
            Err(e) => {
                self.sync_state = TransferState::Failed(e);
            },
        }
    }
}

/// The snapshot to write back to the cloud: the newer of the local data and
/// the downloaded snapshot; the local data when the cloud holds no backup
/// yet (`Ok(None)`); or the download's error.
pub fn merge_for_upload(app: &DoitApp, remote: Result<Option<SyncSnapshot>, String>) -> (r: Result<SyncSnapshot, String>)
    ensures
        match remote {
            Err(e) => r == Err::<SyncSnapshot, String>(e),
            Ok(None) => r matches Ok(s) && s.version == 1 && is_export_of(s, *app),
            Ok(Some(rs)) => r matches Ok(s) && (if local_is_newer(app.last_modified@, rs) {
                s.version == 1 && is_export_of(s, *app)
            } else {
                s == rs
            }),
        },
{
    match remote {
        Err(e) => Err(e),
        Ok(None) => Ok(app.export_snapshot()),
        Ok(Some(rs)) => {
            let local = app.export_snapshot();
            Ok(choose_authoritative(app.last_modified.as_str(), local, rs))
        },
    }
}

/// Stamps the kept snapshot with the sync time before it is written back.
pub fn stamp_for_upload(snap: SyncSnapshot) -> (r: SyncSnapshot)
    ensures
        r.version == snap.version,
        r.todos == snap.todos,
        r.settings == snap.settings,
        vstd::utf8::is_ascii_chars(r.exported_at@),
        is_datetime_text(r.exported_at@),
{
    SyncSnapshot { version: snap.version, exported_at: local_stamp(), todos: snap.todos, settings: snap.settings }
}

/// The outcome of the sync after the upload of snapshot `snap`: the snapshot
/// to apply locally with the success message, or the upload's error.
pub fn sync_outcome(snap: SyncSnapshot, upload: Result<String, String>) -> (r: Result<(SyncSnapshot, String), String>)
    ensures
        match upload {
            Ok(_) => r matches Ok((s, m)) && s == snap && m@ == synced_msg(),
            Err(e) => r == Err::<(SyncSnapshot, String), String>(e),
        },
{
    match upload {
        Ok(_) => Ok((snap, string_of("已同步，本地与云端均为最新"))),
        Err(e) => Err(e),
    }
}

/// The result line of an action: nothing while idle or busy, else whether
/// it succeeded and its message.
pub fn action_status(state: &TransferState) -> (r: Option<(bool, String)>)
    ensures
        match *state {
            TransferState::Idle => r is None,
            TransferState::Busy => r is None,
            TransferState::Done(m) => r matches Some((ok, t)) && ok && t@ == m@,
            TransferState::Failed(m) => r matches Some((ok, t)) && !ok && t@ == m@,
        },
{
    match state {
        TransferState::Idle => None,
        TransferState::Busy => None,
        TransferState::Done(m) => Some((true, string_of(m.as_str()))),
        TransferState::Failed(m) => Some((false, string_of(m.as_str()))),
    }
}

} // verus!
