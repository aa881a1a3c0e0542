//! The settings dialog: its sections, the working copy of the settings it
//! edits, the shortcut recorder and the connection test.

use vstd::prelude::*;
use crate::types::{AppSettings, ShortcutConfig, ScheduleConfig, CloudSyncConfig, same_settings, copy_categories, copy_tags};
use crate::text::{dec, string_of, str_eq, trim, trim_seq, parse_u32, parsed_u32, decimal, contains_str, has_sub, push_str};
use crate::webdav::{TransferState, transfer_from};
use crate::http::{HttpTrust, set_trust_self_signed};
use crate::labels::{CategoriesPanel, TagsPanel};
use crate::session::KeyPress;
use crate::todos::{DoitApp, is_cleared};

verus! {

/// The sections of the settings dialog.
#[derive(Clone, Copy, Debug, PartialEq, Eq, Structural)]
pub enum Section {
    Appearance,
    Interaction,
    Sync,
    Labels,
    Data,
    About,
}

impl Section {
    /// The position of the section in the navigation.
    pub open spec fn spec_index(self) -> u32 {
        match self {
            Section::Appearance => 0,
            Section::Interaction => 1,
            Section::Sync => 2,
            Section::Labels => 3,
            Section::Data => 4,
            Section::About => 5,
        }
    }

    /// The caption of the section's navigation button.
    pub open spec fn spec_label(self) -> Seq<char> {
        match self {
            Section::Appearance => "外观"@,
            Section::Interaction => "交互"@,
            Section::Sync => "同步"@,
            Section::Labels => "分类与标签"@,
            Section::Data => "数据"@,
            Section::About => "关于"@,
        }
    }

    /// The sections in navigation order.
    pub fn all() -> (r: [Section; 6])
        ensures
            r@ == seq![
                Section::Appearance,
                Section::Interaction,
                Section::Sync,
                Section::Labels,
                Section::Data,
                Section::About,
            ],
    {
        [
            Section::Appearance,
            Section::Interaction,
            Section::Sync,
            Section::Labels,
            Section::Data,
            Section::About,
        ]
    }

    pub fn label(&self) -> (r: &'static str)
        ensures
            r@ == self.spec_label(),
    {
        match self {
            Section::Appearance => "外观",
            Section::Interaction => "交互",
            Section::Sync => "同步",
            Section::Labels => "分类与标签",
            Section::Data => "数据",
            Section::About => "关于",
        }
    }

    pub fn index(&self) -> (r: u32)
        ensures
            r == self.spec_index(),
    {
        match self {
            Section::Appearance => 0,
            Section::Interaction => 1,
            Section::Sync => 2,
            Section::Labels => 3,
            Section::Data => 4,
            Section::About => 5,
        }
    }
}

/// The texts the dialog's number and account inputs start with.
pub struct SettingsInputs {
    pub url: String,
    pub user: String,
    pub pass: String,
    pub keep_recent: String,
    pub backup_interval: String,
    pub restore_interval: String,
}

/// What a key press did to the shortcut recorder.
#[derive(Clone, Copy, Debug, PartialEq, Eq, Structural)]
pub enum RecordStep {
    /// Not recording, or a lone modifier key: nothing changes.
    Ignored,
    /// Escape: recording stops, the shortcut stays.
    Cancelled,
    /// The key and its modifiers became the add shortcut.
    Recorded,
}

/// The key names of lone modifier keys.
pub open spec fn is_modifier_key(key: Seq<char>) -> bool {
    key == "control"@ || key == "shift"@ || key == "alt"@ || key == "meta"@ || key == "super"@
        || key == "command"@
}

/// What a key press does to the shortcut recorder: `after` is the dialog
/// and `r` the step after pressing `ks` in `before`.
pub open spec fn record_outcome(before: SettingsPanel, ks: KeyPress, after: SettingsPanel, r: RecordStep) -> bool {
    &&& !before.recording ==> r == RecordStep::Ignored
    &&& before.recording && ks.key@ == "escape"@ ==> r == RecordStep::Cancelled
    &&& before.recording && ks.key@ != "escape"@ && is_modifier_key(ks.key@) ==> r == RecordStep::Ignored
    &&& before.recording && ks.key@ != "escape"@ && !is_modifier_key(ks.key@) ==> r == RecordStep::Recorded
    &&& r == RecordStep::Ignored ==> after == before
    &&& r == RecordStep::Cancelled ==> after == (SettingsPanel { recording: false, ..before })
    &&& r == RecordStep::Recorded ==> after == (SettingsPanel {
        local: AppSettings { add_todo_shortcut: shortcut_of(ks), ..before.local },
        recording: false,
        ..before
    })
}

/// The shortcut a key press describes.
pub open spec fn shortcut_of(ks: KeyPress) -> ShortcutConfig {
    ShortcutConfig { key: ks.key, ctrl: ks.ctrl, shift: ks.shift, alt: ks.alt, meta: ks.platform }
}

/// The number typed into a field, or `default` when it does not read as one.
pub open spec fn number_or(text: Seq<char>, default: u32) -> u32 {
    match parsed_u32(text) {
        Some(n) => n,
        None => default,
    }
}

/// The theme chosen by position: 1 light, 2 dark, any other the system's.
pub open spec fn theme_at(ix: int) -> Seq<char> {
    if ix == 1 {
        "light"@
    } else if ix == 2 {
        "dark"@
    } else {
        "system"@
    }
}

/// The schedule unit chosen by position: 1 hours, 2 days, any other minutes.
pub open spec fn unit_at(ix: int) -> Seq<char> {
    if ix == 1 {
        "hour"@
    } else if ix == 2 {
        "day"@
    } else {
        "minute"@
    }
}

fn number_or_exec(text: &str, default: u32) -> (r: u32)
    ensures
        r == number_or(text@, default),
{
    match parse_u32(text) {
        Some(n) => n,
        None => default,
    }
}

/// The settings dialog's state.
pub struct SettingsPanel {
    /// The working copy of the settings the dialog edits.
    pub local: AppSettings,
    pub active: Section,
    /// Whether the next key press becomes the add shortcut.
    pub recording: bool,
    /// The state of the connection test.
    pub sync_test: TransferState,
    pub categories: CategoriesPanel,
    pub tags: TagsPanel,
}

/// The dialog shows `settings` from its first section, idle.
pub open spec fn panel_reset(p: SettingsPanel, settings: AppSettings) -> bool {
    &&& p.local == settings
    &&& p.active == Section::Appearance
    &&& !p.recording
    &&& p.sync_test == TransferState::Idle
}

/// The category and tag panels of the dialog start over the labels of `settings`.
pub open spec fn fresh_panels(p: SettingsPanel, settings: AppSettings) -> bool {
    &&& p.categories.editor.items@ == settings.categories@
    &&& p.categories.default_id == settings.default_category_id
    &&& p.categories.editor.editing_id is None
    &&& !p.categories.editor.show_done
    &&& p.categories.editor.hover_row is None
    &&& p.categories.editor.seq == 0
    &&& p.tags.editor.items@ == settings.tags@
    &&& p.tags.editor.editing_id is None
    &&& !p.tags.editor.show_done
    &&& p.tags.editor.hover_row is None
    &&& p.tags.editor.seq == 0
}

impl SettingsPanel {
    /// The dialog over `settings`, with category and tag panels over its labels.
    pub fn new(settings: AppSettings) -> (r: Self)
        ensures
            panel_reset(r, settings),
            fresh_panels(r, settings),
    {
        let categories = CategoriesPanel::new(
            copy_categories(&settings.categories),
            crate::text::clone_opt(&settings.default_category_id),
            false,
        );
        let tags = TagsPanel::new(copy_tags(&settings.tags), false);
        SettingsPanel {
            local: settings,
            active: Section::Appearance,
            recording: false,
            sync_test: TransferState::Idle,
            categories,
            tags,
        }
    }

    /// Shows fresh settings from the first section, idle.
    pub fn sync_from(&mut self, settings: AppSettings)
        ensures
            panel_reset(*final(self), settings),
            final(self).categories == old(self).categories,
            final(self).tags == old(self).tags,
    {
        self.local = settings;
        self.active = Section::Appearance;
        self.recording = false;
        self.sync_test = TransferState::Idle;
    }

    /// After an import replaced the data: shows the imported settings, with
    /// the category and tag panels rebuilt over its labels.
    pub fn reload_after_import(&mut self, settings: AppSettings)
        ensures
            panel_reset(*final(self), settings),
            fresh_panels(*final(self), settings),
    {
        let fresh = SettingsPanel::new(settings);
        *self = fresh;
    }

    /// The texts the inputs show for the working copy.
    pub fn input_texts(&self) -> (r: SettingsInputs)
        ensures
            r.url@ == self.local.cloud_sync.webdav_url@,
            r.user@ == self.local.cloud_sync.webdav_username@,
            r.pass@ == self.local.cloud_sync.webdav_password@,
            r.keep_recent@ == dec(self.local.cloud_sync.keep_recent as nat),
            r.backup_interval@ == dec(self.local.auto_backup.interval as nat),
            r.restore_interval@ == dec(self.local.auto_restore.interval as nat),
    {
        SettingsInputs {
            url: string_of(self.local.cloud_sync.webdav_url.as_str()),
            user: string_of(self.local.cloud_sync.webdav_username.as_str()),
            pass: string_of(self.local.cloud_sync.webdav_password.as_str()),
            keep_recent: decimal(self.local.cloud_sync.keep_recent as u64),
            backup_interval: decimal(self.local.auto_backup.interval as u64),
            restore_interval: decimal(self.local.auto_restore.interval as u64),
        }
    }

    /// Hands the working copy to the application.
    pub fn push_to(&self, app: &mut DoitApp)
        ensures
            same_settings(final(app).settings, self.local),
            final(app).todos == old(app).todos,
    {
        app.set_settings(self.local.duplicate());
    }

    /// Opens a section.
    pub fn select_section(&mut self, section: Section)
        ensures
            *final(self) == (SettingsPanel { active: section, ..*old(self) }),
    {
        self.active = section;
    }

    /// The WebDAV address was edited.
    pub fn set_url(&mut self, text: &str)
        ensures
            final(self).local.cloud_sync.webdav_url@ == text@,
            *final(self) == (SettingsPanel {
                local: AppSettings {
                    cloud_sync: CloudSyncConfig { webdav_url: final(self).local.cloud_sync.webdav_url, ..old(self).local.cloud_sync },
                    ..old(self).local
                },
                ..*old(self)
            }),
    {
        self.local.cloud_sync.webdav_url = string_of(text);
    }

    /// The user name was edited.
    pub fn set_user(&mut self, text: &str)
        ensures
            final(self).local.cloud_sync.webdav_username@ == text@,
            *final(self) == (SettingsPanel {
                local: AppSettings {
                    cloud_sync: CloudSyncConfig { webdav_username: final(self).local.cloud_sync.webdav_username, ..old(self).local.cloud_sync },
                    ..old(self).local
                },
                ..*old(self)
            }),
    {
        self.local.cloud_sync.webdav_username = string_of(text);
    }

    /// The password was edited.
    pub fn set_pass(&mut self, text: &str)
        ensures
            final(self).local.cloud_sync.webdav_password@ == text@,
            *final(self) == (SettingsPanel {
                local: AppSettings {
                    cloud_sync: CloudSyncConfig { webdav_password: final(self).local.cloud_sync.webdav_password, ..old(self).local.cloud_sync },
                    ..old(self).local
                },
                ..*old(self)
            }),
    {
        self.local.cloud_sync.webdav_password = string_of(text);
    }

    /// The number of backups to keep was edited (0, no limit, when it does not read as a number).
    pub fn set_keep_recent(&mut self, text: &str)
        ensures
            *final(self) == (SettingsPanel {
                local: AppSettings {
                    cloud_sync: CloudSyncConfig { keep_recent: number_or(text@, 0), ..old(self).local.cloud_sync },
                    ..old(self).local
                },
                ..*old(self)
            }),
    {
        self.local.cloud_sync.keep_recent = number_or_exec(text, 0);
    }

    /// The backup interval was edited (30 when it does not read as a number).
    pub fn set_backup_interval(&mut self, text: &str)
        ensures
            *final(self) == (SettingsPanel {
                local: AppSettings {
                    auto_backup: ScheduleConfig { interval: number_or(text@, 30), ..old(self).local.auto_backup },
                    ..old(self).local
                },
                ..*old(self)
            }),
    {
        self.local.auto_backup.interval = number_or_exec(text, 30);
    }

    /// The restore interval was edited (30 when it does not read as a number).
    pub fn set_restore_interval(&mut self, text: &str)
        ensures
            *final(self) == (SettingsPanel {
                local: AppSettings {
                    auto_restore: ScheduleConfig { interval: number_or(text@, 30), ..old(self).local.auto_restore },
                    ..old(self).local
                },
                ..*old(self)
            }),
    {
        self.local.auto_restore.interval = number_or_exec(text, 30);
    }

    /// The long-press duration slider moved to `secs` seconds.
    pub fn set_long_press_duration(&mut self, secs: u32)
        ensures
            *final(self) == (SettingsPanel {
                local: AppSettings { long_press_duration: secs, ..old(self).local },
                ..*old(self)
            }),
    {
        self.local.long_press_duration = secs;
    }

    /// The caption next to the slider, `N 秒`.
    pub fn long_press_caption(&self) -> (r: String)
        ensures
            r@ == dec(self.local.long_press_duration as nat) + " 秒"@,
    {
        let mut s = decimal(self.local.long_press_duration as u64);
        push_str(&mut s, " 秒");
        s
    }

    /// The selected theme option: 0 system, 1 light, 2 dark.
    pub fn theme_index(&self) -> (r: u32)
        ensures
            r == (if self.local.theme@ == "light"@ { 1u32 } else if self.local.theme@ == "dark"@ { 2u32 } else { 0u32 }),
    {
        if str_eq(self.local.theme.as_str(), "light") {
            1
        } else if str_eq(self.local.theme.as_str(), "dark") {
            2
        } else {
            0
        }
    }

    /// A theme option was picked.
    pub fn choose_theme(&mut self, ix: usize)
        ensures
            final(self).local.theme@ == theme_at(ix as int),
            *final(self) == (SettingsPanel {
                local: AppSettings { theme: final(self).local.theme, ..old(self).local },
                ..*old(self)
            }),
    {
        self.local.theme = if ix == 1 {
            string_of("light")
        } else if ix == 2 {
            string_of("dark")
        } else {
            string_of("system")
        };
    }

    /// The selected completion option: 1 long press, 0 checkbox.
    pub fn completion_index(&self) -> (r: u32)
        ensures
            r == (if self.local.completion_mode@ == "longpress"@ { 1u32 } else { 0u32 }),
    {
        if str_eq(self.local.completion_mode.as_str(), "longpress") {
            1
        } else {
            0
        }
    }

    /// A completion option was picked: 1 long press, any other the checkbox.
    pub fn choose_completion(&mut self, ix: usize)
        ensures
            final(self).local.completion_mode@ == (if ix == 1 { "longpress"@ } else { "checkbox"@ }),
            *final(self) == (SettingsPanel {
                local: AppSettings { completion_mode: final(self).local.completion_mode, ..old(self).local },
                ..*old(self)
            }),
    {
        self.local.completion_mode = if ix == 1 {
            string_of("longpress")
        } else {
            string_of("checkbox")
        };
    }

    /// The recorder waits for the next key press.
    pub fn start_recording(&mut self)
        ensures
            *final(self) == (SettingsPanel { recording: true, ..*old(self) }),
    {
        self.recording = true;
    }

    /// The caption of the recorder button.
    pub fn record_button_label(&self) -> (r: &'static str)
        ensures
            self.recording ==> r@ == "请按下组合键…"@,
            !self.recording ==> r@ == "改键"@,
    {
        if self.recording {
            "请按下组合键…"
        } else {
            "改键"
        }
    }

    /// A key press reached the recorder: escape stops recording, a lone
    /// modifier is ignored, any other key with its modifiers becomes the
    /// add shortcut and stops recording.
    pub fn record_key(&mut self, ks: KeyPress) -> (r: RecordStep)
        ensures
            !old(self).recording ==> r == RecordStep::Ignored,
            old(self).recording && ks.key@ == "escape"@ ==> r == RecordStep::Cancelled,
            old(self).recording && ks.key@ != "escape"@ && is_modifier_key(ks.key@) ==> r == RecordStep::Ignored,
            old(self).recording && ks.key@ != "escape"@ && !is_modifier_key(ks.key@) ==> r == RecordStep::Recorded,
            r == RecordStep::Ignored ==> *final(self) == *old(self),
            r == RecordStep::Cancelled ==> *final(self) == (SettingsPanel { recording: false, ..*old(self) }),
            r == RecordStep::Recorded ==> *final(self) == (SettingsPanel {
                local: AppSettings { add_todo_shortcut: shortcut_of(ks), ..old(self).local },
                recording: false,
                ..*old(self)
            }),
            record_outcome(*old(self), ks, *final(self), r),
    {
        if !self.recording {
            return RecordStep::Ignored;
        }
        let key = ks.key.as_str();
        if str_eq(key, "escape") {
            self.recording = false;
            return RecordStep::Cancelled;
        }
        if str_eq(key, "control") || str_eq(key, "shift") || str_eq(key, "alt") || str_eq(key, "meta")
            || str_eq(key, "super") || str_eq(key, "command") {
            return RecordStep::Ignored;
        }
        self.local.add_todo_shortcut = ShortcutConfig {
            key: ks.key,
            ctrl: ks.ctrl,
            shift: ks.shift,
            alt: ks.alt,
            meta: ks.platform,
        };
        self.recording = false;
        RecordStep::Recorded
    }

    /// Cloud sync was switched on or off.
    pub fn set_cloud_enabled(&mut self, on: bool)
        ensures
            *final(self) == (SettingsPanel {
                local: AppSettings {
                    cloud_sync: CloudSyncConfig { enabled: on, ..old(self).local.cloud_sync },
                    ..old(self).local
                },
                ..*old(self)
            }),
    {
        self.local.cloud_sync.enabled = on;
    }

    /// Fetching on startup was switched on or off.
    pub fn set_fetch_on_startup(&mut self, on: bool)
        ensures
            *final(self) == (SettingsPanel {
                local: AppSettings {
                    cloud_sync: CloudSyncConfig { fetch_on_startup: on, ..old(self).local.cloud_sync },
                    ..old(self).local
                },
                ..*old(self)
            }),
    {
        self.local.cloud_sync.fetch_on_startup = on;
    }

    /// Uploading on exit was switched on or off.
    pub fn set_upload_on_exit(&mut self, on: bool)
        ensures
            *final(self) == (SettingsPanel {
                local: AppSettings {
                    cloud_sync: CloudSyncConfig { upload_on_exit: on, ..old(self).local.cloud_sync },
                    ..old(self).local
                },
                ..*old(self)
            }),
    {
        self.local.cloud_sync.upload_on_exit = on;
    }

    /// Trusting self-signed certificates was switched on or off (also the
    /// "trust and retry" button); the HTTP client follows.
    pub fn set_trust(&mut self, trust: &mut HttpTrust, on: bool)
        ensures
            final(trust).accept_self_signed == on,
            *final(self) == (SettingsPanel {
                local: AppSettings {
                    cloud_sync: CloudSyncConfig { trust_self_signed: on, ..old(self).local.cloud_sync },
                    ..old(self).local
                },
                ..*old(self)
            }),
    {
        self.local.cloud_sync.trust_self_signed = on;
        set_trust_self_signed(trust, on);
    }

    /// A schedule (backup or restore) was switched on or off.
    pub fn set_schedule_enabled(&mut self, backup: bool, on: bool)
        ensures
            backup ==> *final(self) == (SettingsPanel {
                local: AppSettings {
                    auto_backup: ScheduleConfig { enabled: on, ..old(self).local.auto_backup },
                    ..old(self).local
                },
                ..*old(self)
            }),
            !backup ==> *final(self) == (SettingsPanel {
                local: AppSettings {
                    auto_restore: ScheduleConfig { enabled: on, ..old(self).local.auto_restore },
                    ..old(self).local
                },
                ..*old(self)
            }),
    {
        if backup {
            self.local.auto_backup.enabled = on;
        } else {
            self.local.auto_restore.enabled = on;
        }
    }

    /// A schedule unit option was picked.
    pub fn choose_unit(&mut self, backup: bool, ix: usize)
        ensures
            backup ==> final(self).local.auto_backup.unit@ == unit_at(ix as int),
            backup ==> *final(self) == (SettingsPanel {
                local: AppSettings {
                    auto_backup: ScheduleConfig { unit: final(self).local.auto_backup.unit, ..old(self).local.auto_backup },
                    ..old(self).local
                },
                ..*old(self)
            }),
            !backup ==> final(self).local.auto_restore.unit@ == unit_at(ix as int),
            !backup ==> *final(self) == (SettingsPanel {
                local: AppSettings {
                    auto_restore: ScheduleConfig { unit: final(self).local.auto_restore.unit, ..old(self).local.auto_restore },
                    ..old(self).local
                },
                ..*old(self)
            }),
    {
        let unit = if ix == 1 {
            string_of("hour")
        } else if ix == 2 {
            string_of("day")
        } else {
            string_of("minute")
        };
        if backup {
            self.local.auto_backup.unit = unit;
        } else {
            self.local.auto_restore.unit = unit;
        }
    }

    /// Starts the connection test: marks it busy and returns the trimmed
    /// address, the user and the password to test with.
    pub fn start_sync_test(&mut self) -> (r: (String, String, String))
        ensures
            *final(self) == (SettingsPanel { sync_test: TransferState::Busy, ..*old(self) }),
            r.0@ == trim_seq(old(self).local.cloud_sync.webdav_url@),
            r.1@ == old(self).local.cloud_sync.webdav_username@,
            r.2@ == old(self).local.cloud_sync.webdav_password@,
    {
        self.sync_test = TransferState::Busy;
        (
            trim(self.local.cloud_sync.webdav_url.as_str()),
            string_of(self.local.cloud_sync.webdav_username.as_str()),
            string_of(self.local.cloud_sync.webdav_password.as_str()),
        )
    }

    /// The connection test finished.
    pub fn finish_sync_test(&mut self, result: Result<String, String>)
        ensures
            match result {
                Ok(m) => final(self).sync_test == TransferState::Done(m),
                Err(e) => final(self).sync_test == TransferState::Failed(e),
            },
            *final(self) == (SettingsPanel { sync_test: final(self).sync_test, ..*old(self) }),
    {
        self.sync_test = transfer_from(result);
    }

    /// The caption of the test button.
    pub fn test_button_label(&self) -> (r: &'static str)
        ensures
            self.sync_test is Busy ==> r@ == "测试中…"@,
            !(self.sync_test is Busy) ==> r@ == "测试连接"@,
    {
        match self.sync_test {
            TransferState::Busy => "测试中…",
            _ => "测试连接",
        }
    }

    /// Clears all data after confirmation: the application loses its todos
    /// and labels; the dialog's copy of the settings loses its labels and
    /// keeps the theme, the shortcut and the other preferences, and the
    /// dialog returns to its first section.
    pub fn clear_data(&mut self, app: &mut DoitApp)
        ensures
            is_cleared(*final(app), *old(app)),
            final(self).local.tags@.len() == 0,
            final(self).local.categories@.len() == 0,
            *final(self) == (SettingsPanel {
                local: AppSettings {
                    tags: final(self).local.tags,
                    categories: final(self).local.categories,
                    default_category_id: None,
                    ..old(self).local
                },
                active: Section::Appearance,
                recording: false,
                ..*old(self)
            }),
    {
        app.clear_all();
        self.local.tags = Vec::new();
        self.local.categories = Vec::new();
        self.local.default_category_id = None;
        self.active = Section::Appearance;
        self.recording = false;
    }
}

/// The message names an untrusted server certificate.
pub open spec fn cert_failure_text(msg: Seq<char>) -> bool {
    has_sub(msg, "证书"@) || has_sub(msg, "UnknownIssuer"@) || has_sub(msg, "invalid peer"@)
}

/// The state is a failure naming an untrusted server certificate.
pub open spec fn cert_failure(t: TransferState) -> bool {
    match t {
        TransferState::Failed(msg) => cert_failure_text(msg@),
        _ => false,
    }
}

/// Whether the test failed on an untrusted server certificate, so that
/// "trust and retry" is offered.
pub fn is_cert_error(state: &TransferState) -> (r: bool)
    ensures
        r == cert_failure(*state),
{
    match state {
        TransferState::Failed(msg) => contains_str(msg.as_str(), "证书") || contains_str(
            msg.as_str(),
            "UnknownIssuer",
        ) || contains_str(msg.as_str(), "invalid peer"),
        _ => false,
    }
}

/// The status line under the test button.
pub open spec fn sync_state_line(t: TransferState) -> Seq<char> {
    match t {
        TransferState::Idle => "填写后点击「测试连接」验证地址与凭据。"@,
        TransferState::Busy => "正在请求…"@,
        TransferState::Done(m) => m@,
        TransferState::Failed(m) => m@,
    }
}

/// The status line under the test button.
pub fn sync_state_text(state: &TransferState) -> (r: String)
    ensures
        r@ == sync_state_line(*state),
{
    match state {
        TransferState::Idle => string_of("填写后点击「测试连接」验证地址与凭据。"),
        TransferState::Busy => string_of("正在请求…"),
        TransferState::Done(m) => string_of(m.as_str()),
        TransferState::Failed(m) => string_of(m.as_str()),
    }
}

/// The key press a configured shortcut describes (to show it as keys).
pub fn shortcut_keystroke(sc: &ShortcutConfig) -> (r: KeyPress)
    ensures
        r.key@ == sc.key@,
        r.ctrl == sc.ctrl,
        r.shift == sc.shift,
        r.alt == sc.alt,
        r.platform == sc.meta,
{
    KeyPress { key: string_of(sc.key.as_str()), ctrl: sc.ctrl, shift: sc.shift, alt: sc.alt, platform: sc.meta }
}

} // verus!
