//! The application configuration, the rules a configuration must meet before
//! it is saved, and the save and load protocols for the configuration file.
use vstd::prelude::*;

use crate::text::{all_whitespace, blank, is_blank, lemma_blank_is_all_whitespace};

verus! {

/// The system prompt offered by default: translate mainly-Chinese text to
/// English and everything else to Simplified Chinese.
pub const DEFAULT_SYSTEM_PROMPT: &'static str = "你是翻译引擎：中文为主的文本译为英文，其余译为简体中文。单词和短语也必须翻译，单词需给出词性与常用义项（如 check → n. 检查 v. 核对）。只输出译文，不要解释，保留原文换行与格式。";

/// The default sampling temperature, 0.3, as the bits of an IEEE-754 `f32`.
pub const DEFAULT_TEMPERATURE_BITS: u32 = 0x3e99_999a;

/// The user's settings.
#[derive(Debug, Clone)]
pub struct AppConfig {
    /// Base URL of an OpenAI-compatible API.
    pub api_base: String,
    pub api_key: String,
    pub model: String,
    pub system_prompt: String,
    /// The sampling temperature, kept as the bits of its `f32` value.
    pub temperature_bits: u32,
    /// Whether the free machine translation runs beside the AI translation.
    pub enable_machine: bool,
    /// Interface theme: "system", "dark" or "light".
    pub theme: String,
    /// Screenshot hotkey such as "Alt+W"; blank disables it.
    pub snip_hotkey: String,
}

impl Default for AppConfig {
    fn default() -> (c: Self)
        ensures
            c.api_base@ == Seq::<char>::empty(),
            c.api_key@ == Seq::<char>::empty(),
            c.model@ == Seq::<char>::empty(),
            c.system_prompt@ == DEFAULT_SYSTEM_PROMPT@,
            c.temperature_bits == DEFAULT_TEMPERATURE_BITS,
            c.enable_machine,
            c.theme@ == "light"@,
            c.snip_hotkey@ == "Alt+W"@,
    {
        AppConfig {
            api_base: String::new(),
            api_key: String::new(),
            model: String::new(),
            system_prompt: String::from_str(DEFAULT_SYSTEM_PROMPT),
            temperature_bits: DEFAULT_TEMPERATURE_BITS,
            enable_machine: true,
            theme: String::from_str("light"),
            snip_hotkey: String::from_str("Alt+W"),
        }
    }
}

/// Refusal when the API address is blank.
pub const BLANK_API_BASE: &'static str = "接口地址不能为空，已取消保存以避免覆盖现有配置";

/// Refusal when the API key is blank.
pub const BLANK_API_KEY: &'static str = "API Key 不能为空，已取消保存以避免覆盖现有配置";

/// Refusal when the model is blank.
pub const BLANK_MODEL: &'static str = "模型不能为空，已取消保存以避免覆盖现有配置";

/// Refusal when the system prompt is blank.
pub const BLANK_SYSTEM_PROMPT: &'static str = "系统提示词不能为空，已取消保存以避免覆盖现有配置";

/// Why `c` may not be saved (the first blank required field), if it may not.
pub open spec fn save_refusal(c: AppConfig) -> Option<Seq<char>> {
    if is_blank(c.api_base@) {
        Some(BLANK_API_BASE@)
    } else if is_blank(c.api_key@) {
        Some(BLANK_API_KEY@)
    } else if is_blank(c.model@) {
        Some(BLANK_MODEL@)
    } else if is_blank(c.system_prompt@) {
        Some(BLANK_SYSTEM_PROMPT@)
    } else {
        None
    }
}

/// A required field that holds nothing but whitespace (or nothing at all) is
/// refused like an empty one, the fields checked in the order address, key,
/// model, system prompt; a configuration whose four required fields each hold
/// a character other than whitespace may be saved.
pub proof fn lemma_whitespace_fields_refused(c: AppConfig)
    ensures
        all_whitespace(c.api_base@) ==> save_refusal(c) == Some(BLANK_API_BASE@),
        !all_whitespace(c.api_base@) && all_whitespace(c.api_key@) ==> save_refusal(c) == Some(
            BLANK_API_KEY@,
        ),
        !all_whitespace(c.api_base@) && !all_whitespace(c.api_key@) && all_whitespace(c.model@)
            ==> save_refusal(c) == Some(BLANK_MODEL@),
        !all_whitespace(c.api_base@) && !all_whitespace(c.api_key@) && !all_whitespace(c.model@)
            && all_whitespace(c.system_prompt@) ==> save_refusal(c) == Some(BLANK_SYSTEM_PROMPT@),
        !all_whitespace(c.api_base@) && !all_whitespace(c.api_key@) && !all_whitespace(c.model@)
            && !all_whitespace(c.system_prompt@) ==> save_refusal(c) is None,
{
    lemma_blank_is_all_whitespace(c.api_base@);
    lemma_blank_is_all_whitespace(c.api_key@);
    lemma_blank_is_all_whitespace(c.model@);
    lemma_blank_is_all_whitespace(c.system_prompt@);
}

impl AppConfig {
    /// Checks that the address, key, model and system prompt are all filled in,
    /// so that saving never overwrites a working configuration with a broken one.
    pub fn validate_for_save(&self) -> (r: Result<(), String>)
        ensures
            match save_refusal(*self) {
                None => r is Ok,
                Some(m) => r is Err && r->Err_0@ == m,
            },
    {
        if blank(self.api_base.as_str()) {
            return Err(String::from_str(BLANK_API_BASE));
        }
        if blank(self.api_key.as_str()) {
            return Err(String::from_str(BLANK_API_KEY));
        }
        if blank(self.model.as_str()) {
            return Err(String::from_str(BLANK_MODEL));
        }
        if blank(self.system_prompt.as_str()) {
            return Err(String::from_str(BLANK_SYSTEM_PROMPT));
        }
        Ok(())
    }

    /// Whether the settings page must be shown at start-up: no API key yet.
    pub fn needs_setup(&self) -> (r: bool)
        ensures
            r == is_blank(self.api_key@),
    {
        blank(self.api_key.as_str())
    }
}

/// What `Path::with_file_name` gives for `path` and `name`, as text.
pub uninterp spec fn path_with_file_name(path: Seq<char>, name: Seq<char>) -> Seq<char>;

/// Calls `std::path::Path::with_file_name`: the path of a file named `name` in
/// the directory of `path`. The result is taken to be `path_with_file_name(path, name)`;
/// how the last component is found is not restated here. Both inputs are UTF-8,
/// so the conversion back to text loses nothing.
#[verifier::external_body]
fn with_file_name(path: &str, name: &str) -> (r: String)
    ensures
        r@ == path_with_file_name(path@, name@),
{
    std::path::Path::new(path).with_file_name(name).to_string_lossy().into_owned()
}

/// Name of the copy kept of the last good configuration.
pub const BACKUP_FILE_NAME: &'static str = "config.json.bak";

/// Name of the file a new configuration is first written to.
pub const TEMP_FILE_NAME: &'static str = "config.json.tmp";

/// The backup file beside the configuration file at `path`.
pub fn backup_path(path: &str) -> (r: String)
    ensures
        r@ == path_with_file_name(path@, BACKUP_FILE_NAME@),
{
    with_file_name(path, BACKUP_FILE_NAME)
}

/// The temporary file beside the configuration file at `path`.
pub fn temp_path(path: &str) -> (r: String)
    ensures
        r@ == path_with_file_name(path@, TEMP_FILE_NAME@),
{
    with_file_name(path, TEMP_FILE_NAME)
}


/// `prefix` followed by `detail`.
pub fn prefixed(prefix: &str, detail: &str) -> (r: String)
    ensures
        r@ == prefix@ + detail@,
{
    let mut r = String::from_str(prefix);
    r.append(detail);
    r
}

/// The error when the file at `path` cannot be read.
pub fn read_error(path: &str, err: &str) -> (r: String)
    ensures
        r@ == "读取配置文件失败："@ + path@ + "："@ + err@,
{
    let mut r = String::from_str("读取配置文件失败：");
    r.append(path);
    r.append("：");
    r.append(err);
    r
}

/// The error when the file at `path` is not a valid configuration.
pub fn parse_error(path: &str, err: &str) -> (r: String)
    ensures
        r@ == "解析配置文件失败："@ + path@ + "："@ + err@,
{
    let mut r = String::from_str("解析配置文件失败：");
    r.append(path);
    r.append("：");
    r.append(err);
    r
}

/// Message when the configuration directory cannot be determined.
pub const NO_CONFIG_DIR: &'static str = "无法获取配置目录";

/// Where the save protocol stands.
#[derive(Debug, Clone, Copy, PartialEq, Eq, Structural)]
pub enum SaveStage {
    CreatingDir,
    Serializing,
    WritingTemp,
    CheckingTemp,
    FindingExisting,
    CheckingExisting,
    BackingUp,
    Removing,
    Renaming,
    FindingRestorable,
    Restoring,
    Saved,
    Failed,
}

/// An operation that the save protocol asks the caller to perform and then
/// report on: `Ok(())` when it succeeded (for a question: when the answer is
/// yes), else `Err` with the error's text (any text for a "no").
#[derive(Debug, Clone, Copy, PartialEq, Eq, Structural)]
pub enum SaveStep {
    /// Create the directory that holds the configuration file.
    CreateDir,
    /// Serialize the configuration as pretty-printed JSON.
    Serialize,
    /// Write the serialized text to the temporary file.
    WriteTemp,
    /// Read back and parse the temporary file (`Err` carries the read error).
    CheckTemp,
    /// Question: does the configuration file exist?
    ConfirmExisting,
    /// Question: does the existing configuration file parse?
    ConfirmExistingParses,
    /// Copy the existing configuration file to the backup file.
    BackupExisting,
    /// Remove the existing configuration file.
    RemoveExisting,
    /// Rename the temporary file to the configuration file.
    RenameTemp,
    /// Question: does the backup exist while the configuration file is missing?
    ConfirmRestorable,
    /// Copy the backup file to the configuration file (its result is ignored).
    RestoreBackup,
}

/// What the save protocol wants next.
#[derive(Debug)]
pub enum SaveAction {
    Perform(SaveStep),
    /// The save is over, with this result.
    Finish(Result<(), String>),
}

/// The stage after the pending operation of `s` succeeded (`ok`) or failed.
pub open spec fn save_next(s: SaveStage, ok: bool) -> SaveStage {
    match s {
        SaveStage::CreatingDir => if ok { SaveStage::Serializing } else { SaveStage::Failed },
        SaveStage::Serializing => if ok { SaveStage::WritingTemp } else { SaveStage::Failed },
        SaveStage::WritingTemp => if ok { SaveStage::CheckingTemp } else { SaveStage::Failed },
        SaveStage::CheckingTemp => if ok { SaveStage::FindingExisting } else { SaveStage::Failed },
        SaveStage::FindingExisting => if ok { SaveStage::CheckingExisting } else { SaveStage::Renaming },
        SaveStage::CheckingExisting => if ok { SaveStage::BackingUp } else { SaveStage::Removing },
        SaveStage::BackingUp => if ok { SaveStage::Removing } else { SaveStage::Failed },
        SaveStage::Removing => if ok { SaveStage::Renaming } else { SaveStage::Failed },
        SaveStage::Renaming => if ok { SaveStage::Saved } else { SaveStage::FindingRestorable },
        SaveStage::FindingRestorable => if ok { SaveStage::Restoring } else { SaveStage::Failed },
        SaveStage::Restoring => SaveStage::Failed,
        SaveStage::Saved => SaveStage::Saved,
        SaveStage::Failed => SaveStage::Failed,
    }
}

/// The operation pending in stage `s`; none once the save is over.
pub open spec fn save_step_of(s: SaveStage) -> Option<SaveStep> {
    match s {
        SaveStage::CreatingDir => Some(SaveStep::CreateDir),
        SaveStage::Serializing => Some(SaveStep::Serialize),
        SaveStage::WritingTemp => Some(SaveStep::WriteTemp),
        SaveStage::CheckingTemp => Some(SaveStep::CheckTemp),
        SaveStage::FindingExisting => Some(SaveStep::ConfirmExisting),
        SaveStage::CheckingExisting => Some(SaveStep::ConfirmExistingParses),
        SaveStage::BackingUp => Some(SaveStep::BackupExisting),
        SaveStage::Removing => Some(SaveStep::RemoveExisting),
        SaveStage::Renaming => Some(SaveStep::RenameTemp),
        SaveStage::FindingRestorable => Some(SaveStep::ConfirmRestorable),
        SaveStage::Restoring => Some(SaveStep::RestoreBackup),
        SaveStage::Saved => None,
        SaveStage::Failed => None,
    }
}

/// The error a save ends with when the operation pending in `s` fails with
/// text `err`; `pending` is the rename error kept while the backup is restored.
pub open spec fn save_failure_text(s: SaveStage, err: Seq<char>, pending: Seq<char>) -> Seq<char> {
    match s {
        SaveStage::CreatingDir => "创建配置目录失败："@ + err,
        SaveStage::WritingTemp => "写入临时配置失败："@ + err,
        SaveStage::BackingUp => "备份旧配置失败："@ + err,
        SaveStage::Removing => "替换配置前移除旧文件失败："@ + err,
        SaveStage::FindingRestorable => "替换配置文件失败："@ + pending,
        SaveStage::Restoring => "替换配置文件失败："@ + pending,
        _ => err,
    }
}

/// The text of an error outcome, empty for success.
pub open spec fn outcome_text(o: Result<(), String>) -> Seq<char> {
    match o {
        Ok(_) => Seq::<char>::empty(),
        Err(e) => e@,
    }
}

/// What the protocol asks for in stage `s`, with `note` the final error text.
pub open spec fn save_action_is(s: SaveStage, note: Seq<char>, a: SaveAction) -> bool {
    match save_step_of(s) {
        Some(st) => a == SaveAction::Perform(st),
        None => if s == SaveStage::Saved {
            a matches SaveAction::Finish(Ok(_))
        } else {
            a matches SaveAction::Finish(Err(m)) && m@ == note
        },
    }
}

/// The stage reached from `s` after the outcomes `oks` (success or failure) in turn.
pub open spec fn save_run(s: SaveStage, oks: Seq<bool>) -> SaveStage
    decreases oks.len(),
{
    if oks.len() == 0 {
        s
    } else {
        save_next(save_run(s, oks.drop_last()), oks.last())
    }
}

/// Stages that come only after the temporary file was written and read back.
pub open spec fn temp_confirmed(s: SaveStage) -> bool {
    match s {
        SaveStage::FindingExisting | SaveStage::CheckingExisting | SaveStage::BackingUp
        | SaveStage::Removing | SaveStage::Renaming | SaveStage::FindingRestorable
        | SaveStage::Restoring | SaveStage::Saved => true,
        _ => false,
    }
}

/// How far along the protocol a stage is.
pub open spec fn save_rank(s: SaveStage) -> nat {
    match s {
        SaveStage::CreatingDir => 0,
        SaveStage::Serializing => 1,
        SaveStage::WritingTemp => 2,
        SaveStage::CheckingTemp => 3,
        SaveStage::FindingExisting => 4,
        SaveStage::CheckingExisting => 5,
        SaveStage::BackingUp => 6,
        SaveStage::Removing => 7,
        SaveStage::Renaming => 8,
        SaveStage::FindingRestorable => 9,
        SaveStage::Restoring => 10,
        SaveStage::Saved => 11,
        SaveStage::Failed => 11,
    }
}

/// The old configuration file is removed, the new one renamed into place, and
/// the save reported a success only after the temporary file was written and
/// read back: in every run of the protocol that reaches such a stage, some
/// earlier report confirmed the temporary file.
pub proof fn lemma_replace_only_after_check(oks: Seq<bool>)
    ensures
        temp_confirmed(save_run(SaveStage::CreatingDir, oks)) ==> exists|i: int|
            0 <= i < oks.len() && save_run(SaveStage::CreatingDir, #[trigger] oks.take(i))
                == SaveStage::CheckingTemp && oks[i],
    decreases oks.len(),
{
    if oks.len() > 0 {
        let n = oks.len() - 1;
        let prev = oks.drop_last();
        lemma_replace_only_after_check(prev);
        if temp_confirmed(save_run(SaveStage::CreatingDir, oks)) {
            if temp_confirmed(save_run(SaveStage::CreatingDir, prev)) {
                let i = choose|i: int|
                    0 <= i < prev.len() && save_run(SaveStage::CreatingDir, #[trigger] prev.take(i))
                        == SaveStage::CheckingTemp && prev[i];
                assert(prev.take(i) =~= oks.take(i));
            } else {
                assert(oks.take(n) =~= prev);
            }
        }
    }
}

/// A readable old configuration file is removed only after its backup copy
/// succeeded; an unreadable one is removed without a backup.
pub proof fn lemma_remove_after_backup(s: SaveStage, ok: bool)
    ensures
        save_next(s, ok) == SaveStage::Removing <==> (s == SaveStage::BackingUp && ok) || (s
            == SaveStage::CheckingExisting && !ok),
{
}

/// A save is reported successful only right after the rename succeeded.
pub proof fn lemma_saved_after_rename(s: SaveStage, ok: bool)
    ensures
        save_next(s, ok) == SaveStage::Saved && s != SaveStage::Saved ==> s == SaveStage::Renaming
            && ok,
{
}

/// Every save is over after at most eleven reports.
pub proof fn lemma_save_ends(oks: Seq<bool>)
    requires
        oks.len() >= 11,
    ensures
        save_run(SaveStage::CreatingDir, oks) == SaveStage::Saved || save_run(
            SaveStage::CreatingDir,
            oks,
        ) == SaveStage::Failed,
    decreases oks.len(),
{
    if oks.len() > 11 {
        lemma_save_ends(oks.drop_last());
    } else {
        lemma_save_progress(oks);
    }
}

/// Each report moves an unfinished save forward.
proof fn lemma_save_progress(oks: Seq<bool>)
    requires
        oks.len() <= 11,
    ensures
        save_rank(save_run(SaveStage::CreatingDir, oks)) >= oks.len(),
    decreases oks.len(),
{
    if oks.len() > 0 {
        lemma_save_progress(oks.drop_last());
    }
}

/// A save in progress: writes the new configuration to a temporary file,
/// checks that it reads back, keeps a backup of a readable old file, and only
/// then replaces the old file; when the final rename fails it restores the
/// backup if the configuration file is gone.
pub struct SaveProcess {
    stage: SaveStage,
    note: String,
}

impl SaveProcess {
    /// The stage the save is in.
    pub closed spec fn stage(&self) -> SaveStage {
        self.stage
    }

    /// The rename error while the backup is being restored; the final error
    /// once the save has failed.
    pub closed spec fn note(&self) -> Seq<char> {
        self.note@
    }

    /// Starts saving `config`; `has_path` tells whether the location of the
    /// configuration file is known. A configuration that may not be saved ends
    /// the save at once, before any file is touched.
    pub fn begin(config: &AppConfig, has_path: bool) -> (r: (SaveProcess, SaveAction))
        ensures
            match save_refusal(*config) {
                Some(m) => r.0.stage() == SaveStage::Failed && r.0.note() == m,
                None => if has_path {
                    r.0.stage() == SaveStage::CreatingDir
                } else {
                    r.0.stage() == SaveStage::Failed && r.0.note() == NO_CONFIG_DIR@
                },
            },
            save_action_is(r.0.stage(), r.0.note(), r.1),
    {
        match config.validate_for_save() {
            Err(m) => {
                let a = SaveAction::Finish(Err(m.clone()));
                (SaveProcess { stage: SaveStage::Failed, note: m }, a)
            },
            Ok(()) => if has_path {
                (
                    SaveProcess { stage: SaveStage::CreatingDir, note: String::new() },
                    SaveAction::Perform(SaveStep::CreateDir),
                )
            } else {
                let m = String::from_str(NO_CONFIG_DIR);
                let a = SaveAction::Finish(Err(m.clone()));
                (SaveProcess { stage: SaveStage::Failed, note: m }, a)
            },
        }
    }

    /// Reports the outcome of the pending operation and gets the next one.
    /// Once the save is over, the final result is given again.
    pub fn step(&mut self, outcome: Result<(), String>) -> (a: SaveAction)
        ensures
            final(self).stage() == save_next(old(self).stage(), outcome is Ok),
            old(self).stage() == SaveStage::Renaming && outcome is Err ==> final(self).note()
                == outcome_text(outcome),
            old(self).stage() == SaveStage::FindingRestorable && outcome is Ok ==> final(self).note()
                == old(self).note(),
            old(self).stage() != SaveStage::Failed && old(self).stage() != SaveStage::Saved
                && final(self).stage() == SaveStage::Failed ==> final(self).note()
                == save_failure_text(old(self).stage(), outcome_text(outcome), old(self).note()),
            old(self).stage() == SaveStage::Failed ==> final(self).note() == old(self).note(),
            save_action_is(final(self).stage(), final(self).note(), a),
    {
        let ok = outcome.is_ok();
        let err: String = match outcome {
            Ok(()) => String::new(),
            Err(e) => e,
        };
        let stage = self.stage;
        let next: SaveStage;
        let mut note = String::new();
        match stage {
            SaveStage::CreatingDir => if ok {
                next = SaveStage::Serializing;
            } else {
                next = SaveStage::Failed;
                note = prefixed("创建配置目录失败：", err.as_str());
            },
            SaveStage::Serializing => if ok {
                next = SaveStage::WritingTemp;
            } else {
                next = SaveStage::Failed;
                note = err;
            },
            SaveStage::WritingTemp => if ok {
                next = SaveStage::CheckingTemp;
            } else {
                next = SaveStage::Failed;
                note = prefixed("写入临时配置失败：", err.as_str());
            },
            SaveStage::CheckingTemp => if ok {
                next = SaveStage::FindingExisting;
            } else {
                next = SaveStage::Failed;
                note = err;
            },
            SaveStage::FindingExisting => if ok {
                next = SaveStage::CheckingExisting;
            } else {
                next = SaveStage::Renaming;
            },
            SaveStage::CheckingExisting => if ok {
                next = SaveStage::BackingUp;
            } else {
                next = SaveStage::Removing;
            },
            SaveStage::BackingUp => if ok {
                next = SaveStage::Removing;
            } else {
                next = SaveStage::Failed;
                note = prefixed("备份旧配置失败：", err.as_str());
            },
            SaveStage::Removing => if ok {
                next = SaveStage::Renaming;
            } else {
                next = SaveStage::Failed;
                note = prefixed("替换配置前移除旧文件失败：", err.as_str());
            },
            SaveStage::Renaming => if ok {
                next = SaveStage::Saved;
            } else {
                next = SaveStage::FindingRestorable;
                note = err;
            },
            SaveStage::FindingRestorable => if ok {
                next = SaveStage::Restoring;
                note = self.note.clone();
            } else {
                next = SaveStage::Failed;
                note = prefixed("替换配置文件失败：", self.note.as_str());
            },
            SaveStage::Restoring => {
                next = SaveStage::Failed;
                note = prefixed("替换配置文件失败：", self.note.as_str());
            },
            SaveStage::Saved => {
                next = SaveStage::Saved;
            },
            SaveStage::Failed => {
                next = SaveStage::Failed;
                note = self.note.clone();
            },
        }
        self.stage = next;
        self.note = note;
        match next {
            SaveStage::CreatingDir => SaveAction::Perform(SaveStep::CreateDir),
            SaveStage::Serializing => SaveAction::Perform(SaveStep::Serialize),
            SaveStage::WritingTemp => SaveAction::Perform(SaveStep::WriteTemp),
            SaveStage::CheckingTemp => SaveAction::Perform(SaveStep::CheckTemp),
            SaveStage::FindingExisting => SaveAction::Perform(SaveStep::ConfirmExisting),
            SaveStage::CheckingExisting => SaveAction::Perform(SaveStep::ConfirmExistingParses),
            SaveStage::BackingUp => SaveAction::Perform(SaveStep::BackupExisting),
            SaveStage::Removing => SaveAction::Perform(SaveStep::RemoveExisting),
            SaveStage::Renaming => SaveAction::Perform(SaveStep::RenameTemp),
            SaveStage::FindingRestorable => SaveAction::Perform(SaveStep::ConfirmRestorable),
            SaveStage::Restoring => SaveAction::Perform(SaveStep::RestoreBackup),
            SaveStage::Saved => SaveAction::Finish(Ok(())),
            SaveStage::Failed => SaveAction::Finish(Err(self.note.clone())),
        }
    }
}


/// Where the load protocol stands.
#[derive(Debug, Clone, Copy, PartialEq, Eq, Structural)]
pub enum LoadStage {
    FindingFile,
    ReadingFile,
    FindingBackup,
    ReadingBackup,
}

/// An operation that the load protocol asks the caller to perform.
#[derive(Debug, Clone, Copy, PartialEq, Eq, Structural)]
pub enum LoadStep {
    /// Question: does the configuration file exist? Answer with `Found`.
    ConfirmFile,
    /// Read and parse the configuration file. Answer with `Read`.
    ReadFile,
    /// Question: does the backup file exist? Answer with `Found`.
    ConfirmBackup,
    /// Read and parse the backup file. Answer with `Read`.
    ReadBackup,
}

/// A report to the load protocol.
#[derive(Debug)]
pub enum LoadEvent {
    Found(bool),
    /// The parsed configuration, or the error text of reading or parsing.
    Read(Result<AppConfig, String>),
}

/// A load in progress: a missing file gives the defaults, an unreadable one
/// falls back to the backup file.
#[derive(Debug)]
pub struct LoadProcess {
    stage: LoadStage,
    primary_error: String,
}

/// What the load protocol wants next.
#[derive(Debug)]
pub enum LoadNext {
    Continue(LoadProcess, LoadStep),
    /// The load is over, with this result.
    Finish(Result<AppConfig, String>),
}

/// The operation pending in a load stage.
pub open spec fn load_step_of(s: LoadStage) -> LoadStep {
    match s {
        LoadStage::FindingFile => LoadStep::ConfirmFile,
        LoadStage::ReadingFile => LoadStep::ReadFile,
        LoadStage::FindingBackup => LoadStep::ConfirmBackup,
        LoadStage::ReadingBackup => LoadStep::ReadBackup,
    }
}

/// Text joining the error of the configuration file to that of its backup.
pub const BACKUP_ALSO_FAILED: &'static str = "；备份配置也无法恢复：";

/// Whether `n` continues with stage `s` and error text `e`.
pub open spec fn load_continues(n: LoadNext, s: LoadStage, e: Seq<char>) -> bool {
    n matches LoadNext::Continue(p, st) && p.stage() == s && p.primary_error() == e && st
        == load_step_of(s)
}

/// Whether `n` finishes with an error of text `e`.
pub open spec fn load_fails(n: LoadNext, e: Seq<char>) -> bool {
    n matches LoadNext::Finish(Err(m)) && m@ == e
}

/// Whether `n` finishes with the defaults.
pub open spec fn load_gives_defaults(n: LoadNext) -> bool {
    n matches LoadNext::Finish(Ok(c)) && c.api_base@ == Seq::<char>::empty() && c.api_key@
        == Seq::<char>::empty() && c.model@ == Seq::<char>::empty() && c.system_prompt@
        == DEFAULT_SYSTEM_PROMPT@ && c.temperature_bits == DEFAULT_TEMPERATURE_BITS
        && c.enable_machine && c.theme@ == "light"@ && c.snip_hotkey@ == "Alt+W"@
}

impl LoadProcess {
    /// The stage the load is in.
    pub closed spec fn stage(&self) -> LoadStage {
        self.stage
    }

    /// The error of the configuration file, once it failed to read.
    pub closed spec fn primary_error(&self) -> Seq<char> {
        self.primary_error@
    }

    /// Starts a load; `has_path` tells whether the location of the
    /// configuration file is known.
    pub fn begin(has_path: bool) -> (n: LoadNext)
        ensures
            has_path ==> load_continues(n, LoadStage::FindingFile, Seq::<char>::empty()),
            !has_path ==> load_fails(n, NO_CONFIG_DIR@),
    {
        if has_path {
            LoadNext::Continue(
                LoadProcess { stage: LoadStage::FindingFile, primary_error: String::new() },
                LoadStep::ConfirmFile,
            )
        } else {
            LoadNext::Finish(Err(String::from_str(NO_CONFIG_DIR)))
        }
    }

    /// Reports on the pending operation. A report of the wrong kind leaves the
    /// load where it was and asks again.
    pub fn advance(self, e: LoadEvent) -> (n: LoadNext)
        ensures
            match (self.stage(), e) {
                (LoadStage::FindingFile, LoadEvent::Found(false)) => load_gives_defaults(n),
                (LoadStage::FindingFile, LoadEvent::Found(true)) => load_continues(
                    n,
                    LoadStage::ReadingFile,
                    self.primary_error(),
                ),
                (LoadStage::ReadingFile, LoadEvent::Read(Ok(c))) => n == LoadNext::Finish(
                    Ok::<AppConfig, String>(c),
                ),
                (LoadStage::ReadingFile, LoadEvent::Read(Err(m))) => load_continues(
                    n,
                    LoadStage::FindingBackup,
                    m@,
                ),
                (LoadStage::FindingBackup, LoadEvent::Found(true)) => load_continues(
                    n,
                    LoadStage::ReadingBackup,
                    self.primary_error(),
                ),
                (LoadStage::FindingBackup, LoadEvent::Found(false)) => load_fails(
                    n,
                    self.primary_error(),
                ),
                (LoadStage::ReadingBackup, LoadEvent::Read(Ok(c))) => n == LoadNext::Finish(
                    Ok::<AppConfig, String>(c),
                ),
                (LoadStage::ReadingBackup, LoadEvent::Read(Err(m))) => load_fails(
                    n,
                    self.primary_error() + BACKUP_ALSO_FAILED@ + m@,
                ),
                _ => load_continues(n, self.stage(), self.primary_error()),
            },
    {
        match (self.stage, e) {
            (LoadStage::FindingFile, LoadEvent::Found(false)) => LoadNext::Finish(
                Ok(AppConfig::default()),
            ),
            (LoadStage::FindingFile, LoadEvent::Found(true)) => LoadNext::Continue(
                LoadProcess { stage: LoadStage::ReadingFile, primary_error: self.primary_error },
                LoadStep::ReadFile,
            ),
            (LoadStage::ReadingFile, LoadEvent::Read(Ok(c))) => LoadNext::Finish(Ok(c)),
            (LoadStage::ReadingFile, LoadEvent::Read(Err(m))) => LoadNext::Continue(
                LoadProcess { stage: LoadStage::FindingBackup, primary_error: m },
                LoadStep::ConfirmBackup,
            ),
            (LoadStage::FindingBackup, LoadEvent::Found(true)) => LoadNext::Continue(
                LoadProcess { stage: LoadStage::ReadingBackup, primary_error: self.primary_error },
                LoadStep::ReadBackup,
            ),
            (LoadStage::FindingBackup, LoadEvent::Found(false)) => LoadNext::Finish(
                Err(self.primary_error),
            ),
            (LoadStage::ReadingBackup, LoadEvent::Read(Ok(c))) => LoadNext::Finish(Ok(c)),
            (LoadStage::ReadingBackup, LoadEvent::Read(Err(m))) => {
                let mut msg = self.primary_error;
                msg.append(BACKUP_ALSO_FAILED);
                msg.append(m.as_str());
                LoadNext::Finish(Err(msg))
            },
            (stage, _) => {
                let step = match stage {
                    LoadStage::FindingFile => LoadStep::ConfirmFile,
                    LoadStage::ReadingFile => LoadStep::ReadFile,
                    LoadStage::FindingBackup => LoadStep::ConfirmBackup,
                    LoadStage::ReadingBackup => LoadStep::ReadBackup,
                };
                LoadNext::Continue(LoadProcess { stage, primary_error: self.primary_error }, step)
            },
        }
    }
}

} // verus!
