use echotrans::config::{
    backup_path, prefixed, temp_path, AppConfig, LoadEvent, LoadNext, LoadProcess, LoadStep,
    SaveAction, SaveProcess, SaveStep, BLANK_API_BASE, BLANK_API_KEY, BLANK_MODEL,
    BLANK_SYSTEM_PROMPT, DEFAULT_SYSTEM_PROMPT, DEFAULT_TEMPERATURE_BITS, NO_CONFIG_DIR,
};

fn filled() -> AppConfig {
    let mut c = AppConfig::default();
    c.api_base = "https://api.openai.com/v1".to_string();
    c.api_key = "sk-test".to_string();
    c.model = "gpt-4o-mini".to_string();
    c
}

#[test]
fn default_config_values() {
    let c = AppConfig::default();
    assert_eq!(c.api_base, "");
    assert_eq!(c.api_key, "");
    assert_eq!(c.model, "");
    assert_eq!(c.system_prompt, DEFAULT_SYSTEM_PROMPT);
    assert_eq!(f32::from_bits(c.temperature_bits), 0.3f32);
    assert_eq!(c.temperature_bits, DEFAULT_TEMPERATURE_BITS);
    assert!(c.enable_machine);
    assert_eq!(c.theme, "light");
    assert_eq!(c.snip_hotkey, "Alt+W");
    assert!(c.needs_setup());
}

#[test]
fn validate_for_save_reports_first_blank_field() {
    assert_eq!(AppConfig::default().validate_for_save(), Err(BLANK_API_BASE.to_string()));
    let mut c = filled();
    assert_eq!(c.validate_for_save(), Ok(()));
    assert!(!c.needs_setup());
    c.model = "  ".to_string();
    assert_eq!(c.validate_for_save(), Err(BLANK_MODEL.to_string()));
    c.api_key = "\t".to_string();
    assert_eq!(c.validate_for_save(), Err(BLANK_API_KEY.to_string()));
    let mut d = filled();
    d.system_prompt = "\n".to_string();
    assert_eq!(d.validate_for_save(), Err(BLANK_SYSTEM_PROMPT.to_string()));
}

#[test]
fn backup_and_temp_sit_beside_the_config() {
    assert_eq!(backup_path("/home/u/.config/app/config.json"), "/home/u/.config/app/config.json.bak");
    assert_eq!(temp_path("/home/u/.config/app/config.json"), "/home/u/.config/app/config.json.tmp");
    assert_eq!(backup_path("config.json"), "config.json.bak");
}

#[test]
fn prefixed_joins() {
    assert_eq!(prefixed("a：", "b"), "a：b");
}

fn step_is(a: &SaveAction, s: SaveStep) -> bool {
    matches!(a, SaveAction::Perform(t) if *t == s)
}

#[test]
fn save_happy_path_with_existing_readable_file() {
    let (mut p, a) = SaveProcess::begin(&filled(), true);
    assert!(step_is(&a, SaveStep::CreateDir));
    let order = [
        SaveStep::Serialize,
        SaveStep::WriteTemp,
        SaveStep::CheckTemp,
        SaveStep::ConfirmExisting,
        SaveStep::ConfirmExistingParses,
        SaveStep::BackupExisting,
        SaveStep::RemoveExisting,
        SaveStep::RenameTemp,
    ];
    for s in order {
        let a = p.step(Ok(()));
        assert!(step_is(&a, s), "expected {:?}, got {:?}", s, a);
    }
    assert!(matches!(p.step(Ok(())), SaveAction::Finish(Ok(()))));
    assert!(matches!(p.step(Ok(())), SaveAction::Finish(Ok(()))));
}

#[test]
fn save_without_existing_file_renames_directly() {
    let (mut p, _) = SaveProcess::begin(&filled(), true);
    for _ in 0..4 {
        p.step(Ok(()));
    }
    assert!(step_is(&p.step(Err(String::new())), SaveStep::RenameTemp));
    assert!(matches!(p.step(Ok(())), SaveAction::Finish(Ok(()))));
}

#[test]
fn unreadable_old_file_is_removed_without_backup() {
    let (mut p, _) = SaveProcess::begin(&filled(), true);
    for _ in 0..5 {
        p.step(Ok(()));
    }
    assert!(step_is(&p.step(Err(String::new())), SaveStep::RemoveExisting));
}

#[test]
fn refused_config_touches_nothing() {
    let (_, a) = SaveProcess::begin(&AppConfig::default(), true);
    match a {
        SaveAction::Finish(Err(m)) => assert_eq!(m, BLANK_API_BASE),
        other => panic!("unexpected {:?}", other),
    }
    let (_, b) = SaveProcess::begin(&filled(), false);
    match b {
        SaveAction::Finish(Err(m)) => assert_eq!(m, NO_CONFIG_DIR),
        other => panic!("unexpected {:?}", other),
    }
}

#[test]
fn save_failures_carry_their_messages() {
    let (mut p, _) = SaveProcess::begin(&filled(), true);
    match p.step(Err("denied".to_string())) {
        SaveAction::Finish(Err(m)) => assert_eq!(m, "创建配置目录失败：denied"),
        other => panic!("unexpected {:?}", other),
    }
    let (mut q, _) = SaveProcess::begin(&filled(), true);
    q.step(Ok(()));
    match q.step(Err("bad json".to_string())) {
        SaveAction::Finish(Err(m)) => assert_eq!(m, "bad json"),
        other => panic!("unexpected {:?}", other),
    }
    let (mut r, _) = SaveProcess::begin(&filled(), true);
    r.step(Ok(()));
    r.step(Ok(()));
    match r.step(Err("disk full".to_string())) {
        SaveAction::Finish(Err(m)) => assert_eq!(m, "写入临时配置失败：disk full"),
        other => panic!("unexpected {:?}", other),
    }
    let (mut b, _) = SaveProcess::begin(&filled(), true);
    for _ in 0..6 {
        b.step(Ok(()));
    }
    match b.step(Err("no space".to_string())) {
        SaveAction::Finish(Err(m)) => assert_eq!(m, "备份旧配置失败：no space"),
        other => panic!("unexpected {:?}", other),
    }
    let (mut d, _) = SaveProcess::begin(&filled(), true);
    for _ in 0..7 {
        d.step(Ok(()));
    }
    match d.step(Err("busy".to_string())) {
        SaveAction::Finish(Err(m)) => assert_eq!(m, "替换配置前移除旧文件失败：busy"),
        other => panic!("unexpected {:?}", other),
    }
}

#[test]
fn failed_rename_restores_backup() {
    let (mut p, _) = SaveProcess::begin(&filled(), true);
    for _ in 0..8 {
        p.step(Ok(()));
    }
    assert!(step_is(&p.step(Err("locked".to_string())), SaveStep::ConfirmRestorable));
    assert!(step_is(&p.step(Ok(())), SaveStep::RestoreBackup));
    match p.step(Err("ignored".to_string())) {
        SaveAction::Finish(Err(m)) => assert_eq!(m, "替换配置文件失败：locked"),
        other => panic!("unexpected {:?}", other),
    }
    let (mut q, _) = SaveProcess::begin(&filled(), true);
    for _ in 0..8 {
        q.step(Ok(()));
    }
    q.step(Err("locked".to_string()));
    match q.step(Err(String::new())) {
        SaveAction::Finish(Err(m)) => assert_eq!(m, "替换配置文件失败：locked"),
        other => panic!("unexpected {:?}", other),
    }
}

fn cont(n: LoadNext, want: LoadStep) -> LoadProcess {
    match n {
        LoadNext::Continue(p, s) => {
            assert_eq!(s, want);
            p
        },
        LoadNext::Finish(r) => panic!("finished early: {:?}", r),
    }
}

#[test]
fn load_missing_file_gives_defaults() {
    let p = cont(LoadProcess::begin(true), LoadStep::ConfirmFile);
    match p.advance(LoadEvent::Found(false)) {
        LoadNext::Finish(Ok(c)) => {
            assert_eq!(c.snip_hotkey, "Alt+W");
            assert_eq!(c.system_prompt, DEFAULT_SYSTEM_PROMPT);
        },
        _ => panic!("expected defaults"),
    }
    match LoadProcess::begin(false) {
        LoadNext::Finish(Err(m)) => assert_eq!(m, NO_CONFIG_DIR),
        _ => panic!("expected error"),
    }
}

#[test]
fn load_reads_file_then_backup() {
    let p = cont(LoadProcess::begin(true), LoadStep::ConfirmFile);
    let p = cont(p.advance(LoadEvent::Found(true)), LoadStep::ReadFile);
    match p.advance(LoadEvent::Read(Ok(filled()))) {
        LoadNext::Finish(Ok(c)) => assert_eq!(c.model, "gpt-4o-mini"),
        _ => panic!("expected config"),
    }
    let p = cont(LoadProcess::begin(true), LoadStep::ConfirmFile);
    let p = cont(p.advance(LoadEvent::Found(true)), LoadStep::ReadFile);
    let p = cont(p.advance(LoadEvent::Read(Err("broken".to_string()))), LoadStep::ConfirmBackup);
    let p = cont(p.advance(LoadEvent::Found(true)), LoadStep::ReadBackup);
    match p.advance(LoadEvent::Read(Ok(filled()))) {
        LoadNext::Finish(Ok(c)) => assert_eq!(c.api_key, "sk-test"),
        _ => panic!("expected backup config"),
    }
}

#[test]
fn load_errors_combine() {
    let p = cont(LoadProcess::begin(true), LoadStep::ConfirmFile);
    let p = cont(p.advance(LoadEvent::Found(true)), LoadStep::ReadFile);
    let p = cont(p.advance(LoadEvent::Read(Err("A".to_string()))), LoadStep::ConfirmBackup);
    let q = cont(p.advance(LoadEvent::Read(Ok(filled()))), LoadStep::ConfirmBackup);
    let r = cont(q.advance(LoadEvent::Found(true)), LoadStep::ReadBackup);
    match r.advance(LoadEvent::Read(Err("B".to_string()))) {
        LoadNext::Finish(Err(m)) => assert_eq!(m, "A；备份配置也无法恢复：B"),
        _ => panic!("expected error"),
    }
    let p = cont(LoadProcess::begin(true), LoadStep::ConfirmFile);
    let p = cont(p.advance(LoadEvent::Found(true)), LoadStep::ReadFile);
    let p = cont(p.advance(LoadEvent::Read(Err("A".to_string()))), LoadStep::ConfirmBackup);
    match p.advance(LoadEvent::Found(false)) {
        LoadNext::Finish(Err(m)) => assert_eq!(m, "A"),
        _ => panic!("expected error"),
    }
}

#[test]
fn read_and_parse_error_texts() {
    assert_eq!(
        echotrans::config::read_error("/c/config.json", "denied"),
        "读取配置文件失败：/c/config.json：denied"
    );
    assert_eq!(
        echotrans::config::parse_error("/c/config.json", "EOF"),
        "解析配置文件失败：/c/config.json：EOF"
    );
}
