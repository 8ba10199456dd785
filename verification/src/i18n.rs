//! Bilingual user-facing text.
use vstd::prelude::*;

use crate::config::validation_values;
use crate::text::{append_str, chars_of, replace_all, replaced, string_of};

verus! {

/// Languages supported by the user interface.
#[derive(Debug, Clone, Copy, PartialEq, Eq, Structural)]
pub enum Language {
    English,
    Chinese,
}

/// The language part of a locale: the text before the first `-` or `_`.
pub open spec fn locale_language(locale: Seq<char>) -> Seq<char>
    decreases locale.len(),
{
    if locale.len() == 0 {
        locale
    } else if locale[0] == '-' || locale[0] == '_' {
        Seq::empty()
    } else {
        seq![locale[0]] + locale_language(locale.skip(1))
    }
}

/// Whether `c` is the ASCII letter `lower` in either case.
pub open spec fn ascii_letter_is(c: char, lower: char, upper: char) -> bool {
    c == lower || c == upper
}

/// Whether a language tag reads `zh`, ignoring ASCII case.
pub open spec fn is_zh(t: Seq<char>) -> bool {
    t.len() == 2 && ascii_letter_is(t[0], 'z', 'Z') && ascii_letter_is(t[1], 'h', 'H')
}

impl Language {
    /// Chinese for locales whose language part is `zh` (any ASCII case),
    /// English for all others.
    pub fn from_locale(locale: &str) -> (r: Self)
        ensures
            r == (if is_zh(locale_language(locale@)) {
                Language::Chinese
            } else {
                Language::English
            }),
    {
        let s = chars_of(locale);
        let n = s.len();
        let mut i: usize = 0;
        proof {
            assert(s@.take(0) =~= Seq::<char>::empty());
            assert(s@.skip(0) =~= s@);
        }
        while i < n && s[i] != '-' && s[i] != '_'
            invariant
                i <= n,
                n == s@.len(),
                locale_language(s@) == s@.take(i as int) + locale_language(s@.skip(i as int)),
            decreases n - i,
        {
            assert(s@.skip(i as int).skip(1) =~= s@.skip(i + 1));
            assert(s@.take(i + 1) =~= s@.take(i as int) + seq![s@[i as int]]);
            i = i + 1;
        }
        proof {
            assert(locale_language(s@.skip(i as int)) =~= Seq::<char>::empty());
            assert(locale_language(s@) =~= s@.take(i as int));
        }
        if i == 2 && (s[0] == 'z' || s[0] == 'Z') && (s[1] == 'h' || s[1] == 'H') {
            Language::Chinese
        } else {
            Language::English
        }
    }
}

/// The language for a locale: Chinese for `zh` locales, English otherwise.
pub open spec fn spec_from_locale(locale: Seq<char>) -> Language {
    if is_zh(locale_language(locale)) {
        Language::Chinese
    } else {
        Language::English
    }
}

/// `sys_locale::get_locale`: the system's most preferred locale, when it
/// can be read. It comes from the environment, so nothing is stated of it.
#[verifier::external_body]
fn system_locale() -> (r: Option<String>) {
    sys_locale::get_locale()
}

impl Language {
    /// The language for the locale the system reported, English when it
    /// reported none.
    pub fn for_system_locale(locale: Option<String>) -> (r: Self)
        ensures
            r == match locale {
                Some(l) => spec_from_locale(l@),
                None => Language::English,
            },
    {
        match locale {
            Some(l) => Language::from_locale(l.as_str()),
            None => Language::English,
        }
    }

    /// The language of the system's preferred locale.
    pub fn system_default() -> (r: Self) {
        Language::for_system_locale(system_locale())
    }
}

/// One entry of the bilingual catalog.
#[derive(Debug, Clone, Copy, PartialEq, Eq)]
pub struct TextPair {
    pub english: &'static str,
    pub chinese: &'static str,
}

impl TextPair {
    pub fn new(english: &'static str, chinese: &'static str) -> (r: Self)
        ensures
            r.english == english,
            r.chinese == chinese,
    {
        TextPair { english, chinese }
    }

    pub open spec fn spec_get(self, language: Language) -> &'static str {
        match language {
            Language::English => self.english,
            Language::Chinese => self.chinese,
        }
    }

    /// The text in `language`.
    pub fn get(self, language: Language) -> (r: &'static str)
        ensures
            r == self.spec_get(language),
    {
        match language {
            Language::English => self.english,
            Language::Chinese => self.chinese,
        }
    }
}

/// The catalog entries that the library and its program use.
#[derive(Debug, Clone, Copy, PartialEq, Eq, Structural)]
pub enum Text {
    PhaseOutside,
    PhaseSyncing,
    PhaseLobby,
    PhaseCombat,
    SoundSoft,
    SoundCrisp,
    SoundProminent,
    EmptyCombatReplacement,
    EmptyReportReplacement,
    PresetFallback,
    EverySeconds,
    ConfigVersionUnsupported,
    VolumeInvalid,
    OverlayScaleInvalid,
    StaleTimeInvalid,
    OscAddressInvalid,
    MessagePresetRangeInvalid,
    MessagePresetInvalid,
    MessageTemplateKind,
    ReportPresetRangeInvalid,
    ReportTemplateInvalid,
    ReportPresetInvalid,
    ReportTemplateKind,
    PresetNameEmpty,
    PresetNameTooLong,
    TemplateSyntaxError,
    TemplateUnknownVariable,
    DiagnosticStageDetails,
    DiagnosticBoss,
    DiagnosticBossDefeated,
    DiagnosticOwnership,
    DiagnosticIntermissionMissing,
    DiagnosticCombatMetricsMissing,
    DiagnosticTimestamp,
    DiagnosticValue,
    LogProtocolDegraded,
    LogProtocolDegradedSuffix,
    StatusSearching,
    StatusRecovering,
    StatusLive,
    StatusStale,
    StatusError,
    EnableHeartRateHint,
    HeartRateServerFailed,
    HeartRateNoPort,
    HeartRateConnected,
    HeartRateDisconnected,
    HeartRateWaiting,
    HeartRateVariableOffline,
}

impl Text {
    /// Every catalog entry, each once.
    pub fn all() -> (r: Vec<Text>)
        ensures
            r@.len() == 49,
            forall|k: Text| #[trigger] r@.contains(k),
    {
        let r = vec![
            Text::PhaseOutside,
            Text::PhaseSyncing,
            Text::PhaseLobby,
            Text::PhaseCombat,
            Text::SoundSoft,
            Text::SoundCrisp,
            Text::SoundProminent,
            Text::EmptyCombatReplacement,
            Text::EmptyReportReplacement,
            Text::PresetFallback,
            Text::EverySeconds,
            Text::ConfigVersionUnsupported,
            Text::VolumeInvalid,
            Text::OverlayScaleInvalid,
            Text::StaleTimeInvalid,
            Text::OscAddressInvalid,
            Text::MessagePresetRangeInvalid,
            Text::MessagePresetInvalid,
            Text::MessageTemplateKind,
            Text::ReportPresetRangeInvalid,
            Text::ReportTemplateInvalid,
            Text::ReportPresetInvalid,
            Text::ReportTemplateKind,
            Text::PresetNameEmpty,
            Text::PresetNameTooLong,
            Text::TemplateSyntaxError,
            Text::TemplateUnknownVariable,
            Text::DiagnosticStageDetails,
            Text::DiagnosticBoss,
            Text::DiagnosticBossDefeated,
            Text::DiagnosticOwnership,
            Text::DiagnosticIntermissionMissing,
            Text::DiagnosticCombatMetricsMissing,
            Text::DiagnosticTimestamp,
            Text::DiagnosticValue,
            Text::LogProtocolDegraded,
            Text::LogProtocolDegradedSuffix,
            Text::StatusSearching,
            Text::StatusRecovering,
            Text::StatusLive,
            Text::StatusStale,
            Text::StatusError,
            Text::EnableHeartRateHint,
            Text::HeartRateServerFailed,
            Text::HeartRateNoPort,
            Text::HeartRateConnected,
            Text::HeartRateDisconnected,
            Text::HeartRateWaiting,
            Text::HeartRateVariableOffline,
        ];
        proof {
            assert forall|k: Text| #[trigger] r@.contains(k) by {
                match k {
                    Text::PhaseOutside => assert(r@[0] == k),
                    Text::PhaseSyncing => assert(r@[1] == k),
                    Text::PhaseLobby => assert(r@[2] == k),
                    Text::PhaseCombat => assert(r@[3] == k),
                    Text::SoundSoft => assert(r@[4] == k),
                    Text::SoundCrisp => assert(r@[5] == k),
                    Text::SoundProminent => assert(r@[6] == k),
                    Text::EmptyCombatReplacement => assert(r@[7] == k),
                    Text::EmptyReportReplacement => assert(r@[8] == k),
                    Text::PresetFallback => assert(r@[9] == k),
                    Text::EverySeconds => assert(r@[10] == k),
                    Text::ConfigVersionUnsupported => assert(r@[11] == k),
                    Text::VolumeInvalid => assert(r@[12] == k),
                    Text::OverlayScaleInvalid => assert(r@[13] == k),
                    Text::StaleTimeInvalid => assert(r@[14] == k),
                    Text::OscAddressInvalid => assert(r@[15] == k),
                    Text::MessagePresetRangeInvalid => assert(r@[16] == k),
                    Text::MessagePresetInvalid => assert(r@[17] == k),
                    Text::MessageTemplateKind => assert(r@[18] == k),
                    Text::ReportPresetRangeInvalid => assert(r@[19] == k),
                    Text::ReportTemplateInvalid => assert(r@[20] == k),
                    Text::ReportPresetInvalid => assert(r@[21] == k),
                    Text::ReportTemplateKind => assert(r@[22] == k),
                    Text::PresetNameEmpty => assert(r@[23] == k),
                    Text::PresetNameTooLong => assert(r@[24] == k),
                    Text::TemplateSyntaxError => assert(r@[25] == k),
                    Text::TemplateUnknownVariable => assert(r@[26] == k),
                    Text::DiagnosticStageDetails => assert(r@[27] == k),
                    Text::DiagnosticBoss => assert(r@[28] == k),
                    Text::DiagnosticBossDefeated => assert(r@[29] == k),
                    Text::DiagnosticOwnership => assert(r@[30] == k),
                    Text::DiagnosticIntermissionMissing => assert(r@[31] == k),
                    Text::DiagnosticCombatMetricsMissing => assert(r@[32] == k),
                    Text::DiagnosticTimestamp => assert(r@[33] == k),
                    Text::DiagnosticValue => assert(r@[34] == k),
                    Text::LogProtocolDegraded => assert(r@[35] == k),
                    Text::LogProtocolDegradedSuffix => assert(r@[36] == k),
                    Text::StatusSearching => assert(r@[37] == k),
                    Text::StatusRecovering => assert(r@[38] == k),
                    Text::StatusLive => assert(r@[39] == k),
                    Text::StatusStale => assert(r@[40] == k),
                    Text::StatusError => assert(r@[41] == k),
                    Text::EnableHeartRateHint => assert(r@[42] == k),
                    Text::HeartRateServerFailed => assert(r@[43] == k),
                    Text::HeartRateNoPort => assert(r@[44] == k),
                    Text::HeartRateConnected => assert(r@[45] == k),
                    Text::HeartRateDisconnected => assert(r@[46] == k),
                    Text::HeartRateWaiting => assert(r@[47] == k),
                    Text::HeartRateVariableOffline => assert(r@[48] == k),
                }
            }
        }
        r
    }
}

impl Language {
    /// Both languages, English first.
    pub fn all() -> (r: Vec<Language>)
        ensures
            r@ == seq![Language::English, Language::Chinese],
    {
        let r = vec![Language::English, Language::Chinese];
        assert(r@ =~= seq![Language::English, Language::Chinese]);
        r
    }
}

/// The catalog: English and Chinese text of each entry.
pub open spec fn catalog(key: Text) -> TextPair {
    match key {
        Text::PhaseOutside => TextPair { english: "Outside Ecliptica", chinese: "未进入 Ecliptica" },
        Text::PhaseSyncing => TextPair { english: "Reading current progress", chinese: "正在读取当前进度" },
        Text::PhaseLobby => TextPair { english: "Lobby / Upgrading", chinese: "大厅 / 升级中" },
        Text::PhaseCombat => TextPair { english: "In combat", chinese: "战斗中" },
        Text::SoundSoft => TextPair { english: "Soft", chinese: "柔和" },
        Text::SoundCrisp => TextPair { english: "Crisp", chinese: "清脆" },
        Text::SoundProminent => TextPair { english: "Prominent", chinese: "强提醒" },
        Text::EmptyCombatReplacement => TextPair { english: "【In combat】Waiting for data…", chinese: "【战斗中】等待数据…" },
        Text::EmptyReportReplacement => TextPair { english: "【Round ended】", chinese: "【回合结束】" },
        Text::PresetFallback => TextPair { english: "Preset {index}", chinese: "预设 {index}" },
        Text::EverySeconds => TextPair { english: "Every {seconds} seconds", chinese: "每 {seconds} 秒" },
        Text::ConfigVersionUnsupported => TextPair { english: "These settings were created by a newer app version ({version}); this version supports up to {supported}", chinese: "这些设置来自更新的应用版本（{version}），当前版本最高支持 {supported}" },
        Text::VolumeInvalid => TextPair { english: "Alert volume must be between 0 and 1", chinese: "提示音量必须在 0 到 1 之间" },
        Text::OverlayScaleInvalid => TextPair { english: "Floating window size must be between 0.5× and 3×", chinese: "悬浮窗大小必须在 0.5 到 3 倍之间" },
        Text::StaleTimeInvalid => TextPair { english: "The wait-for-data time must be between 2 and 300 seconds", chinese: "等待数据的时间必须在 2 到 300 秒之间" },
        Text::OscAddressInvalid => TextPair { english: "Invalid OSC address; expected something like 127.0.0.1:9000", chinese: "OSC 地址格式无效，应类似 127.0.0.1:9000" },
        Text::MessagePresetRangeInvalid => TextPair { english: "Message template preset must be between 1 and {count}", chinese: "消息模板预设必须在 1 到 {count} 之间" },
        Text::MessagePresetInvalid => TextPair { english: "Message template preset {index} is invalid", chinese: "消息模板预设 {index} 无效" },
        Text::MessageTemplateKind => TextPair { english: "Message template", chinese: "消息模板" },
        Text::ReportPresetRangeInvalid => TextPair { english: "Round report template preset must be between 1 and {count}", chinese: "回合战报模板预设必须在 1 到 {count} 之间" },
        Text::ReportTemplateInvalid => TextPair { english: "Round report template is invalid", chinese: "回合战报模板无效" },
        Text::ReportPresetInvalid => TextPair { english: "Round report template preset {index} is invalid", chinese: "回合战报模板预设 {index} 无效" },
        Text::ReportTemplateKind => TextPair { english: "Round report template", chinese: "回合战报模板" },
        Text::PresetNameEmpty => TextPair { english: "{kind} preset {index} name cannot be empty", chinese: "{kind}预设 {index} 的名称不能为空" },
        Text::PresetNameTooLong => TextPair { english: "{kind} preset {index} name cannot exceed {max} characters", chinese: "{kind}预设 {index} 的名称不能超过 {max} 个字符" },
        Text::TemplateSyntaxError => TextPair { english: "Message template syntax error", chinese: "消息模板语法错误" },
        Text::TemplateUnknownVariable => TextPair { english: "Message template contains an unknown variable", chinese: "消息模板包含未知变量" },
        Text::DiagnosticStageDetails => TextPair { english: "Stage logs are still recognized, but phase/class details changed; round state is preserved and stage estimation is unavailable", chinese: "阶段日志仍可识别，但 phase/class 详情格式已变化；回合状态保留，阶段估算降级为未知" },
        Text::DiagnosticBoss => TextPair { english: "Boss log format changed; Boss and target information are unavailable", chinese: "Boss 日志格式已变化，Boss/锁定信息已降级为空" },
        Text::DiagnosticBossDefeated => TextPair { english: "Boss-defeat log format changed; target state will wait for a later event to clear", chinese: "Boss 击败日志格式已变化，锁定状态会等待后续事件清理" },
        Text::DiagnosticOwnership => TextPair { english: "Ownership log format changed; Boss Lock is unavailable", chinese: "所有权日志格式已变化，Boss Lock 已降级为空" },
        Text::DiagnosticIntermissionMissing => TextPair { english: "The next stage appeared during combat without an intermission/lobby log; the incomplete previous round was discarded and a new round started safely", chinese: "战斗中直接观察到下一阶段，未观察到 intermission/lobby 日志；上一回合按不完整数据丢弃并安全开始新回合" },
        Text::DiagnosticCombatMetricsMissing => TextPair { english: "No damage dealt or taken logs appeared during the complete stage; values use 0/unknown", chinese: "完整阶段内未观察到输出或承伤日志；数值按 0/未知处理（可能确实无伤害，也可能是游戏停止打印相关日志）" },
        Text::DiagnosticTimestamp => TextPair { english: "A {code} log appeared, but its timestamp format was not recognized; the entry was safely skipped", chinese: "{code} 日志已出现，但时间戳格式无法识别；本条数据已安全跳过" },
        Text::DiagnosticValue => TextPair { english: "The {code} log format or numeric value changed; this entry was treated as missing", chinese: "{code} 日志格式或数值已变化，本条数据按缺失处理" },
        Text::LogProtocolDegraded => TextPair { english: "Log protocol compatibility degraded", chinese: "日志协议兼容性降级" },
        Text::LogProtocolDegradedSuffix => TextPair { english: "The app will continue running; affected fields show 0/unknown", chinese: "软件将继续运行，相关字段显示 0/未知" },
        Text::StatusSearching => TextPair { english: "SEARCHING", chinese: "查找中" },
        Text::StatusRecovering => TextPair { english: "RECOVERING", chinese: "恢复中" },
        Text::StatusLive => TextPair { english: "LIVE", chinese: "正常" },
        Text::StatusStale => TextPair { english: "STALE", chinese: "等待数据" },
        Text::StatusError => TextPair { english: "ERROR", chinese: "错误" },
        Text::EnableHeartRateHint => TextPair { english: "Receive data from vrchat-fast-heart. Turn on “Report to other apps” there, then save these settings.", chinese: "从 vrchat-fast-heart 接收数据。请先在该应用中开启“向其他应用报告（Report to other apps）”，然后保存设置。" },
        Text::HeartRateServerFailed => TextPair { english: "Heart rate couldn't start. Restart the app and try again.", chinese: "心率功能未能启动，请重启应用后重试。" },
        Text::HeartRateNoPort => TextPair { english: "Heart rate is temporarily unavailable. The app will keep trying.", chinese: "心率暂时不可用，应用会继续尝试恢复。" },
        Text::HeartRateConnected => TextPair { english: "Heart rate received", chinese: "已收到心率数据" },
        Text::HeartRateDisconnected => TextPair { english: "Heart rate signal lost. Check your heart-rate app.", chinese: "心率连接已中断，请检查心率应用。" },
        Text::HeartRateWaiting => TextPair { english: "No heart rate received. Check that your heart-rate app is open and sharing data.", chinese: "尚未收到心率，请确认心率应用已打开并允许共享数据。" },
        Text::HeartRateVariableOffline => TextPair { english: "Heart rate isn't available yet. Enable it, save the settings, and make sure your heart-rate app is sharing data.", chinese: "心率暂不可用。请开启心率并保存设置，同时确认心率应用正在共享数据。" },
    }
}

/// The catalog entry for `key`.
pub fn text(key: Text) -> (r: TextPair)
    ensures
        r == catalog(key),
{
    match key {
        Text::PhaseOutside => TextPair { english: "Outside Ecliptica", chinese: "未进入 Ecliptica" },
        Text::PhaseSyncing => TextPair { english: "Reading current progress", chinese: "正在读取当前进度" },
        Text::PhaseLobby => TextPair { english: "Lobby / Upgrading", chinese: "大厅 / 升级中" },
        Text::PhaseCombat => TextPair { english: "In combat", chinese: "战斗中" },
        Text::SoundSoft => TextPair { english: "Soft", chinese: "柔和" },
        Text::SoundCrisp => TextPair { english: "Crisp", chinese: "清脆" },
        Text::SoundProminent => TextPair { english: "Prominent", chinese: "强提醒" },
        Text::EmptyCombatReplacement => TextPair { english: "【In combat】Waiting for data…", chinese: "【战斗中】等待数据…" },
        Text::EmptyReportReplacement => TextPair { english: "【Round ended】", chinese: "【回合结束】" },
        Text::PresetFallback => TextPair { english: "Preset {index}", chinese: "预设 {index}" },
        Text::EverySeconds => TextPair { english: "Every {seconds} seconds", chinese: "每 {seconds} 秒" },
        Text::ConfigVersionUnsupported => TextPair { english: "These settings were created by a newer app version ({version}); this version supports up to {supported}", chinese: "这些设置来自更新的应用版本（{version}），当前版本最高支持 {supported}" },
        Text::VolumeInvalid => TextPair { english: "Alert volume must be between 0 and 1", chinese: "提示音量必须在 0 到 1 之间" },
        Text::OverlayScaleInvalid => TextPair { english: "Floating window size must be between 0.5× and 3×", chinese: "悬浮窗大小必须在 0.5 到 3 倍之间" },
        Text::StaleTimeInvalid => TextPair { english: "The wait-for-data time must be between 2 and 300 seconds", chinese: "等待数据的时间必须在 2 到 300 秒之间" },
        Text::OscAddressInvalid => TextPair { english: "Invalid OSC address; expected something like 127.0.0.1:9000", chinese: "OSC 地址格式无效，应类似 127.0.0.1:9000" },
        Text::MessagePresetRangeInvalid => TextPair { english: "Message template preset must be between 1 and {count}", chinese: "消息模板预设必须在 1 到 {count} 之间" },
        Text::MessagePresetInvalid => TextPair { english: "Message template preset {index} is invalid", chinese: "消息模板预设 {index} 无效" },
        Text::MessageTemplateKind => TextPair { english: "Message template", chinese: "消息模板" },
        Text::ReportPresetRangeInvalid => TextPair { english: "Round report template preset must be between 1 and {count}", chinese: "回合战报模板预设必须在 1 到 {count} 之间" },
        Text::ReportTemplateInvalid => TextPair { english: "Round report template is invalid", chinese: "回合战报模板无效" },
        Text::ReportPresetInvalid => TextPair { english: "Round report template preset {index} is invalid", chinese: "回合战报模板预设 {index} 无效" },
        Text::ReportTemplateKind => TextPair { english: "Round report template", chinese: "回合战报模板" },
        Text::PresetNameEmpty => TextPair { english: "{kind} preset {index} name cannot be empty", chinese: "{kind}预设 {index} 的名称不能为空" },
        Text::PresetNameTooLong => TextPair { english: "{kind} preset {index} name cannot exceed {max} characters", chinese: "{kind}预设 {index} 的名称不能超过 {max} 个字符" },
        Text::TemplateSyntaxError => TextPair { english: "Message template syntax error", chinese: "消息模板语法错误" },
        Text::TemplateUnknownVariable => TextPair { english: "Message template contains an unknown variable", chinese: "消息模板包含未知变量" },
        Text::DiagnosticStageDetails => TextPair { english: "Stage logs are still recognized, but phase/class details changed; round state is preserved and stage estimation is unavailable", chinese: "阶段日志仍可识别，但 phase/class 详情格式已变化；回合状态保留，阶段估算降级为未知" },
        Text::DiagnosticBoss => TextPair { english: "Boss log format changed; Boss and target information are unavailable", chinese: "Boss 日志格式已变化，Boss/锁定信息已降级为空" },
        Text::DiagnosticBossDefeated => TextPair { english: "Boss-defeat log format changed; target state will wait for a later event to clear", chinese: "Boss 击败日志格式已变化，锁定状态会等待后续事件清理" },
        Text::DiagnosticOwnership => TextPair { english: "Ownership log format changed; Boss Lock is unavailable", chinese: "所有权日志格式已变化，Boss Lock 已降级为空" },
        Text::DiagnosticIntermissionMissing => TextPair { english: "The next stage appeared during combat without an intermission/lobby log; the incomplete previous round was discarded and a new round started safely", chinese: "战斗中直接观察到下一阶段，未观察到 intermission/lobby 日志；上一回合按不完整数据丢弃并安全开始新回合" },
        Text::DiagnosticCombatMetricsMissing => TextPair { english: "No damage dealt or taken logs appeared during the complete stage; values use 0/unknown", chinese: "完整阶段内未观察到输出或承伤日志；数值按 0/未知处理（可能确实无伤害，也可能是游戏停止打印相关日志）" },
        Text::DiagnosticTimestamp => TextPair { english: "A {code} log appeared, but its timestamp format was not recognized; the entry was safely skipped", chinese: "{code} 日志已出现，但时间戳格式无法识别；本条数据已安全跳过" },
        Text::DiagnosticValue => TextPair { english: "The {code} log format or numeric value changed; this entry was treated as missing", chinese: "{code} 日志格式或数值已变化，本条数据按缺失处理" },
        Text::LogProtocolDegraded => TextPair { english: "Log protocol compatibility degraded", chinese: "日志协议兼容性降级" },
        Text::LogProtocolDegradedSuffix => TextPair { english: "The app will continue running; affected fields show 0/unknown", chinese: "软件将继续运行，相关字段显示 0/未知" },
        Text::StatusSearching => TextPair { english: "SEARCHING", chinese: "查找中" },
        Text::StatusRecovering => TextPair { english: "RECOVERING", chinese: "恢复中" },
        Text::StatusLive => TextPair { english: "LIVE", chinese: "正常" },
        Text::StatusStale => TextPair { english: "STALE", chinese: "等待数据" },
        Text::StatusError => TextPair { english: "ERROR", chinese: "错误" },
        Text::EnableHeartRateHint => TextPair { english: "Receive data from vrchat-fast-heart. Turn on “Report to other apps” there, then save these settings.", chinese: "从 vrchat-fast-heart 接收数据。请先在该应用中开启“向其他应用报告（Report to other apps）”，然后保存设置。" },
        Text::HeartRateServerFailed => TextPair { english: "Heart rate couldn't start. Restart the app and try again.", chinese: "心率功能未能启动，请重启应用后重试。" },
        Text::HeartRateNoPort => TextPair { english: "Heart rate is temporarily unavailable. The app will keep trying.", chinese: "心率暂时不可用，应用会继续尝试恢复。" },
        Text::HeartRateConnected => TextPair { english: "Heart rate received", chinese: "已收到心率数据" },
        Text::HeartRateDisconnected => TextPair { english: "Heart rate signal lost. Check your heart-rate app.", chinese: "心率连接已中断，请检查心率应用。" },
        Text::HeartRateWaiting => TextPair { english: "No heart rate received. Check that your heart-rate app is open and sharing data.", chinese: "尚未收到心率，请确认心率应用已打开并允许共享数据。" },
        Text::HeartRateVariableOffline => TextPair { english: "Heart rate isn't available yet. Enable it, save the settings, and make sure your heart-rate app is sharing data.", chinese: "心率暂不可用。请开启心率并保存设置，同时确认心率应用正在共享数据。" },
    }
}

/// `text` with `{key}` replaced by `value` for each replacement in order.
pub open spec fn patterned(text: Seq<char>, replacements: Seq<(Seq<char>, Seq<char>)>) -> Seq<char>
    decreases replacements.len(),
{
    if replacements.len() == 0 {
        text
    } else {
        let (key, value) = replacements.last();
        replaced(patterned(text, replacements.drop_last()), seq!['{'] + key + seq!['}'], value)
    }
}

pub open spec fn pairs_view(r: Seq<(String, String)>) -> Seq<(Seq<char>, Seq<char>)> {
    r.map_values(|p: (String, String)| (p.0@, p.1@))
}

/// Fills the `{key}` placeholders of a catalog entry.
pub fn format_pattern(pair: TextPair, language: Language, replacements: &[(String, String)]) -> (r:
    String)
    ensures
        r@ == patterned(pair.spec_get(language)@, pairs_view(replacements@)),
{
    let mut current = chars_of(pair.get(language));
    let mut i: usize = 0;
    while i < replacements.len()
        invariant
            i <= replacements@.len(),
            current@ == patterned(
                pair.spec_get(language)@,
                pairs_view(replacements@.take(i as int)),
            ),
        decreases replacements@.len() - i,
    {
        let mut key: Vec<char> = Vec::new();
        key.push('{');
        append_str(&mut key, replacements[i].0.as_str());
        key.push('}');
        let value = chars_of(replacements[i].1.as_str());
        proof {
            assert(pairs_view(replacements@.take(i + 1)).drop_last() =~= pairs_view(
                replacements@.take(i as int),
            ));
            assert(key@ =~= seq!['{'] + replacements@[i as int].0@ + seq!['}']);
        }
        current = replace_all(&current, &key, &value);
        i = i + 1;
    }
    assert(replacements@.take(replacements@.len() as int) =~= replacements@);
    string_of(&current)
}

/// "Every {seconds} seconds" in `language`.
pub fn format_seconds_pattern(language: Language, seconds: &str) -> (r: String)
    ensures
        r@ == replaced(catalog(Text::EverySeconds).spec_get(language)@, "{seconds}"@, seconds@),
{
    let pattern = chars_of(text(Text::EverySeconds).get(language));
    let key = chars_of("{seconds}");
    proof {
        reveal_strlit("{seconds}");
    }
    let value = chars_of(seconds);
    let r = replace_all(&pattern, &key, &value);
    string_of(&r)
}


// ---------------------------------------------------------------------------
// Template help
// ---------------------------------------------------------------------------

/// One documented template variable: its role, name and description.
#[derive(Debug, Clone, Copy, PartialEq, Eq)]
pub struct VariableCopy {
    pub role: TextPair,
    pub name: &'static str,
    pub description: TextPair,
}

/// A titled group of documented variables.
#[derive(Debug, Clone, PartialEq, Eq)]
pub struct VariableCopyGroup {
    pub title: TextPair,
    pub variables: Vec<VariableCopy>,
}

/// One example of the template syntax.
#[derive(Debug, Clone, Copy, PartialEq, Eq)]
pub struct SyntaxCopy {
    pub title: TextPair,
    pub code: TextPair,
}

/// Whether `name` is one of the variables that template validation renders.
pub open spec fn is_template_variable(name: Seq<char>) -> bool {
    exists|i: int| 0 <= i < validation_values().len() && #[trigger] validation_values()[i].0 == name
}

/// Every variable of the group is a template variable.
pub open spec fn group_documented(g: VariableCopyGroup) -> bool {
    forall|j: int| 0 <= j < g.variables@.len() ==> is_template_variable(#[trigger] g.variables@[j].name@)
}

/// Every variable of every group is a template variable.
pub open spec fn groups_documented(groups: Seq<VariableCopyGroup>) -> bool {
    forall|k: int| 0 <= k < groups.len() ==> group_documented(#[trigger] groups[k])
}

fn variable(role: TextPair, name: &'static str, description: TextPair) -> (r: VariableCopy)
    ensures
        r == (VariableCopy { role, name, description }),
{
    VariableCopy { role, name, description }
}

fn heart_rate_variable_groups_0() -> (r: VariableCopyGroup)
    ensures
        group_documented(r),
        r.title == (TextPair { english: "Heart rate", chinese: "心率" }),
        r.variables@ == seq![
            (VariableCopy { role: TextPair { english: "Value", chinese: "数值" }, name: "heart_rate", description: TextPair { english: "Current heart rate. Displays “-” when no data is available.", chinese: "当前心率；没有可用数据时显示“-”。" } }),
            (VariableCopy { role: TextPair { english: "Show when", chinese: "显示条件" }, name: "has_heart_rate", description: TextPair { english: "Show this content when heart-rate data is available.", chinese: "有心率数据时显示这段内容。" } }),
        ],
{
    let variables = vec![
        variable(TextPair::new("Value", "数值"), "heart_rate", TextPair::new("Current heart rate. Displays “-” when no data is available.", "当前心率；没有可用数据时显示“-”。")),
        variable(TextPair::new("Show when", "显示条件"), "has_heart_rate", TextPair::new("Show this content when heart-rate data is available.", "有心率数据时显示这段内容。")),
    ];
    proof {
        assert(validation_values()[9].0 == variables@[0].name@);
        assert(validation_values()[10].0 == variables@[1].name@);
        assert forall|j: int| 0 <= j < variables@.len() implies is_template_variable(#[trigger] variables@[j].name@) by {
            if j == 0 {
                assert(is_template_variable(variables@[0].name@));
            } else if j == 1 {
                assert(is_template_variable(variables@[1].name@));
            }
        }
    }
    assert(variables@ =~= seq![
        VariableCopy { role: TextPair { english: "Value", chinese: "数值" }, name: "heart_rate", description: TextPair { english: "Current heart rate. Displays “-” when no data is available.", chinese: "当前心率；没有可用数据时显示“-”。" } },
        VariableCopy { role: TextPair { english: "Show when", chinese: "显示条件" }, name: "has_heart_rate", description: TextPair { english: "Show this content when heart-rate data is available.", chinese: "有心率数据时显示这段内容。" } },
    ]);
    VariableCopyGroup { title: TextPair::new("Heart rate", "心率"), variables }
}

/// The documented heart-rate variables.
pub fn heart_rate_variable_groups() -> (r: Vec<VariableCopyGroup>)
    ensures
        r@.len() == 1,
        groups_documented(r@),
{
    let g0 = heart_rate_variable_groups_0();
    let r = vec![g0];
    assert forall|k: int| 0 <= k < r@.len() implies group_documented(#[trigger] r@[k]) by {
        if k == 0 {
            assert(group_documented(r@[0]));
        }
    }
    r
}

fn live_variable_groups_0() -> (r: VariableCopyGroup)
    ensures
        group_documented(r),
        r.title == (TextPair { english: "Current DPS", chinese: "当前 DPS" }),
        r.variables@ == seq![
            (VariableCopy { role: TextPair { english: "Value", chinese: "数值" }, name: "latest_dps", description: TextPair { english: "Your DPS right now. It returns to 0 when you stop attacking.", chinese: "你现在的 DPS；停止输出后会回到 0。" } }),
            (VariableCopy { role: TextPair { english: "Show when", chinese: "显示条件" }, name: "has_latest_dps", description: TextPair { english: "Show this content when current DPS is available.", chinese: "有当前 DPS 时显示这段内容。" } }),
        ],
{
    let variables = vec![
        variable(TextPair::new("Value", "数值"), "latest_dps", TextPair::new("Your DPS right now. It returns to 0 when you stop attacking.", "你现在的 DPS；停止输出后会回到 0。")),
        variable(TextPair::new("Show when", "显示条件"), "has_latest_dps", TextPair::new("Show this content when current DPS is available.", "有当前 DPS 时显示这段内容。")),
    ];
    proof {
        assert(validation_values()[0].0 == variables@[0].name@);
        assert(validation_values()[11].0 == variables@[1].name@);
        assert forall|j: int| 0 <= j < variables@.len() implies is_template_variable(#[trigger] variables@[j].name@) by {
            if j == 0 {
                assert(is_template_variable(variables@[0].name@));
            } else if j == 1 {
                assert(is_template_variable(variables@[1].name@));
            }
        }
    }
    assert(variables@ =~= seq![
        VariableCopy { role: TextPair { english: "Value", chinese: "数值" }, name: "latest_dps", description: TextPair { english: "Your DPS right now. It returns to 0 when you stop attacking.", chinese: "你现在的 DPS；停止输出后会回到 0。" } },
        VariableCopy { role: TextPair { english: "Show when", chinese: "显示条件" }, name: "has_latest_dps", description: TextPair { english: "Show this content when current DPS is available.", chinese: "有当前 DPS 时显示这段内容。" } },
    ]);
    VariableCopyGroup { title: TextPair::new("Current DPS", "当前 DPS"), variables }
}

fn live_variable_groups_1() -> (r: VariableCopyGroup)
    ensures
        group_documented(r),
        r.title == (TextPair { english: "Average DPS", chinese: "平均 DPS" }),
        r.variables@ == seq![
            (VariableCopy { role: TextPair { english: "Value", chinese: "数值" }, name: "avg_dps", description: TextPair { english: "Your recent average DPS. Displays “-” when unavailable.", chinese: "你最近一段时间的平均 DPS；还没有数据时显示“-”。" } }),
            (VariableCopy { role: TextPair { english: "Show when", chinese: "显示条件" }, name: "has_avg_dps", description: TextPair { english: "Show this content when average DPS is available.", chinese: "有平均 DPS 时显示这段内容。" } }),
        ],
{
    let variables = vec![
        variable(TextPair::new("Value", "数值"), "avg_dps", TextPair::new("Your recent average DPS. Displays “-” when unavailable.", "你最近一段时间的平均 DPS；还没有数据时显示“-”。")),
        variable(TextPair::new("Show when", "显示条件"), "has_avg_dps", TextPair::new("Show this content when average DPS is available.", "有平均 DPS 时显示这段内容。")),
    ];
    proof {
        assert(validation_values()[1].0 == variables@[0].name@);
        assert(validation_values()[12].0 == variables@[1].name@);
        assert forall|j: int| 0 <= j < variables@.len() implies is_template_variable(#[trigger] variables@[j].name@) by {
            if j == 0 {
                assert(is_template_variable(variables@[0].name@));
            } else if j == 1 {
                assert(is_template_variable(variables@[1].name@));
            }
        }
    }
    assert(variables@ =~= seq![
        VariableCopy { role: TextPair { english: "Value", chinese: "数值" }, name: "avg_dps", description: TextPair { english: "Your recent average DPS. Displays “-” when unavailable.", chinese: "你最近一段时间的平均 DPS；还没有数据时显示“-”。" } },
        VariableCopy { role: TextPair { english: "Show when", chinese: "显示条件" }, name: "has_avg_dps", description: TextPair { english: "Show this content when average DPS is available.", chinese: "有平均 DPS 时显示这段内容。" } },
    ]);
    VariableCopyGroup { title: TextPair::new("Average DPS", "平均 DPS"), variables }
}

fn live_variable_groups_2() -> (r: VariableCopyGroup)
    ensures
        group_documented(r),
        r.title == (TextPair { english: "Current round average DPS", chinese: "本回合平均 DPS" }),
        r.variables@ == seq![
            (VariableCopy { role: TextPair { english: "Value", chinese: "数值" }, name: "round_avg_dps", description: TextPair { english: "Average DPS from the first damage of this round until now. Displays “-” when unavailable.", chinese: "本回合从开始输出到现在的平均 DPS。没有数据时显示“-”。" } }),
            (VariableCopy { role: TextPair { english: "Show when", chinese: "显示条件" }, name: "has_round_avg_dps", description: TextPair { english: "Show this content when this round's average DPS is available.", chinese: "有本回合平均 DPS 时显示这段内容。" } }),
        ],
{
    let variables = vec![
        variable(TextPair::new("Value", "数值"), "round_avg_dps", TextPair::new("Average DPS from the first damage of this round until now. Displays “-” when unavailable.", "本回合从开始输出到现在的平均 DPS。没有数据时显示“-”。")),
        variable(TextPair::new("Show when", "显示条件"), "has_round_avg_dps", TextPair::new("Show this content when this round's average DPS is available.", "有本回合平均 DPS 时显示这段内容。")),
    ];
    proof {
        assert(validation_values()[2].0 == variables@[0].name@);
        assert(validation_values()[13].0 == variables@[1].name@);
        assert forall|j: int| 0 <= j < variables@.len() implies is_template_variable(#[trigger] variables@[j].name@) by {
            if j == 0 {
                assert(is_template_variable(variables@[0].name@));
            } else if j == 1 {
                assert(is_template_variable(variables@[1].name@));
            }
        }
    }
    assert(variables@ =~= seq![
        VariableCopy { role: TextPair { english: "Value", chinese: "数值" }, name: "round_avg_dps", description: TextPair { english: "Average DPS from the first damage of this round until now. Displays “-” when unavailable.", chinese: "本回合从开始输出到现在的平均 DPS。没有数据时显示“-”。" } },
        VariableCopy { role: TextPair { english: "Show when", chinese: "显示条件" }, name: "has_round_avg_dps", description: TextPair { english: "Show this content when this round's average DPS is available.", chinese: "有本回合平均 DPS 时显示这段内容。" } },
    ]);
    VariableCopyGroup { title: TextPair::new("Current round average DPS", "本回合平均 DPS"), variables }
}

fn live_variable_groups_3() -> (r: VariableCopyGroup)
    ensures
        group_documented(r),
        r.title == (TextPair { english: "Active DPS", chinese: "持续输出 DPS" }),
        r.variables@ == seq![
            (VariableCopy { role: TextPair { english: "Value", chinese: "数值" }, name: "round_effective_dps", description: TextPair { english: "Your average DPS while attacking; walking and waiting do not lower it.", chinese: "只看你攻击时的平均 DPS，走路和等待不算。" } }),
            (VariableCopy { role: TextPair { english: "Show when", chinese: "显示条件" }, name: "has_round_effective_dps", description: TextPair { english: "Show this content when active DPS is available.", chinese: "有持续输出 DPS 时显示这段内容。" } }),
        ],
{
    let variables = vec![
        variable(TextPair::new("Value", "数值"), "round_effective_dps", TextPair::new("Your average DPS while attacking; walking and waiting do not lower it.", "只看你攻击时的平均 DPS，走路和等待不算。")),
        variable(TextPair::new("Show when", "显示条件"), "has_round_effective_dps", TextPair::new("Show this content when active DPS is available.", "有持续输出 DPS 时显示这段内容。")),
    ];
    proof {
        assert(validation_values()[3].0 == variables@[0].name@);
        assert(validation_values()[14].0 == variables@[1].name@);
        assert forall|j: int| 0 <= j < variables@.len() implies is_template_variable(#[trigger] variables@[j].name@) by {
            if j == 0 {
                assert(is_template_variable(variables@[0].name@));
            } else if j == 1 {
                assert(is_template_variable(variables@[1].name@));
            }
        }
    }
    assert(variables@ =~= seq![
        VariableCopy { role: TextPair { english: "Value", chinese: "数值" }, name: "round_effective_dps", description: TextPair { english: "Your average DPS while attacking; walking and waiting do not lower it.", chinese: "只看你攻击时的平均 DPS，走路和等待不算。" } },
        VariableCopy { role: TextPair { english: "Show when", chinese: "显示条件" }, name: "has_round_effective_dps", description: TextPair { english: "Show this content when active DPS is available.", chinese: "有持续输出 DPS 时显示这段内容。" } },
    ]);
    VariableCopyGroup { title: TextPair::new("Active DPS", "持续输出 DPS"), variables }
}

fn live_variable_groups_4() -> (r: VariableCopyGroup)
    ensures
        group_documented(r),
        r.title == (TextPair { english: "Best average DPS", chinese: "最佳平均 DPS" }),
        r.variables@ == seq![
            (VariableCopy { role: TextPair { english: "Value", chinese: "数值" }, name: "round_burst_10s", description: TextPair { english: "Your best average DPS this round. Displays “-” until enough data is available.", chinese: "本回合表现最好的一段平均 DPS；数据不足时显示“-”。" } }),
            (VariableCopy { role: TextPair { english: "Show when", chinese: "显示条件" }, name: "has_round_burst_10s", description: TextPair { english: "Show this content when best average DPS is available.", chinese: "有最佳平均 DPS 时显示这段内容。" } }),
        ],
{
    let variables = vec![
        variable(TextPair::new("Value", "数值"), "round_burst_10s", TextPair::new("Your best average DPS this round. Displays “-” until enough data is available.", "本回合表现最好的一段平均 DPS；数据不足时显示“-”。")),
        variable(TextPair::new("Show when", "显示条件"), "has_round_burst_10s", TextPair::new("Show this content when best average DPS is available.", "有最佳平均 DPS 时显示这段内容。")),
    ];
    proof {
        assert(validation_values()[4].0 == variables@[0].name@);
        assert(validation_values()[15].0 == variables@[1].name@);
        assert forall|j: int| 0 <= j < variables@.len() implies is_template_variable(#[trigger] variables@[j].name@) by {
            if j == 0 {
                assert(is_template_variable(variables@[0].name@));
            } else if j == 1 {
                assert(is_template_variable(variables@[1].name@));
            }
        }
    }
    assert(variables@ =~= seq![
        VariableCopy { role: TextPair { english: "Value", chinese: "数值" }, name: "round_burst_10s", description: TextPair { english: "Your best average DPS this round. Displays “-” until enough data is available.", chinese: "本回合表现最好的一段平均 DPS；数据不足时显示“-”。" } },
        VariableCopy { role: TextPair { english: "Show when", chinese: "显示条件" }, name: "has_round_burst_10s", description: TextPair { english: "Show this content when best average DPS is available.", chinese: "有最佳平均 DPS 时显示这段内容。" } },
    ]);
    VariableCopyGroup { title: TextPair::new("Best average DPS", "最佳平均 DPS"), variables }
}

fn live_variable_groups_5() -> (r: VariableCopyGroup)
    ensures
        group_documented(r),
        r.title == (TextPair { english: "Damage taken this round", chinese: "本回合承伤" }),
        r.variables@ == seq![
            (VariableCopy { role: TextPair { english: "Value", chinese: "数值" }, name: "round_damage_taken", description: TextPair { english: "Total damage taken so far this round. Resets next round.", chinese: "本回合到现在一共受到多少伤害。下一回合会清零。" } }),
            (VariableCopy { role: TextPair { english: "Show when", chinese: "显示条件" }, name: "has_round_damage_taken", description: TextPair { english: "Show this content once the round has started; 0 is still shown when you take no damage.", chinese: "回合开始后显示这段内容；没有受伤也会显示 0。" } }),
        ],
{
    let variables = vec![
        variable(TextPair::new("Value", "数值"), "round_damage_taken", TextPair::new("Total damage taken so far this round. Resets next round.", "本回合到现在一共受到多少伤害。下一回合会清零。")),
        variable(TextPair::new("Show when", "显示条件"), "has_round_damage_taken", TextPair::new("Show this content once the round has started; 0 is still shown when you take no damage.", "回合开始后显示这段内容；没有受伤也会显示 0。")),
    ];
    proof {
        assert(validation_values()[5].0 == variables@[0].name@);
        assert(validation_values()[16].0 == variables@[1].name@);
        assert forall|j: int| 0 <= j < variables@.len() implies is_template_variable(#[trigger] variables@[j].name@) by {
            if j == 0 {
                assert(is_template_variable(variables@[0].name@));
            } else if j == 1 {
                assert(is_template_variable(variables@[1].name@));
            }
        }
    }
    assert(variables@ =~= seq![
        VariableCopy { role: TextPair { english: "Value", chinese: "数值" }, name: "round_damage_taken", description: TextPair { english: "Total damage taken so far this round. Resets next round.", chinese: "本回合到现在一共受到多少伤害。下一回合会清零。" } },
        VariableCopy { role: TextPair { english: "Show when", chinese: "显示条件" }, name: "has_round_damage_taken", description: TextPair { english: "Show this content once the round has started; 0 is still shown when you take no damage.", chinese: "回合开始后显示这段内容；没有受伤也会显示 0。" } },
    ]);
    VariableCopyGroup { title: TextPair::new("Damage taken this round", "本回合承伤"), variables }
}

fn live_variable_groups_6() -> (r: VariableCopyGroup)
    ensures
        group_documented(r),
        r.title == (TextPair { english: "Highest DPS", chinese: "本局最高 DPS" }),
        r.variables@ == seq![
            (VariableCopy { role: TextPair { english: "Value", chinese: "数值" }, name: "max_dps", description: TextPair { english: "Your highest DPS since entering Ecliptica. Resets when you leave.", chinese: "这次进入 Ecliptica 后的最高 DPS；离开后重置。" } }),
            (VariableCopy { role: TextPair { english: "Show when", chinese: "显示条件" }, name: "has_max_dps", description: TextPair { english: "Show this content when a highest DPS value is available.", chinese: "有最高 DPS 时显示这段内容。" } }),
        ],
{
    let variables = vec![
        variable(TextPair::new("Value", "数值"), "max_dps", TextPair::new("Your highest DPS since entering Ecliptica. Resets when you leave.", "这次进入 Ecliptica 后的最高 DPS；离开后重置。")),
        variable(TextPair::new("Show when", "显示条件"), "has_max_dps", TextPair::new("Show this content when a highest DPS value is available.", "有最高 DPS 时显示这段内容。")),
    ];
    proof {
        assert(validation_values()[6].0 == variables@[0].name@);
        assert(validation_values()[17].0 == variables@[1].name@);
        assert forall|j: int| 0 <= j < variables@.len() implies is_template_variable(#[trigger] variables@[j].name@) by {
            if j == 0 {
                assert(is_template_variable(variables@[0].name@));
            } else if j == 1 {
                assert(is_template_variable(variables@[1].name@));
            }
        }
    }
    assert(variables@ =~= seq![
        VariableCopy { role: TextPair { english: "Value", chinese: "数值" }, name: "max_dps", description: TextPair { english: "Your highest DPS since entering Ecliptica. Resets when you leave.", chinese: "这次进入 Ecliptica 后的最高 DPS；离开后重置。" } },
        VariableCopy { role: TextPair { english: "Show when", chinese: "显示条件" }, name: "has_max_dps", description: TextPair { english: "Show this content when a highest DPS value is available.", chinese: "有最高 DPS 时显示这段内容。" } },
    ]);
    VariableCopyGroup { title: TextPair::new("Highest DPS", "本局最高 DPS"), variables }
}

fn live_variable_groups_7() -> (r: VariableCopyGroup)
    ensures
        group_documented(r),
        r.title == (TextPair { english: "Current combat", chinese: "当前战斗" }),
        r.variables@ == seq![
            (VariableCopy { role: TextPair { english: "Text", chinese: "文本" }, name: "boss_lock", description: TextPair { english: "Name of the player currently targeted by the Boss; empty when unknown.", chinese: "Boss 当前锁定的玩家名；还不知道时为空。" } }),
            (VariableCopy { role: TextPair { english: "Text", chinese: "文本" }, name: "boss", description: TextPair { english: "Current Boss name; empty in the lobby or before detection.", chinese: "当前 Boss 的名字。大厅或还没识别到时为空。" } }),
        ],
{
    let variables = vec![
        variable(TextPair::new("Text", "文本"), "boss_lock", TextPair::new("Name of the player currently targeted by the Boss; empty when unknown.", "Boss 当前锁定的玩家名；还不知道时为空。")),
        variable(TextPair::new("Text", "文本"), "boss", TextPair::new("Current Boss name; empty in the lobby or before detection.", "当前 Boss 的名字。大厅或还没识别到时为空。")),
    ];
    proof {
        assert(validation_values()[7].0 == variables@[0].name@);
        assert(validation_values()[8].0 == variables@[1].name@);
        assert forall|j: int| 0 <= j < variables@.len() implies is_template_variable(#[trigger] variables@[j].name@) by {
            if j == 0 {
                assert(is_template_variable(variables@[0].name@));
            } else if j == 1 {
                assert(is_template_variable(variables@[1].name@));
            }
        }
    }
    assert(variables@ =~= seq![
        VariableCopy { role: TextPair { english: "Text", chinese: "文本" }, name: "boss_lock", description: TextPair { english: "Name of the player currently targeted by the Boss; empty when unknown.", chinese: "Boss 当前锁定的玩家名；还不知道时为空。" } },
        VariableCopy { role: TextPair { english: "Text", chinese: "文本" }, name: "boss", description: TextPair { english: "Current Boss name; empty in the lobby or before detection.", chinese: "当前 Boss 的名字。大厅或还没识别到时为空。" } },
    ]);
    VariableCopyGroup { title: TextPair::new("Current combat", "当前战斗"), variables }
}

fn live_variable_groups_8() -> (r: VariableCopyGroup)
    ensures
        group_documented(r),
        r.title == (TextPair { english: "Alerts", chinese: "战斗提醒" }),
        r.variables@ == seq![
            (VariableCopy { role: TextPair { english: "Show when", chinese: "显示条件" }, name: "is_self_boss_locked", description: TextPair { english: "Show this content when the Boss targets you. Enter your VRChat name first.", chinese: "Boss 锁定你时显示这段内容；需要先填写你的 VRChat 名字。" } }),
            (VariableCopy { role: TextPair { english: "Show when", chinese: "显示条件" }, name: "rapid_damage_danger", description: TextPair { english: "Show this content when you lose a lot of health in a short time.", chinese: "短时间内掉了很多血时显示这段内容。" } }),
            (VariableCopy { role: TextPair { english: "Show when", chinese: "显示条件" }, name: "no_dps_for_10s", description: TextPair { english: "Show this content when you have not dealt damage for a while.", chinese: "战斗中有一阵子没打出伤害时显示这段内容。" } }),
            (VariableCopy { role: TextPair { english: "Show when", chinese: "显示条件" }, name: "no_wasd_for_10s", description: TextPair { english: "Show this content when you have not moved for a while.", chinese: "有一阵子没移动时显示这段内容。" } }),
        ],
{
    let variables = vec![
        variable(TextPair::new("Show when", "显示条件"), "is_self_boss_locked", TextPair::new("Show this content when the Boss targets you. Enter your VRChat name first.", "Boss 锁定你时显示这段内容；需要先填写你的 VRChat 名字。")),
        variable(TextPair::new("Show when", "显示条件"), "rapid_damage_danger", TextPair::new("Show this content when you lose a lot of health in a short time.", "短时间内掉了很多血时显示这段内容。")),
        variable(TextPair::new("Show when", "显示条件"), "no_dps_for_10s", TextPair::new("Show this content when you have not dealt damage for a while.", "战斗中有一阵子没打出伤害时显示这段内容。")),
        variable(TextPair::new("Show when", "显示条件"), "no_wasd_for_10s", TextPair::new("Show this content when you have not moved for a while.", "有一阵子没移动时显示这段内容。")),
    ];
    proof {
        assert(validation_values()[18].0 == variables@[0].name@);
        assert(validation_values()[19].0 == variables@[1].name@);
        assert(validation_values()[20].0 == variables@[2].name@);
        assert(validation_values()[21].0 == variables@[3].name@);
        assert forall|j: int| 0 <= j < variables@.len() implies is_template_variable(#[trigger] variables@[j].name@) by {
            if j == 0 {
                assert(is_template_variable(variables@[0].name@));
            } else if j == 1 {
                assert(is_template_variable(variables@[1].name@));
            } else if j == 2 {
                assert(is_template_variable(variables@[2].name@));
            } else if j == 3 {
                assert(is_template_variable(variables@[3].name@));
            }
        }
    }
    assert(variables@ =~= seq![
        VariableCopy { role: TextPair { english: "Show when", chinese: "显示条件" }, name: "is_self_boss_locked", description: TextPair { english: "Show this content when the Boss targets you. Enter your VRChat name first.", chinese: "Boss 锁定你时显示这段内容；需要先填写你的 VRChat 名字。" } },
        VariableCopy { role: TextPair { english: "Show when", chinese: "显示条件" }, name: "rapid_damage_danger", description: TextPair { english: "Show this content when you lose a lot of health in a short time.", chinese: "短时间内掉了很多血时显示这段内容。" } },
        VariableCopy { role: TextPair { english: "Show when", chinese: "显示条件" }, name: "no_dps_for_10s", description: TextPair { english: "Show this content when you have not dealt damage for a while.", chinese: "战斗中有一阵子没打出伤害时显示这段内容。" } },
        VariableCopy { role: TextPair { english: "Show when", chinese: "显示条件" }, name: "no_wasd_for_10s", description: TextPair { english: "Show this content when you have not moved for a while.", chinese: "有一阵子没移动时显示这段内容。" } },
    ]);
    VariableCopyGroup { title: TextPair::new("Alerts", "战斗提醒"), variables }
}

/// The documented variables of combat messages.
pub fn live_variable_groups() -> (r: Vec<VariableCopyGroup>)
    ensures
        r@.len() == 9,
        groups_documented(r@),
{
    let g0 = live_variable_groups_0();
    let g1 = live_variable_groups_1();
    let g2 = live_variable_groups_2();
    let g3 = live_variable_groups_3();
    let g4 = live_variable_groups_4();
    let g5 = live_variable_groups_5();
    let g6 = live_variable_groups_6();
    let g7 = live_variable_groups_7();
    let g8 = live_variable_groups_8();
    let r = vec![g0, g1, g2, g3, g4, g5, g6, g7, g8];
    assert forall|k: int| 0 <= k < r@.len() implies group_documented(#[trigger] r@[k]) by {
        if k == 0 {
            assert(group_documented(r@[0]));
        } else if k == 1 {
            assert(group_documented(r@[1]));
        } else if k == 2 {
            assert(group_documented(r@[2]));
        } else if k == 3 {
            assert(group_documented(r@[3]));
        } else if k == 4 {
            assert(group_documented(r@[4]));
        } else if k == 5 {
            assert(group_documented(r@[5]));
        } else if k == 6 {
            assert(group_documented(r@[6]));
        } else if k == 7 {
            assert(group_documented(r@[7]));
        } else if k == 8 {
            assert(group_documented(r@[8]));
        }
    }
    r
}

fn report_variable_groups_0() -> (r: VariableCopyGroup)
    ensures
        group_documented(r),
        r.title == (TextPair { english: "Game progress", chinese: "游戏进度" }),
        r.variables@ == seq![
            (VariableCopy { role: TextPair { english: "Show when", chinese: "显示条件" }, name: "has_step_estimate", description: TextPair { english: "Show this content when the remaining rounds to Jim can be estimated.", chinese: "能算出距离 Jim 还有几回合时显示这段内容。" } }),
            (VariableCopy { role: TextPair { english: "Value", chinese: "数值" }, name: "current_step", description: TextPair { english: "Estimated round number for the combat that just ended.", chinese: "预计刚打完的是本局第几回合。" } }),
            (VariableCopy { role: TextPair { english: "Value", chinese: "数值" }, name: "until_boss_step", description: TextPair { english: "Estimated rounds until Jim; 0 means the next combat is expected to be Jim.", chinese: "预计还要打几回合才到 Jim。0 表示下一战预计就是 Jim。" } }),
        ],
{
    let variables = vec![
        variable(TextPair::new("Show when", "显示条件"), "has_step_estimate", TextPair::new("Show this content when the remaining rounds to Jim can be estimated.", "能算出距离 Jim 还有几回合时显示这段内容。")),
        variable(TextPair::new("Value", "数值"), "current_step", TextPair::new("Estimated round number for the combat that just ended.", "预计刚打完的是本局第几回合。")),
        variable(TextPair::new("Value", "数值"), "until_boss_step", TextPair::new("Estimated rounds until Jim; 0 means the next combat is expected to be Jim.", "预计还要打几回合才到 Jim。0 表示下一战预计就是 Jim。")),
    ];
    proof {
        assert(validation_values()[30].0 == variables@[0].name@);
        assert(validation_values()[31].0 == variables@[1].name@);
        assert(validation_values()[32].0 == variables@[2].name@);
        assert forall|j: int| 0 <= j < variables@.len() implies is_template_variable(#[trigger] variables@[j].name@) by {
            if j == 0 {
                assert(is_template_variable(variables@[0].name@));
            } else if j == 1 {
                assert(is_template_variable(variables@[1].name@));
            } else if j == 2 {
                assert(is_template_variable(variables@[2].name@));
            }
        }
    }
    assert(variables@ =~= seq![
        VariableCopy { role: TextPair { english: "Show when", chinese: "显示条件" }, name: "has_step_estimate", description: TextPair { english: "Show this content when the remaining rounds to Jim can be estimated.", chinese: "能算出距离 Jim 还有几回合时显示这段内容。" } },
        VariableCopy { role: TextPair { english: "Value", chinese: "数值" }, name: "current_step", description: TextPair { english: "Estimated round number for the combat that just ended.", chinese: "预计刚打完的是本局第几回合。" } },
        VariableCopy { role: TextPair { english: "Value", chinese: "数值" }, name: "until_boss_step", description: TextPair { english: "Estimated rounds until Jim; 0 means the next combat is expected to be Jim.", chinese: "预计还要打几回合才到 Jim。0 表示下一战预计就是 Jim。" } },
    ]);
    VariableCopyGroup { title: TextPair::new("Game progress", "游戏进度"), variables }
}

fn report_variable_groups_1() -> (r: VariableCopyGroup)
    ensures
        group_documented(r),
        r.title == (TextPair { english: "Round duration", chinese: "回合用时" }),
        r.variables@ == seq![
            (VariableCopy { role: TextPair { english: "Value", chinese: "数值" }, name: "round_duration", description: TextPair { english: "Time from entering combat until returning to the lobby.", chinese: "从进入战斗到回到大厅，一共用了多久。" } }),
            (VariableCopy { role: TextPair { english: "Show when", chinese: "显示条件" }, name: "has_round_duration", description: TextPair { english: "Show this content when the round duration is available.", chinese: "有回合用时时显示这段内容。" } }),
        ],
{
    let variables = vec![
        variable(TextPair::new("Value", "数值"), "round_duration", TextPair::new("Time from entering combat until returning to the lobby.", "从进入战斗到回到大厅，一共用了多久。")),
        variable(TextPair::new("Show when", "显示条件"), "has_round_duration", TextPair::new("Show this content when the round duration is available.", "有回合用时时显示这段内容。")),
    ];
    proof {
        assert(validation_values()[33].0 == variables@[0].name@);
        assert(validation_values()[22].0 == variables@[1].name@);
        assert forall|j: int| 0 <= j < variables@.len() implies is_template_variable(#[trigger] variables@[j].name@) by {
            if j == 0 {
                assert(is_template_variable(variables@[0].name@));
            } else if j == 1 {
                assert(is_template_variable(variables@[1].name@));
            }
        }
    }
    assert(variables@ =~= seq![
        VariableCopy { role: TextPair { english: "Value", chinese: "数值" }, name: "round_duration", description: TextPair { english: "Time from entering combat until returning to the lobby.", chinese: "从进入战斗到回到大厅，一共用了多久。" } },
        VariableCopy { role: TextPair { english: "Show when", chinese: "显示条件" }, name: "has_round_duration", description: TextPair { english: "Show this content when the round duration is available.", chinese: "有回合用时时显示这段内容。" } },
    ]);
    VariableCopyGroup { title: TextPair::new("Round duration", "回合用时"), variables }
}

fn report_variable_groups_2() -> (r: VariableCopyGroup)
    ensures
        group_documented(r),
        r.title == (TextPair { english: "Average DPS", chinese: "平均 DPS" }),
        r.variables@ == seq![
            (VariableCopy { role: TextPair { english: "Value", chinese: "数值" }, name: "round_report_avg_dps", description: TextPair { english: "Average DPS for the round that just ended.", chinese: "这一回合的平均 DPS。" } }),
            (VariableCopy { role: TextPair { english: "Show when", chinese: "显示条件" }, name: "has_round_report_avg_dps", description: TextPair { english: "Show this content when average DPS is available.", chinese: "有平均 DPS 时显示这段内容。" } }),
        ],
{
    let variables = vec![
        variable(TextPair::new("Value", "数值"), "round_report_avg_dps", TextPair::new("Average DPS for the round that just ended.", "这一回合的平均 DPS。")),
        variable(TextPair::new("Show when", "显示条件"), "has_round_report_avg_dps", TextPair::new("Show this content when average DPS is available.", "有平均 DPS 时显示这段内容。")),
    ];
    proof {
        assert(validation_values()[35].0 == variables@[0].name@);
        assert(validation_values()[23].0 == variables@[1].name@);
        assert forall|j: int| 0 <= j < variables@.len() implies is_template_variable(#[trigger] variables@[j].name@) by {
            if j == 0 {
                assert(is_template_variable(variables@[0].name@));
            } else if j == 1 {
                assert(is_template_variable(variables@[1].name@));
            }
        }
    }
    assert(variables@ =~= seq![
        VariableCopy { role: TextPair { english: "Value", chinese: "数值" }, name: "round_report_avg_dps", description: TextPair { english: "Average DPS for the round that just ended.", chinese: "这一回合的平均 DPS。" } },
        VariableCopy { role: TextPair { english: "Show when", chinese: "显示条件" }, name: "has_round_report_avg_dps", description: TextPair { english: "Show this content when average DPS is available.", chinese: "有平均 DPS 时显示这段内容。" } },
    ]);
    VariableCopyGroup { title: TextPair::new("Average DPS", "平均 DPS"), variables }
}

fn report_variable_groups_3() -> (r: VariableCopyGroup)
    ensures
        group_documented(r),
        r.title == (TextPair { english: "Highest DPS", chinese: "最高 DPS" }),
        r.variables@ == seq![
            (VariableCopy { role: TextPair { english: "Value", chinese: "数值" }, name: "round_max_dps", description: TextPair { english: "Highest DPS in the round that just ended.", chinese: "这一回合的最高 DPS。" } }),
            (VariableCopy { role: TextPair { english: "Show when", chinese: "显示条件" }, name: "has_round_max_dps", description: TextPair { english: "Show this content when highest DPS is available.", chinese: "有最高 DPS 时显示这段内容。" } }),
        ],
{
    let variables = vec![
        variable(TextPair::new("Value", "数值"), "round_max_dps", TextPair::new("Highest DPS in the round that just ended.", "这一回合的最高 DPS。")),
        variable(TextPair::new("Show when", "显示条件"), "has_round_max_dps", TextPair::new("Show this content when highest DPS is available.", "有最高 DPS 时显示这段内容。")),
    ];
    proof {
        assert(validation_values()[36].0 == variables@[0].name@);
        assert(validation_values()[24].0 == variables@[1].name@);
        assert forall|j: int| 0 <= j < variables@.len() implies is_template_variable(#[trigger] variables@[j].name@) by {
            if j == 0 {
                assert(is_template_variable(variables@[0].name@));
            } else if j == 1 {
                assert(is_template_variable(variables@[1].name@));
            }
        }
    }
    assert(variables@ =~= seq![
        VariableCopy { role: TextPair { english: "Value", chinese: "数值" }, name: "round_max_dps", description: TextPair { english: "Highest DPS in the round that just ended.", chinese: "这一回合的最高 DPS。" } },
        VariableCopy { role: TextPair { english: "Show when", chinese: "显示条件" }, name: "has_round_max_dps", description: TextPair { english: "Show this content when highest DPS is available.", chinese: "有最高 DPS 时显示这段内容。" } },
    ]);
    VariableCopyGroup { title: TextPair::new("Highest DPS", "最高 DPS"), variables }
}

fn report_variable_groups_4() -> (r: VariableCopyGroup)
    ensures
        group_documented(r),
        r.title == (TextPair { english: "Active DPS", chinese: "持续输出 DPS" }),
        r.variables@ == seq![
            (VariableCopy { role: TextPair { english: "Value", chinese: "数值" }, name: "round_report_effective_dps", description: TextPair { english: "Average DPS while attacking; walking and waiting do not lower it.", chinese: "只看你攻击时的平均 DPS，走路和等待不算。" } }),
            (VariableCopy { role: TextPair { english: "Show when", chinese: "显示条件" }, name: "has_round_report_effective_dps", description: TextPair { english: "Show this content when active DPS is available.", chinese: "有持续输出 DPS 时显示这段内容。" } }),
        ],
{
    let variables = vec![
        variable(TextPair::new("Value", "数值"), "round_report_effective_dps", TextPair::new("Average DPS while attacking; walking and waiting do not lower it.", "只看你攻击时的平均 DPS，走路和等待不算。")),
        variable(TextPair::new("Show when", "显示条件"), "has_round_report_effective_dps", TextPair::new("Show this content when active DPS is available.", "有持续输出 DPS 时显示这段内容。")),
    ];
    proof {
        assert(validation_values()[37].0 == variables@[0].name@);
        assert(validation_values()[25].0 == variables@[1].name@);
        assert forall|j: int| 0 <= j < variables@.len() implies is_template_variable(#[trigger] variables@[j].name@) by {
            if j == 0 {
                assert(is_template_variable(variables@[0].name@));
            } else if j == 1 {
                assert(is_template_variable(variables@[1].name@));
            }
        }
    }
    assert(variables@ =~= seq![
        VariableCopy { role: TextPair { english: "Value", chinese: "数值" }, name: "round_report_effective_dps", description: TextPair { english: "Average DPS while attacking; walking and waiting do not lower it.", chinese: "只看你攻击时的平均 DPS，走路和等待不算。" } },
        VariableCopy { role: TextPair { english: "Show when", chinese: "显示条件" }, name: "has_round_report_effective_dps", description: TextPair { english: "Show this content when active DPS is available.", chinese: "有持续输出 DPS 时显示这段内容。" } },
    ]);
    VariableCopyGroup { title: TextPair::new("Active DPS", "持续输出 DPS"), variables }
}

fn report_variable_groups_5() -> (r: VariableCopyGroup)
    ensures
        group_documented(r),
        r.title == (TextPair { english: "Best average DPS", chinese: "最佳平均 DPS" }),
        r.variables@ == seq![
            (VariableCopy { role: TextPair { english: "Value", chinese: "数值" }, name: "round_report_burst_10s", description: TextPair { english: "Best average DPS in the round that just ended.", chinese: "这一回合表现最好的一段平均 DPS。" } }),
            (VariableCopy { role: TextPair { english: "Show when", chinese: "显示条件" }, name: "has_round_report_burst_10s", description: TextPair { english: "Show this content when best average DPS is available.", chinese: "有最佳平均 DPS 时显示这段内容。" } }),
        ],
{
    let variables = vec![
        variable(TextPair::new("Value", "数值"), "round_report_burst_10s", TextPair::new("Best average DPS in the round that just ended.", "这一回合表现最好的一段平均 DPS。")),
        variable(TextPair::new("Show when", "显示条件"), "has_round_report_burst_10s", TextPair::new("Show this content when best average DPS is available.", "有最佳平均 DPS 时显示这段内容。")),
    ];
    proof {
        assert(validation_values()[38].0 == variables@[0].name@);
        assert(validation_values()[26].0 == variables@[1].name@);
        assert forall|j: int| 0 <= j < variables@.len() implies is_template_variable(#[trigger] variables@[j].name@) by {
            if j == 0 {
                assert(is_template_variable(variables@[0].name@));
            } else if j == 1 {
                assert(is_template_variable(variables@[1].name@));
            }
        }
    }
    assert(variables@ =~= seq![
        VariableCopy { role: TextPair { english: "Value", chinese: "数值" }, name: "round_report_burst_10s", description: TextPair { english: "Best average DPS in the round that just ended.", chinese: "这一回合表现最好的一段平均 DPS。" } },
        VariableCopy { role: TextPair { english: "Show when", chinese: "显示条件" }, name: "has_round_report_burst_10s", description: TextPair { english: "Show this content when best average DPS is available.", chinese: "有最佳平均 DPS 时显示这段内容。" } },
    ]);
    VariableCopyGroup { title: TextPair::new("Best average DPS", "最佳平均 DPS"), variables }
}

fn report_variable_groups_6() -> (r: VariableCopyGroup)
    ensures
        group_documented(r),
        r.title == (TextPair { english: "Active DPS change", chinese: "持续输出 DPS 变化" }),
        r.variables@ == seq![
            (VariableCopy { role: TextPair { english: "Value", chinese: "数值" }, name: "dps_growth_rate", description: TextPair { english: "Change in active DPS from the previous round. The template receives a number without the percent sign.", chinese: "持续输出 DPS 比上一回合高了或低了多少；填入模板的是数字，不带百分号。" } }),
            (VariableCopy { role: TextPair { english: "Show when", chinese: "显示条件" }, name: "has_dps_growth_rate", description: TextPair { english: "Show this content when there is a previous round to compare.", chinese: "有上一回合可比较时显示这段内容。" } }),
        ],
{
    let variables = vec![
        variable(TextPair::new("Value", "数值"), "dps_growth_rate", TextPair::new("Change in active DPS from the previous round. The template receives a number without the percent sign.", "持续输出 DPS 比上一回合高了或低了多少；填入模板的是数字，不带百分号。")),
        variable(TextPair::new("Show when", "显示条件"), "has_dps_growth_rate", TextPair::new("Show this content when there is a previous round to compare.", "有上一回合可比较时显示这段内容。")),
    ];
    proof {
        assert(validation_values()[39].0 == variables@[0].name@);
        assert(validation_values()[27].0 == variables@[1].name@);
        assert forall|j: int| 0 <= j < variables@.len() implies is_template_variable(#[trigger] variables@[j].name@) by {
            if j == 0 {
                assert(is_template_variable(variables@[0].name@));
            } else if j == 1 {
                assert(is_template_variable(variables@[1].name@));
            }
        }
    }
    assert(variables@ =~= seq![
        VariableCopy { role: TextPair { english: "Value", chinese: "数值" }, name: "dps_growth_rate", description: TextPair { english: "Change in active DPS from the previous round. The template receives a number without the percent sign.", chinese: "持续输出 DPS 比上一回合高了或低了多少；填入模板的是数字，不带百分号。" } },
        VariableCopy { role: TextPair { english: "Show when", chinese: "显示条件" }, name: "has_dps_growth_rate", description: TextPair { english: "Show this content when there is a previous round to compare.", chinese: "有上一回合可比较时显示这段内容。" } },
    ]);
    VariableCopyGroup { title: TextPair::new("Active DPS change", "持续输出 DPS 变化"), variables }
}

fn report_variable_groups_7() -> (r: VariableCopyGroup)
    ensures
        group_documented(r),
        r.title == (TextPair { english: "Longest standstill", chinese: "最长站桩" }),
        r.variables@ == seq![
            (VariableCopy { role: TextPair { english: "Value", chinese: "数值" }, name: "round_longest_standstill", description: TextPair { english: "Longest standstill in the round. The template receives seconds without a unit.", chinese: "这一回合的最长站桩时间；填入模板的是秒数，不带单位。" } }),
            (VariableCopy { role: TextPair { english: "Show when", chinese: "显示条件" }, name: "has_round_longest_standstill", description: TextPair { english: "Show this content when standstill data is available.", chinese: "有站桩数据时显示这段内容。" } }),
        ],
{
    let variables = vec![
        variable(TextPair::new("Value", "数值"), "round_longest_standstill", TextPair::new("Longest standstill in the round. The template receives seconds without a unit.", "这一回合的最长站桩时间；填入模板的是秒数，不带单位。")),
        variable(TextPair::new("Show when", "显示条件"), "has_round_longest_standstill", TextPair::new("Show this content when standstill data is available.", "有站桩数据时显示这段内容。")),
    ];
    proof {
        assert(validation_values()[42].0 == variables@[0].name@);
        assert(validation_values()[29].0 == variables@[1].name@);
        assert forall|j: int| 0 <= j < variables@.len() implies is_template_variable(#[trigger] variables@[j].name@) by {
            if j == 0 {
                assert(is_template_variable(variables@[0].name@));
            } else if j == 1 {
                assert(is_template_variable(variables@[1].name@));
            }
        }
    }
    assert(variables@ =~= seq![
        VariableCopy { role: TextPair { english: "Value", chinese: "数值" }, name: "round_longest_standstill", description: TextPair { english: "Longest standstill in the round. The template receives seconds without a unit.", chinese: "这一回合的最长站桩时间；填入模板的是秒数，不带单位。" } },
        VariableCopy { role: TextPair { english: "Show when", chinese: "显示条件" }, name: "has_round_longest_standstill", description: TextPair { english: "Show this content when standstill data is available.", chinese: "有站桩数据时显示这段内容。" } },
    ]);
    VariableCopyGroup { title: TextPair::new("Longest standstill", "最长站桩"), variables }
}

fn report_variable_groups_8() -> (r: VariableCopyGroup)
    ensures
        group_documented(r),
        r.title == (TextPair { english: "Round damage", chinese: "伤害统计" }),
        r.variables@ == seq![
            (VariableCopy { role: TextPair { english: "Value", chinese: "数值" }, name: "round_total_damage", description: TextPair { english: "Total damage dealt in the round that just ended.", chinese: "这一回合一共打了多少伤害。" } }),
            (VariableCopy { role: TextPair { english: "Value", chinese: "数值" }, name: "round_report_damage_taken", description: TextPair { english: "Total damage taken in the round that just ended.", chinese: "这一回合一共受到多少伤害。" } }),
        ],
{
    let variables = vec![
        variable(TextPair::new("Value", "数值"), "round_total_damage", TextPair::new("Total damage dealt in the round that just ended.", "这一回合一共打了多少伤害。")),
        variable(TextPair::new("Value", "数值"), "round_report_damage_taken", TextPair::new("Total damage taken in the round that just ended.", "这一回合一共受到多少伤害。")),
    ];
    proof {
        assert(validation_values()[34].0 == variables@[0].name@);
        assert(validation_values()[41].0 == variables@[1].name@);
        assert forall|j: int| 0 <= j < variables@.len() implies is_template_variable(#[trigger] variables@[j].name@) by {
            if j == 0 {
                assert(is_template_variable(variables@[0].name@));
            } else if j == 1 {
                assert(is_template_variable(variables@[1].name@));
            }
        }
    }
    assert(variables@ =~= seq![
        VariableCopy { role: TextPair { english: "Value", chinese: "数值" }, name: "round_total_damage", description: TextPair { english: "Total damage dealt in the round that just ended.", chinese: "这一回合一共打了多少伤害。" } },
        VariableCopy { role: TextPair { english: "Value", chinese: "数值" }, name: "round_report_damage_taken", description: TextPair { english: "Total damage taken in the round that just ended.", chinese: "这一回合一共受到多少伤害。" } },
    ]);
    VariableCopyGroup { title: TextPair::new("Round damage", "伤害统计"), variables }
}

/// The documented variables of round reports.
pub fn report_variable_groups() -> (r: Vec<VariableCopyGroup>)
    ensures
        r@.len() == 9,
        groups_documented(r@),
{
    let g0 = report_variable_groups_0();
    let g1 = report_variable_groups_1();
    let g2 = report_variable_groups_2();
    let g3 = report_variable_groups_3();
    let g4 = report_variable_groups_4();
    let g5 = report_variable_groups_5();
    let g6 = report_variable_groups_6();
    let g7 = report_variable_groups_7();
    let g8 = report_variable_groups_8();
    let r = vec![g0, g1, g2, g3, g4, g5, g6, g7, g8];
    assert forall|k: int| 0 <= k < r@.len() implies group_documented(#[trigger] r@[k]) by {
        if k == 0 {
            assert(group_documented(r@[0]));
        } else if k == 1 {
            assert(group_documented(r@[1]));
        } else if k == 2 {
            assert(group_documented(r@[2]));
        } else if k == 3 {
            assert(group_documented(r@[3]));
        } else if k == 4 {
            assert(group_documented(r@[4]));
        } else if k == 5 {
            assert(group_documented(r@[5]));
        } else if k == 6 {
            assert(group_documented(r@[6]));
        } else if k == 7 {
            assert(group_documented(r@[7]));
        } else if k == 8 {
            assert(group_documented(r@[8]));
        }
    }
    r
}

/// The examples of the template syntax help, in order.
pub open spec fn syntax_examples() -> Seq<SyntaxCopy> {
    seq![
        SyntaxCopy { title: TextPair { english: "1 · Insert data", chinese: "1 · 插入数据" }, code: TextPair { english: "Current DPS: {{latest_dps}}", chinese: "当前 DPS: {{latest_dps}}" } },
        SyntaxCopy { title: TextPair { english: "2 · Show only when needed", chinese: "2 · 需要时才显示" }, code: TextPair { english: "{{#if has_latest_dps}}\nCurrent DPS: {{latest_dps}}\n{{/if}}", chinese: "{{#if has_latest_dps}}\n当前 DPS: {{latest_dps}}\n{{/if}}" } },
        SyntaxCopy { title: TextPair { english: "3 · Choose between two messages", chinese: "3 · 两段话选一段" }, code: TextPair { english: "{{#if is_self_boss_locked}}\n⚠ Boss is targeting me\n{{else}}\nBoss is not targeting me\n{{/if}}", chinese: "{{#if is_self_boss_locked}}\n⚠ Boss 正在锁定我\n{{else}}\nBoss 当前没有锁定我\n{{/if}}" } },
        SyntaxCopy { title: TextPair { english: "4 · Compare or combine conditions", chinese: "4 · 比较或组合条件" }, code: TextPair { english: "{{#if (gt round_damage_taken 50)}}Damage taken exceeds 50{{/if}}\n{{#if (or rapid_damage_danger no_dps_for_10s)}}⚠ Check combat status{{/if}}", chinese: "{{#if (gt round_damage_taken 50)}}承伤超过 50{{/if}}\n{{#if (or rapid_damage_danger no_dps_for_10s)}}⚠ 注意战斗状态{{/if}}" } },
    ]
}

/// The examples of the template syntax help.
pub fn template_syntax_examples() -> (r: Vec<SyntaxCopy>)
    ensures
        r@ == syntax_examples(),
{
    let r = vec![
        SyntaxCopy { title: TextPair::new("1 · Insert data", "1 · 插入数据"), code: TextPair::new("Current DPS: {{latest_dps}}", "当前 DPS: {{latest_dps}}") },
        SyntaxCopy { title: TextPair::new("2 · Show only when needed", "2 · 需要时才显示"), code: TextPair::new("{{#if has_latest_dps}}\nCurrent DPS: {{latest_dps}}\n{{/if}}", "{{#if has_latest_dps}}\n当前 DPS: {{latest_dps}}\n{{/if}}") },
        SyntaxCopy { title: TextPair::new("3 · Choose between two messages", "3 · 两段话选一段"), code: TextPair::new("{{#if is_self_boss_locked}}\n⚠ Boss is targeting me\n{{else}}\nBoss is not targeting me\n{{/if}}", "{{#if is_self_boss_locked}}\n⚠ Boss 正在锁定我\n{{else}}\nBoss 当前没有锁定我\n{{/if}}") },
        SyntaxCopy { title: TextPair::new("4 · Compare or combine conditions", "4 · 比较或组合条件"), code: TextPair::new("{{#if (gt round_damage_taken 50)}}Damage taken exceeds 50{{/if}}\n{{#if (or rapid_damage_danger no_dps_for_10s)}}⚠ Check combat status{{/if}}", "{{#if (gt round_damage_taken 50)}}承伤超过 50{{/if}}\n{{#if (or rapid_damage_danger no_dps_for_10s)}}⚠ 注意战斗状态{{/if}}") },
    ];
    assert(r@ =~= syntax_examples());
    r
}

} // verus!
