//! User settings: chat-box send interval, message and report template
//! presets, alert sounds, overlay placement flags and the OSC target.
//!
//! The overlay position and size and the alert volume are decimal numbers;
//! the application keeps them beside this configuration.
use vstd::prelude::*;

use crate::i18n::{catalog, format_pattern, pairs_view, patterned, text, Language, Text};
use crate::osc::{
    dash, handlebars_output, render_handlebars, STRICT_TEMPLATES, values_view, FailureView, RenderFailure, TemplateValue,
    ValueView,
};
use crate::text::{
    chars_eq, chars_of, decimal_chars, decimal_string, decimal_text, replace_all, replaced, string_of, trim,
    trim_end, trimmed, trimmed_end,
};

verus! {

/// The configuration format written by this version.
pub const CONFIG_VERSION: u32 = 21;
pub const MESSAGE_TEMPLATE_PRESET_COUNT: usize = 3;
pub const ROUND_REPORT_TEMPLATE_PRESET_COUNT: usize = 3;
pub const TEMPLATE_PRESET_NAME_MAX_CHARS: usize = 24;

/// How often the chat box is refreshed.
#[derive(Debug, Clone, Copy, PartialEq, Eq, Structural)]
pub enum SendInterval {
    One,
    OnePointFive,
    Two,
    Three,
}

impl SendInterval {
    pub open spec fn millis(self) -> u64 {
        match self {
            SendInterval::One => 1000,
            SendInterval::OnePointFive => 1500,
            SendInterval::Two => 2000,
            SendInterval::Three => 3000,
        }
    }

    /// The interval in milliseconds.
    pub fn duration(self) -> (r: u64)
        ensures
            r == self.millis(),
    {
        match self {
            SendInterval::One => 1000,
            SendInterval::OnePointFive => 1500,
            SendInterval::Two => 2000,
            SendInterval::Three => 3000,
        }
    }

    pub open spec fn spec_seconds_label(self) -> Seq<char> {
        match self {
            SendInterval::One => "1"@,
            SendInterval::OnePointFive => "1.5"@,
            SendInterval::Two => "2"@,
            SendInterval::Three => "3"@,
        }
    }

    /// The interval in seconds, as shown to the user.
    pub fn seconds_label(self) -> (r: &'static str)
        ensures
            r@ == self.spec_seconds_label(),
    {
        match self {
            SendInterval::One => "1",
            SendInterval::OnePointFive => "1.5",
            SendInterval::Two => "2",
            SendInterval::Three => "3",
        }
    }
}

/// The tone of an alert sound.
#[derive(Debug, Clone, Copy, PartialEq, Eq, Structural)]
pub enum AlertSoundStyle {
    Soft,
    Crisp,
    Prominent,
}

impl AlertSoundStyle {
    pub open spec fn text_key(self) -> Text {
        match self {
            AlertSoundStyle::Soft => Text::SoundSoft,
            AlertSoundStyle::Crisp => Text::SoundCrisp,
            AlertSoundStyle::Prominent => Text::SoundProminent,
        }
    }

    /// The style's name in `language`.
    pub fn display_label(self, language: Language) -> (r: &'static str)
        ensures
            r == catalog(self.text_key()).spec_get(language),
    {
        let key = match self {
            AlertSoundStyle::Soft => Text::SoundSoft,
            AlertSoundStyle::Crisp => Text::SoundCrisp,
            AlertSoundStyle::Prominent => Text::SoundProminent,
        };
        text(key).get(language)
    }

    /// All styles, in display order.
    pub fn all() -> (r: [AlertSoundStyle; 3])
        ensures
            r@ == seq![AlertSoundStyle::Soft, AlertSoundStyle::Crisp, AlertSoundStyle::Prominent],
    {
        let r = [AlertSoundStyle::Soft, AlertSoundStyle::Crisp, AlertSoundStyle::Prominent];
        assert(r@ =~= seq![AlertSoundStyle::Soft, AlertSoundStyle::Crisp, AlertSoundStyle::Prominent]);
        r
    }
}

/// The persisted settings.
#[derive(Debug)]
pub struct AppConfig {
    pub version: u32,
    pub language: Language,
    pub send_interval: SendInterval,
    /// The live copy of the active message preset.
    pub message_template: String,
    pub message_template_presets: [String; 3],
    pub message_template_preset_names: [String; 3],
    pub active_message_template_preset: usize,
    /// The live copy of the active round-report preset.
    pub round_report_template: String,
    pub round_report_template_presets: [String; 3],
    pub round_report_template_preset_names: [String; 3],
    pub active_round_report_template_preset: usize,
    /// The player's display name, used to detect a boss lock on oneself.
    pub display_name: String,
    pub locked_sound_style: AlertSoundStyle,
    pub unlocked_sound_style: AlertSoundStyle,
    pub overlay_locked: bool,
    pub overlay_mouse_passthrough: bool,
    pub osc_enabled: bool,
    /// Accept updates from a local HTTP heart-rate sender.
    pub heart_rate_enabled: bool,
    pub osc_address: String,
    pub stale_after_seconds: u64,
    pub log_path_override: Option<String>,
}


// ---------------------------------------------------------------------------
// Built-in templates
// ---------------------------------------------------------------------------

/// First Chinese combat preset.
pub const DEFAULT_TEMPLATE: &'static str = "{{#if is_self_boss_locked}}\n【Boss 正在锁定我，救命！】\n{{/if}}\n{{#if rapid_damage_danger}}\n【正在快速掉血，救命！】\n{{/if}}\n{{#if no_wasd_for_10s}}\n【我已经 10 秒没动了】\n{{/if}}\n{{#if no_dps_for_10s}}\n【10 秒没有输出】\n{{/if}}\n{{#if has_latest_dps}}\nDPS: {{latest_dps}}\n{{/if}}\n";
/// Second Chinese combat preset.
pub const DEFAULT_TEMPLATE_PRESET_2: &'static str = "{{#if is_self_boss_locked}}\n【Boss 正在锁定我，快打它！】\n{{/if}}\n{{#if no_wasd_for_10s}}\n【我已经 10 秒没动了】\n{{/if}}\n{{#if no_dps_for_10s}}\n【10 秒没有输出】\n{{/if}}\n{{#if has_round_damage_taken}}\n承伤: {{round_damage_taken}}\n{{/if}}\n";
/// First Chinese report preset.
pub const DEFAULT_ROUND_REPORT_TEMPLATE: &'static str = "【回合战报】\n用时 {{round_duration}}｜我打了 {{round_total_damage}}\n平均 {{round_report_effective_dps}} DPS｜最高 {{round_max_dps}} DPS\n{{#if has_step_estimate}}\n第 {{current_step}} 回合｜距 Jim 还有 {{until_boss_step}} 回合\n{{/if}}\n";
/// Second Chinese report preset.
pub const DEFAULT_ROUND_REPORT_TEMPLATE_PRESET_2: &'static str = "【回合战报】\n用时 {{round_duration}}｜被草 {{round_report_damage_taken}}\n最长站桩 {{round_longest_standstill}} 秒\n{{#if has_step_estimate}}\n预计距 Jim 还有 {{until_boss_step}} 回合\n{{/if}}\n";
/// First English combat preset.
pub const DEFAULT_TEMPLATE_ENGLISH: &'static str = "{{#if is_self_boss_locked}}\n【The boss is locked on me — help!】\n{{/if}}\n{{#if rapid_damage_danger}}\n【Taking heavy damage — help!】\n{{/if}}\n{{#if no_wasd_for_10s}}\n【I haven't moved for 10 seconds】\n{{/if}}\n{{#if no_dps_for_10s}}\n【No damage for 10 seconds】\n{{/if}}\n{{#if has_latest_dps}}\nDPS: {{latest_dps}}\n{{/if}}\n";
/// Second English combat preset.
pub const DEFAULT_TEMPLATE_PRESET_2_ENGLISH: &'static str = "{{#if is_self_boss_locked}}\n【The boss is locked on me — attack it!】\n{{/if}}\n{{#if no_wasd_for_10s}}\n【I haven't moved for 10 seconds】\n{{/if}}\n{{#if no_dps_for_10s}}\n【No damage for 10 seconds】\n{{/if}}\n{{#if has_round_damage_taken}}\nDamage taken: {{round_damage_taken}}\n{{/if}}\n";
/// First English report preset.
pub const DEFAULT_ROUND_REPORT_TEMPLATE_ENGLISH: &'static str = "【Round report】\nTime {{round_duration}} | Damage {{round_total_damage}}\nAvg {{round_report_effective_dps}} DPS | Peak {{round_max_dps}} DPS\n{{#if has_step_estimate}}\nRound {{current_step}} | {{until_boss_step}} rounds before Jim\n{{/if}}\n";
/// Second English report preset.
pub const DEFAULT_ROUND_REPORT_TEMPLATE_PRESET_2_ENGLISH: &'static str = "【Round report】\nTime {{round_duration}} | Taken {{round_report_damage_taken}}\nLongest standstill {{round_longest_standstill}}s\n{{#if has_step_estimate}}\n{{until_boss_step}} rounds before Jim\n{{/if}}\n";

pub const VERSION_5_DEFAULT_TEMPLATE: &'static str = "{{#if has_latest_dps}}\nDPS: {{latest_dps}}\n30S DPS: {{ave_dps}}\nROUND DPS: {{round_ave_dps}}\n{{/if}}\n{{#if has_max_dps}}\nMAX DPS: {{max_dps}}\n{{/if}}\n{{#if has_boss_lock}}\nBOSS LOCK: {{boss_lock}}\n{{/if}}";
pub const VERSION_5_DEFAULT_ROUND_REPORT_TEMPLATE: &'static str = "【回合战报】\n用时 {{round_duration}}｜总输出 {{round_total_damage}}\n峰值 {{round_max_dps}} DPS｜平均 {{round_report_ave_dps}} DPS";
pub const VERSION_10_DEFAULT_ROUND_REPORT_TEMPLATE: &'static str = "【回合战报】\n用时 {{round_duration}}｜输出 {{round_total_damage}}｜承伤 {{round_report_damage_taken}}\n有效 {{round_report_effective_dps}} DPS｜10秒爆发 {{round_report_burst_10s}}";
pub const VERSION_13_DEFAULT_TEMPLATE: &'static str = "{{#if has_latest_dps}}\nDPS: {{latest_dps}}\n有效 DPS: {{round_effective_dps}}\n10S 爆发: {{round_burst_10s}}\n{{/if}}\n{{#if has_round_damage_taken}}\n回合承伤: {{round_damage_taken}}\n{{/if}}\n{{#if boss_lock}}\nBOSS LOCK: {{boss_lock}}\n{{/if}}";
pub const VERSION_13_DEFAULT_ROUND_REPORT_TEMPLATE: &'static str = "【回合战报】\n用时 {{round_duration}}｜输出 {{round_total_damage}}｜承伤 {{round_report_damage_taken}}\n有效 {{round_report_effective_dps}} DPS｜10秒爆发 {{round_report_burst_10s}}\n站桩 {{round_longest_standstill}}";
pub const VERSION_15_DEFAULT_ROUND_REPORT_TEMPLATE: &'static str = "【回合战报】\n用时 {{round_duration}}｜我打了 {{round_total_damage}}\n平均 {{round_report_effective_dps}} DPS｜最高 {{round_max_dps}} DPS";
pub const VERSION_15_DEFAULT_ROUND_REPORT_TEMPLATE_PRESET_2: &'static str = "【回合战报】\n用时 {{round_duration}}｜被草 {{round_report_damage_taken}}\n最长站桩 {{round_longest_standstill}}s";
pub const VERSION_16_DEFAULT_TEMPLATE_ENGLISH: &'static str = "{{#if is_self_boss_locked}}\n【Boss is targeting me — help!】\n{{/if}}\n{{#if rapid_damage_danger}}\n【Taking heavy damage — help!】\n{{/if}}\n{{#if no_wasd_for_10s}}\n【I haven't moved for 10 seconds】\n{{/if}}\n{{#if no_dps_for_10s}}\n【No damage for 10 seconds】\n{{/if}}\n{{#if has_latest_dps}}\nDPS: {{latest_dps}}\n{{/if}}\n";
pub const VERSION_16_DEFAULT_TEMPLATE_PRESET_2_ENGLISH: &'static str = "{{#if is_self_boss_locked}}\n【Boss is targeting me — attack it!】\n{{/if}}\n{{#if no_wasd_for_10s}}\n【I haven't moved for 10 seconds】\n{{/if}}\n{{#if no_dps_for_10s}}\n【No damage for 10 seconds】\n{{/if}}\n{{#if has_round_damage_taken}}\nDamage taken: {{round_damage_taken}}\n{{/if}}\n";
pub const VERSION_17_DEFAULT_ROUND_REPORT_TEMPLATE_PRESET_2: &'static str = "【回合战报】\n用时 {{round_duration}}｜被草 {{round_report_damage_taken}}\n最长站桩 {{round_longest_standstill}}s\n{{#if has_step_estimate}}\n预计距 Jim 还有 {{until_boss_step}} 回合\n{{/if}}\n";

// ---------------------------------------------------------------------------
// Content of a configuration
// ---------------------------------------------------------------------------

pub open spec fn texts_view(a: Seq<String>) -> Seq<Seq<char>> {
    a.map_values(|s: String| s@)
}

pub open spec fn opt_text_view(o: Option<String>) -> Option<Seq<char>> {
    match o {
        Some(s) => Some(s@),
        None => None,
    }
}

/// The content of an [`AppConfig`].
#[verifier::ext_equal]
pub struct ConfigView {
    pub version: u32,
    pub language: Language,
    pub send_interval: SendInterval,
    pub message_template: Seq<char>,
    pub message_template_presets: Seq<Seq<char>>,
    pub message_template_preset_names: Seq<Seq<char>>,
    pub active_message_template_preset: usize,
    pub round_report_template: Seq<char>,
    pub round_report_template_presets: Seq<Seq<char>>,
    pub round_report_template_preset_names: Seq<Seq<char>>,
    pub active_round_report_template_preset: usize,
    pub display_name: Seq<char>,
    pub locked_sound_style: AlertSoundStyle,
    pub unlocked_sound_style: AlertSoundStyle,
    pub overlay_locked: bool,
    pub overlay_mouse_passthrough: bool,
    pub osc_enabled: bool,
    pub heart_rate_enabled: bool,
    pub osc_address: Seq<char>,
    pub stale_after_seconds: u64,
    pub log_path_override: Option<Seq<char>>,
}

impl View for AppConfig {
    type V = ConfigView;

    open spec fn view(&self) -> ConfigView {
        ConfigView {
            version: self.version,
            language: self.language,
            send_interval: self.send_interval,
            message_template: self.message_template@,
            message_template_presets: texts_view(self.message_template_presets@),
            message_template_preset_names: texts_view(self.message_template_preset_names@),
            active_message_template_preset: self.active_message_template_preset,
            round_report_template: self.round_report_template@,
            round_report_template_presets: texts_view(self.round_report_template_presets@),
            round_report_template_preset_names: texts_view(self.round_report_template_preset_names@),
            active_round_report_template_preset: self.active_round_report_template_preset,
            display_name: self.display_name@,
            locked_sound_style: self.locked_sound_style,
            unlocked_sound_style: self.unlocked_sound_style,
            overlay_locked: self.overlay_locked,
            overlay_mouse_passthrough: self.overlay_mouse_passthrough,
            osc_enabled: self.osc_enabled,
            heart_rate_enabled: self.heart_rate_enabled,
            osc_address: self.osc_address@,
            stale_after_seconds: self.stale_after_seconds,
            log_path_override: opt_text_view(self.log_path_override),
        }
    }
}

/// The built-in message presets of a language (the first one twice).
pub open spec fn default_messages(language: Language) -> Seq<Seq<char>> {
    match language {
        Language::English => seq![DEFAULT_TEMPLATE_ENGLISH@, DEFAULT_TEMPLATE_PRESET_2_ENGLISH@, DEFAULT_TEMPLATE_ENGLISH@],
        Language::Chinese => seq![DEFAULT_TEMPLATE@, DEFAULT_TEMPLATE_PRESET_2@, DEFAULT_TEMPLATE@],
    }
}

/// The built-in report presets of a language (the first one twice).
pub open spec fn default_reports(language: Language) -> Seq<Seq<char>> {
    match language {
        Language::English => seq![
            DEFAULT_ROUND_REPORT_TEMPLATE_ENGLISH@,
            DEFAULT_ROUND_REPORT_TEMPLATE_PRESET_2_ENGLISH@,
            DEFAULT_ROUND_REPORT_TEMPLATE_ENGLISH@,
        ],
        Language::Chinese => seq![
            DEFAULT_ROUND_REPORT_TEMPLATE@,
            DEFAULT_ROUND_REPORT_TEMPLATE_PRESET_2@,
            DEFAULT_ROUND_REPORT_TEMPLATE@,
        ],
    }
}

/// The built-in name of preset `index` (zero-based): "Preset n" or "预设 n".
pub open spec fn default_name(language: Language, index: nat) -> Seq<char> {
    replaced(catalog(Text::PresetFallback).spec_get(language)@, "{index}"@, decimal_text(index + 1))
}

pub open spec fn default_names(language: Language) -> Seq<Seq<char>> {
    seq![default_name(language, 0), default_name(language, 1), default_name(language, 2)]
}

fn to_string(s: &str) -> (r: String)
    ensures
        r@ == s@,
{
    crate::text::owned(s)
}

fn texts3(a: &str, b: &str, c: &str) -> (r: [String; 3])
    ensures
        texts_view(r@) == seq![a@, b@, c@],
{
    let r = [to_string(a), to_string(b), to_string(c)];
    assert(texts_view(r@) =~= seq![a@, b@, c@]);
    r
}

/// The built-in message presets of `language`.
pub fn default_message_template_presets(language: Language) -> (r: [String; 3])
    ensures
        texts_view(r@) == default_messages(language),
{
    match language {
        Language::English => texts3(DEFAULT_TEMPLATE_ENGLISH, DEFAULT_TEMPLATE_PRESET_2_ENGLISH, DEFAULT_TEMPLATE_ENGLISH),
        Language::Chinese => texts3(DEFAULT_TEMPLATE, DEFAULT_TEMPLATE_PRESET_2, DEFAULT_TEMPLATE),
    }
}

/// The built-in report presets of `language`.
pub fn default_round_report_template_presets(language: Language) -> (r: [String; 3])
    ensures
        texts_view(r@) == default_reports(language),
{
    match language {
        Language::English => texts3(
            DEFAULT_ROUND_REPORT_TEMPLATE_ENGLISH,
            DEFAULT_ROUND_REPORT_TEMPLATE_PRESET_2_ENGLISH,
            DEFAULT_ROUND_REPORT_TEMPLATE_ENGLISH,
        ),
        Language::Chinese => texts3(
            DEFAULT_ROUND_REPORT_TEMPLATE,
            DEFAULT_ROUND_REPORT_TEMPLATE_PRESET_2,
            DEFAULT_ROUND_REPORT_TEMPLATE,
        ),
    }
}

fn default_preset_name(language: Language, index: u64) -> (r: String)
    requires
        index < 3,
    ensures
        r@ == default_name(language, index as nat),
{
    let pattern = chars_of(text(Text::PresetFallback).get(language));
    let key = chars_of("{index}");
    proof {
        reveal_strlit("{index}");
    }
    let value = decimal_chars(index + 1);
    let r = replace_all(&pattern, &key, &value);
    string_of(&r)
}

/// The built-in preset names of `language`.
pub fn default_template_preset_names(language: Language) -> (r: [String; 3])
    ensures
        texts_view(r@) == default_names(language),
{
    let r = [default_preset_name(language, 0), default_preset_name(language, 1), default_preset_name(language, 2)];
    assert(texts_view(r@) =~= default_names(language));
    r
}

/// The default settings for `language`.
pub open spec fn default_config(language: Language) -> ConfigView {
    ConfigView {
        version: CONFIG_VERSION,
        language,
        send_interval: SendInterval::One,
        message_template: default_messages(language)[0],
        message_template_presets: default_messages(language),
        message_template_preset_names: default_names(language),
        active_message_template_preset: 0,
        round_report_template: default_reports(language)[0],
        round_report_template_presets: default_reports(language),
        round_report_template_preset_names: default_names(language),
        active_round_report_template_preset: 0,
        display_name: Seq::empty(),
        locked_sound_style: AlertSoundStyle::Soft,
        unlocked_sound_style: AlertSoundStyle::Soft,
        overlay_locked: true,
        overlay_mouse_passthrough: true,
        osc_enabled: true,
        heart_rate_enabled: false,
        osc_address: "127.0.0.1:9000"@,
        stale_after_seconds: 10,
        log_path_override: None,
    }
}

impl Default for AppConfig {
    /// The default settings in the system's language.
    fn default() -> (r: Self)
        ensures
            r@ == default_config(Language::English) || r@ == default_config(Language::Chinese),
    {
        AppConfig::defaults_for_language(Language::system_default())
    }
}

impl AppConfig {
    /// The default settings for `language`.
    pub fn defaults_for_language(language: Language) -> (r: Self)
        ensures
            r@ == default_config(language),
    {
        let messages = default_message_template_presets(language);
        let reports = default_round_report_template_presets(language);
        let message_template = messages[0].clone();
        let round_report_template = reports[0].clone();
        let r = AppConfig {
            version: CONFIG_VERSION,
            language,
            send_interval: SendInterval::One,
            message_template,
            message_template_presets: messages,
            message_template_preset_names: default_template_preset_names(language),
            active_message_template_preset: 0,
            round_report_template,
            round_report_template_presets: reports,
            round_report_template_preset_names: default_template_preset_names(language),
            active_round_report_template_preset: 0,
            display_name: string_of(&Vec::new()),
            locked_sound_style: AlertSoundStyle::Soft,
            unlocked_sound_style: AlertSoundStyle::Soft,
            overlay_locked: true,
            overlay_mouse_passthrough: true,
            osc_enabled: true,
            heart_rate_enabled: false,
            osc_address: to_string("127.0.0.1:9000"),
            stale_after_seconds: 10,
            log_path_override: None,
        };
        assert(r@ =~= default_config(language));
        r
    }

    /// Whether the overlay accepts drag input: unlocked and not passing the
    /// mouse through.
    pub fn overlay_draggable(&self) -> (r: bool)
        ensures
            r == (!self.overlay_locked && !self.overlay_mouse_passthrough),
    {
        !self.overlay_locked && !self.overlay_mouse_passthrough
    }

    /// Sets both overlay flags from one drag state.
    pub fn set_overlay_draggable(&mut self, draggable: bool)
        ensures
            final(self)@ == (ConfigView {
                overlay_locked: !draggable,
                overlay_mouse_passthrough: !draggable,
                ..old(self)@
            }),
    {
        self.overlay_locked = !draggable;
        self.overlay_mouse_passthrough = !draggable;
    }
}


// ---------------------------------------------------------------------------
// Presets
// ---------------------------------------------------------------------------

fn texts_equal(a: &String, b: &String) -> (r: bool)
    ensures
        r == (a@ == b@),
{
    let x = chars_of(a.as_str());
    let y = chars_of(b.as_str());
    chars_eq(&x, &y)
}

/// The three texts with slot `i` replaced by `v`.
fn replace_slot(a: &[String; 3], i: usize, v: &String) -> (r: [String; 3])
    requires
        i < 3,
    ensures
        texts_view(r@) == texts_view(a@).update(i as int, v@),
{
    let r = [
        if i == 0 {
            v.clone()
        } else {
            a[0].clone()
        },
        if i == 1 {
            v.clone()
        } else {
            a[1].clone()
        },
        if i == 2 {
            v.clone()
        } else {
            a[2].clone()
        },
    ];
    assert(texts_view(r@) =~= texts_view(a@).update(i as int, v@));
    r
}

/// The presets with the live text stored into the active slot (when the
/// active index is valid).
pub open spec fn synced(presets: Seq<Seq<char>>, active: usize, live: Seq<char>) -> Seq<Seq<char>> {
    if active < 3 {
        presets.update(active as int, live)
    } else {
        presets
    }
}

pub open spec fn message_selected(c: ConfigView, preset: usize) -> ConfigView {
    let presets = synced(c.message_template_presets, c.active_message_template_preset, c.message_template);
    ConfigView {
        message_template_presets: presets,
        active_message_template_preset: preset,
        message_template: presets[preset as int],
        ..c
    }
}

pub open spec fn report_selected(c: ConfigView, preset: usize) -> ConfigView {
    let presets = synced(
        c.round_report_template_presets,
        c.active_round_report_template_preset,
        c.round_report_template,
    );
    ConfigView {
        round_report_template_presets: presets,
        active_round_report_template_preset: preset,
        round_report_template: presets[preset as int],
        ..c
    }
}

/// Whether a text is one of two built-ins.
pub open spec fn localized_text(v: Seq<char>, chinese: Seq<char>, english: Seq<char>, target: Seq<char>) -> Seq<char> {
    if v == chinese || v == english {
        target
    } else {
        v
    }
}

pub open spec fn localized_slots(
    v: Seq<Seq<char>>,
    chinese: Seq<Seq<char>>,
    english: Seq<Seq<char>>,
    target: Seq<Seq<char>>,
) -> Seq<Seq<char>> {
    seq![
        localized_text(v[0], chinese[0], english[0], target[0]),
        localized_text(v[1], chinese[1], english[1], target[1]),
        localized_text(v[2], chinese[2], english[2], target[2]),
    ]
}

/// The configuration in `language`: untouched built-in presets, names and
/// live templates are translated; anything edited, even by white space, is
/// kept.
pub open spec fn localized_config(c: ConfigView, language: Language) -> ConfigView {
    let zm = default_messages(Language::Chinese);
    let em = default_messages(Language::English);
    let tm = default_messages(language);
    let zr = default_reports(Language::Chinese);
    let er = default_reports(Language::English);
    let tr = default_reports(language);
    let zn = default_names(Language::Chinese);
    let en = default_names(Language::English);
    let tn = default_names(language);
    ConfigView {
        language,
        message_template: localized_text(
            localized_text(c.message_template, zm[0], em[0], tm[0]),
            zm[1],
            em[1],
            tm[1],
        ),
        round_report_template: localized_text(
            localized_text(c.round_report_template, zr[0], er[0], tr[0]),
            zr[1],
            er[1],
            tr[1],
        ),
        message_template_presets: localized_slots(c.message_template_presets, zm, em, tm),
        message_template_preset_names: localized_slots(c.message_template_preset_names, zn, en, tn),
        round_report_template_presets: localized_slots(c.round_report_template_presets, zr, er, tr),
        round_report_template_preset_names: localized_slots(c.round_report_template_preset_names, zn, en, tn),
        ..c
    }
}

fn localize_builtin_value(value: &String, chinese: &String, english: &String, target: &String) -> (r: String)
    ensures
        r@ == localized_text(value@, chinese@, english@, target@),
{
    if texts_equal(value, chinese) || texts_equal(value, english) {
        target.clone()
    } else {
        value.clone()
    }
}

fn localize_slots(v: &[String; 3], chinese: &[String; 3], english: &[String; 3], target: &[String; 3]) -> (r: [String; 3])
    ensures
        texts_view(r@) == localized_slots(texts_view(v@), texts_view(chinese@), texts_view(english@), texts_view(target@)),
{
    let r = [
        localize_builtin_value(&v[0], &chinese[0], &english[0], &target[0]),
        localize_builtin_value(&v[1], &chinese[1], &english[1], &target[1]),
        localize_builtin_value(&v[2], &chinese[2], &english[2], &target[2]),
    ];
    assert(texts_view(r@) =~= localized_slots(texts_view(v@), texts_view(chinese@), texts_view(english@), texts_view(target@)));
    r
}

fn copy_texts(a: &[String; 3]) -> (r: [String; 3])
    ensures
        texts_view(r@) == texts_view(a@),
{
    let r = [a[0].clone(), a[1].clone(), a[2].clone()];
    assert(texts_view(r@) =~= texts_view(a@));
    r
}

fn copy_opt(o: &Option<String>) -> (r: Option<String>)
    ensures
        opt_text_view(r) == opt_text_view(*o),
{
    match o {
        Some(s) => Some(s.clone()),
        None => None,
    }
}

impl AppConfig {
    /// An equal, independent configuration.
    pub fn duplicate(&self) -> (r: Self)
        ensures
            r@ == self@,
    {
        let r = AppConfig {
            version: self.version,
            language: self.language,
            send_interval: self.send_interval,
            message_template: self.message_template.clone(),
            message_template_presets: copy_texts(&self.message_template_presets),
            message_template_preset_names: copy_texts(&self.message_template_preset_names),
            active_message_template_preset: self.active_message_template_preset,
            round_report_template: self.round_report_template.clone(),
            round_report_template_presets: copy_texts(&self.round_report_template_presets),
            round_report_template_preset_names: copy_texts(&self.round_report_template_preset_names),
            active_round_report_template_preset: self.active_round_report_template_preset,
            display_name: self.display_name.clone(),
            locked_sound_style: self.locked_sound_style,
            unlocked_sound_style: self.unlocked_sound_style,
            overlay_locked: self.overlay_locked,
            overlay_mouse_passthrough: self.overlay_mouse_passthrough,
            osc_enabled: self.osc_enabled,
            heart_rate_enabled: self.heart_rate_enabled,
            osc_address: self.osc_address.clone(),
            stale_after_seconds: self.stale_after_seconds,
            log_path_override: copy_opt(&self.log_path_override),
        };
        assert(r@ =~= self@);
        r
    }

    /// A copy in `language` whose untouched built-in texts are translated.
    pub fn with_localized_defaults(&self, language: Language) -> (r: Self)
        ensures
            r@ == localized_config(self@, language),
    {
        let zm = default_message_template_presets(Language::Chinese);
        let em = default_message_template_presets(Language::English);
        let tm = default_message_template_presets(language);
        let zr = default_round_report_template_presets(Language::Chinese);
        let er = default_round_report_template_presets(Language::English);
        let tr = default_round_report_template_presets(language);
        let zn = default_template_preset_names(Language::Chinese);
        let en = default_template_preset_names(Language::English);
        let tn = default_template_preset_names(language);
        let m0 = localize_builtin_value(&self.message_template, &zm[0], &em[0], &tm[0]);
        let message_template = localize_builtin_value(&m0, &zm[1], &em[1], &tm[1]);
        let r0 = localize_builtin_value(&self.round_report_template, &zr[0], &er[0], &tr[0]);
        let round_report_template = localize_builtin_value(&r0, &zr[1], &er[1], &tr[1]);
        let mut r = self.duplicate();
        r.language = language;
        r.message_template = message_template;
        r.round_report_template = round_report_template;
        r.message_template_presets = localize_slots(&self.message_template_presets, &zm, &em, &tm);
        r.message_template_preset_names = localize_slots(&self.message_template_preset_names, &zn, &en, &tn);
        r.round_report_template_presets = localize_slots(&self.round_report_template_presets, &zr, &er, &tr);
        r.round_report_template_preset_names = localize_slots(&self.round_report_template_preset_names, &zn, &en, &tn);
        assert(r@ =~= localized_config(self@, language));
        r
    }

    /// Stores the live message template into its active preset slot.
    pub fn sync_active_message_template_preset(&mut self)
        ensures
            final(self)@ == (ConfigView {
                message_template_presets: synced(
                    old(self)@.message_template_presets,
                    old(self)@.active_message_template_preset,
                    old(self)@.message_template,
                ),
                ..old(self)@
            }),
    {
        let active = self.active_message_template_preset;
        if active < 3 {
            let updated = replace_slot(&self.message_template_presets, active, &self.message_template);
            self.message_template_presets = updated;
        }
    }

    /// Keeps the edits of the current slot and loads preset `preset`;
    /// refuses an index outside the presets.
    pub fn select_message_template_preset(&mut self, preset: usize) -> (r: bool)
        ensures
            r == (preset < MESSAGE_TEMPLATE_PRESET_COUNT),
            r ==> final(self)@ == message_selected(old(self)@, preset),
            !r ==> final(self)@ == old(self)@,
    {
        if preset >= MESSAGE_TEMPLATE_PRESET_COUNT {
            return false;
        }
        self.sync_active_message_template_preset();
        self.active_message_template_preset = preset;
        self.message_template = self.message_template_presets[preset].clone();
        true
    }

    /// Restores the active message preset to its built-in text in the
    /// current language; refuses an invalid active index.
    pub fn reset_active_message_template_to_default(&mut self) -> (r: bool)
        ensures
            r == (old(self).active_message_template_preset < MESSAGE_TEMPLATE_PRESET_COUNT),
            r ==> final(self)@ == (ConfigView {
                message_template_presets: old(self)@.message_template_presets.update(
                    old(self).active_message_template_preset as int,
                    default_messages(old(self).language)[old(self).active_message_template_preset as int],
                ),
                message_template: default_messages(old(self).language)[old(self).active_message_template_preset as int],
                ..old(self)@
            }),
            !r ==> final(self)@ == old(self)@,
    {
        let preset = self.active_message_template_preset;
        if preset >= MESSAGE_TEMPLATE_PRESET_COUNT {
            return false;
        }
        let defaults = default_message_template_presets(self.language);
        let value = defaults[preset].clone();
        let updated = replace_slot(&self.message_template_presets, preset, &value);
        self.message_template_presets = updated;
        self.message_template = value;
        true
    }

    /// Stores the live report template into its active preset slot.
    pub fn sync_active_round_report_template_preset(&mut self)
        ensures
            final(self)@ == (ConfigView {
                round_report_template_presets: synced(
                    old(self)@.round_report_template_presets,
                    old(self)@.active_round_report_template_preset,
                    old(self)@.round_report_template,
                ),
                ..old(self)@
            }),
    {
        let active = self.active_round_report_template_preset;
        if active < 3 {
            let updated = replace_slot(&self.round_report_template_presets, active, &self.round_report_template);
            self.round_report_template_presets = updated;
        }
    }

    /// Keeps the edits of the current slot and loads report preset
    /// `preset`; refuses an index outside the presets.
    pub fn select_round_report_template_preset(&mut self, preset: usize) -> (r: bool)
        ensures
            r == (preset < ROUND_REPORT_TEMPLATE_PRESET_COUNT),
            r ==> final(self)@ == report_selected(old(self)@, preset),
            !r ==> final(self)@ == old(self)@,
    {
        if preset >= ROUND_REPORT_TEMPLATE_PRESET_COUNT {
            return false;
        }
        self.sync_active_round_report_template_preset();
        self.active_round_report_template_preset = preset;
        self.round_report_template = self.round_report_template_presets[preset].clone();
        true
    }

    /// Restores the active report preset to its built-in text in the
    /// current language; refuses an invalid active index.
    pub fn reset_active_round_report_template_to_default(&mut self) -> (r: bool)
        ensures
            r == (old(self).active_round_report_template_preset < ROUND_REPORT_TEMPLATE_PRESET_COUNT),
            r ==> final(self)@ == (ConfigView {
                round_report_template_presets: old(self)@.round_report_template_presets.update(
                    old(self).active_round_report_template_preset as int,
                    default_reports(old(self).language)[old(self).active_round_report_template_preset as int],
                ),
                round_report_template: default_reports(old(self).language)[old(self).active_round_report_template_preset as int],
                ..old(self)@
            }),
            !r ==> final(self)@ == old(self)@,
    {
        let preset = self.active_round_report_template_preset;
        if preset >= ROUND_REPORT_TEMPLATE_PRESET_COUNT {
            return false;
        }
        let defaults = default_round_report_template_presets(self.language);
        let value = defaults[preset].clone();
        let updated = replace_slot(&self.round_report_template_presets, preset, &value);
        self.round_report_template_presets = updated;
        self.round_report_template = value;
        true
    }
}


// ---------------------------------------------------------------------------
// Validation
// ---------------------------------------------------------------------------

/// Why a configuration is refused: the message shown to the user.
#[derive(Debug, Clone, PartialEq, Eq)]
pub struct ConfigError {
    pub message: String,
}

impl ConfigError {
    /// The message shown to the user.
    pub fn to_string(&self) -> (r: String)
        ensures
            r@ == self.message@,
    {
        self.message.clone()
    }
}

pub open spec fn err_view(r: Result<(), ConfigError>) -> Result<(), Seq<char>> {
    match r {
        Ok(_) => Ok(()),
        Err(e) => Err(e.message@),
    }
}

pub open spec fn entry(key: Text, language: Language) -> Seq<char> {
    catalog(key).spec_get(language)@
}

/// The variables a template is checked against: every variable with a
/// placeholder value.
pub open spec fn validation_values() -> Seq<(Seq<char>, ValueView)> {
    seq![
        ("latest_dps"@, ValueView::Text(dash())),
        ("avg_dps"@, ValueView::Text(dash())),
        ("round_avg_dps"@, ValueView::Text(dash())),
        ("round_effective_dps"@, ValueView::Text(dash())),
        ("round_burst_10s"@, ValueView::Text(dash())),
        ("round_damage_taken"@, ValueView::Text(seq!['0'])),
        ("max_dps"@, ValueView::Text(dash())),
        ("boss_lock"@, ValueView::Text(Seq::empty())),
        ("boss"@, ValueView::Text(Seq::empty())),
        ("heart_rate"@, ValueView::Text(dash())),
        ("has_heart_rate"@, ValueView::Flag(false)),
        ("has_latest_dps"@, ValueView::Flag(false)),
        ("has_avg_dps"@, ValueView::Flag(false)),
        ("has_round_avg_dps"@, ValueView::Flag(false)),
        ("has_round_effective_dps"@, ValueView::Flag(false)),
        ("has_round_burst_10s"@, ValueView::Flag(false)),
        ("has_round_damage_taken"@, ValueView::Flag(false)),
        ("has_max_dps"@, ValueView::Flag(false)),
        ("is_self_boss_locked"@, ValueView::Flag(false)),
        ("rapid_damage_danger"@, ValueView::Flag(false)),
        ("no_dps_for_10s"@, ValueView::Flag(false)),
        ("no_wasd_for_10s"@, ValueView::Flag(false)),
        ("has_round_duration"@, ValueView::Flag(false)),
        ("has_round_report_avg_dps"@, ValueView::Flag(false)),
        ("has_round_max_dps"@, ValueView::Flag(false)),
        ("has_round_report_effective_dps"@, ValueView::Flag(false)),
        ("has_round_report_burst_10s"@, ValueView::Flag(false)),
        ("has_dps_growth_rate"@, ValueView::Flag(false)),
        ("has_round_dps_growth_rate"@, ValueView::Flag(false)),
        ("has_round_longest_standstill"@, ValueView::Flag(false)),
        ("has_step_estimate"@, ValueView::Flag(false)),
        ("current_step"@, ValueView::Text(dash())),
        ("until_boss_step"@, ValueView::Text(dash())),
        ("round_duration"@, ValueView::Text(dash())),
        ("round_total_damage"@, ValueView::Text(dash())),
        ("round_report_avg_dps"@, ValueView::Text(dash())),
        ("round_max_dps"@, ValueView::Text(dash())),
        ("round_report_effective_dps"@, ValueView::Text(dash())),
        ("round_report_burst_10s"@, ValueView::Text(dash())),
        ("dps_growth_rate"@, ValueView::Text(seq!['0'])),
        ("round_dps_growth_rate"@, ValueView::Text(seq!['0'])),
        ("round_report_damage_taken"@, ValueView::Text(dash())),
        ("round_longest_standstill"@, ValueView::Text(dash()))
    ]
}

/// A template is valid when it parses and renders over every variable;
/// the refusal names which of the two failed.
pub open spec fn template_check(source: Seq<char>, language: Language) -> Result<(), Seq<char>> {
    match handlebars_output(source, validation_values(), STRICT_TEMPLATES) {
        Ok(_) => Ok(()),
        Err(FailureView::Syntax(_)) => Err(entry(Text::TemplateSyntaxError, language)),
        Err(FailureView::Render(_)) => Err(entry(Text::TemplateUnknownVariable, language)),
    }
}

fn push_value(v: &mut Vec<(String, TemplateValue)>, name: &str, value: TemplateValue)
    ensures
        values_view(final(v)@) == values_view(old(v)@).push((name@, value.view())),
{
    let ghost before = v@;
    v.push((to_string(name), value));
    assert(values_view(v@) =~= values_view(before).push((name@, value.view())));
}

fn validation_value_list() -> (r: Vec<(String, TemplateValue)>)
    ensures
        values_view(r@) == validation_values(),
{
    proof {
        reveal_strlit("-");
        reveal_strlit("0");
        reveal_strlit("");
        assert("-"@ =~= dash());
        assert("0"@ =~= seq!['0']);
        assert(""@ =~= Seq::<char>::empty());
    }
    let mut v: Vec<(String, TemplateValue)> = Vec::new();
    assert(values_view(v@) =~= Seq::empty());
    push_value(&mut v, "latest_dps", TemplateValue::Text(to_string("-")));
    push_value(&mut v, "avg_dps", TemplateValue::Text(to_string("-")));
    push_value(&mut v, "round_avg_dps", TemplateValue::Text(to_string("-")));
    push_value(&mut v, "round_effective_dps", TemplateValue::Text(to_string("-")));
    push_value(&mut v, "round_burst_10s", TemplateValue::Text(to_string("-")));
    push_value(&mut v, "round_damage_taken", TemplateValue::Text(to_string("0")));
    push_value(&mut v, "max_dps", TemplateValue::Text(to_string("-")));
    push_value(&mut v, "boss_lock", TemplateValue::Text(to_string("")));
    push_value(&mut v, "boss", TemplateValue::Text(to_string("")));
    push_value(&mut v, "heart_rate", TemplateValue::Text(to_string("-")));
    push_value(&mut v, "has_heart_rate", TemplateValue::Flag(false));
    push_value(&mut v, "has_latest_dps", TemplateValue::Flag(false));
    push_value(&mut v, "has_avg_dps", TemplateValue::Flag(false));
    push_value(&mut v, "has_round_avg_dps", TemplateValue::Flag(false));
    push_value(&mut v, "has_round_effective_dps", TemplateValue::Flag(false));
    push_value(&mut v, "has_round_burst_10s", TemplateValue::Flag(false));
    push_value(&mut v, "has_round_damage_taken", TemplateValue::Flag(false));
    push_value(&mut v, "has_max_dps", TemplateValue::Flag(false));
    push_value(&mut v, "is_self_boss_locked", TemplateValue::Flag(false));
    push_value(&mut v, "rapid_damage_danger", TemplateValue::Flag(false));
    push_value(&mut v, "no_dps_for_10s", TemplateValue::Flag(false));
    push_value(&mut v, "no_wasd_for_10s", TemplateValue::Flag(false));
    push_value(&mut v, "has_round_duration", TemplateValue::Flag(false));
    push_value(&mut v, "has_round_report_avg_dps", TemplateValue::Flag(false));
    push_value(&mut v, "has_round_max_dps", TemplateValue::Flag(false));
    push_value(&mut v, "has_round_report_effective_dps", TemplateValue::Flag(false));
    push_value(&mut v, "has_round_report_burst_10s", TemplateValue::Flag(false));
    push_value(&mut v, "has_dps_growth_rate", TemplateValue::Flag(false));
    push_value(&mut v, "has_round_dps_growth_rate", TemplateValue::Flag(false));
    push_value(&mut v, "has_round_longest_standstill", TemplateValue::Flag(false));
    push_value(&mut v, "has_step_estimate", TemplateValue::Flag(false));
    push_value(&mut v, "current_step", TemplateValue::Text(to_string("-")));
    push_value(&mut v, "until_boss_step", TemplateValue::Text(to_string("-")));
    push_value(&mut v, "round_duration", TemplateValue::Text(to_string("-")));
    push_value(&mut v, "round_total_damage", TemplateValue::Text(to_string("-")));
    push_value(&mut v, "round_report_avg_dps", TemplateValue::Text(to_string("-")));
    push_value(&mut v, "round_max_dps", TemplateValue::Text(to_string("-")));
    push_value(&mut v, "round_report_effective_dps", TemplateValue::Text(to_string("-")));
    push_value(&mut v, "round_report_burst_10s", TemplateValue::Text(to_string("-")));
    push_value(&mut v, "dps_growth_rate", TemplateValue::Text(to_string("0")));
    push_value(&mut v, "round_dps_growth_rate", TemplateValue::Text(to_string("0")));
    push_value(&mut v, "round_report_damage_taken", TemplateValue::Text(to_string("-")));
    push_value(&mut v, "round_longest_standstill", TemplateValue::Text(to_string("-")));
    assert(values_view(v@) =~= validation_values());
    v
}

fn error_of(key: Text, language: Language) -> (r: ConfigError)
    ensures
        r.message@ == entry(key, language),
{
    ConfigError { message: to_string(text(key).get(language)) }
}

/// Checks that `source` parses and renders over every template variable.
pub fn validate_template(source: &str, language: Language) -> (r: Result<(), ConfigError>)
    ensures
        err_view(r) == template_check(source@, language),
{
    let values = validation_value_list();
    match render_handlebars(source, &values, STRICT_TEMPLATES) {
        Ok(_) => Ok(()),
        Err(RenderFailure::Syntax(_)) => Err(error_of(Text::TemplateSyntaxError, language)),
        Err(RenderFailure::Render(_)) => Err(error_of(Text::TemplateUnknownVariable, language)),
    }
}

/// `{key}` placeholders of a catalog entry filled with the given texts.
pub open spec fn filled(key: Text, language: Language, pairs: Seq<(Seq<char>, Seq<char>)>) -> Seq<char> {
    patterned(entry(key, language), pairs)
}

fn fill(key: Text, language: Language, pairs: Vec<(String, String)>) -> (r: ConfigError)
    ensures
        r.message@ == filled(key, language, pairs_view(pairs@)),
{
    ConfigError { message: format_pattern(text(key), language, pairs.as_slice()) }
}

fn pair(key: &str, value: String) -> (r: (String, String))
    ensures
        r.0@ == key@,
        r.1@ == value@,
{
    (to_string(key), value)
}

/// Names must be non-empty after trimming and at most 24 characters.
pub open spec fn names_check(names: Seq<Seq<char>>, kind: Seq<char>, language: Language) -> Result<(), Seq<char>>
    decreases names.len(),
{
    names_check_from(names, 0, kind, language)
}

pub open spec fn names_check_from(names: Seq<Seq<char>>, i: int, kind: Seq<char>, language: Language) -> Result<(), Seq<char>>
    decreases names.len() - i,
{
    if i < 0 || i >= names.len() {
        Ok(())
    } else {
        let name = trimmed(names[i]);
        let index = decimal_text((i + 1) as nat);
        if name.len() == 0 {
            Err(filled(Text::PresetNameEmpty, language, seq![("kind"@, kind), ("index"@, index)]))
        } else if name.len() > TEMPLATE_PRESET_NAME_MAX_CHARS {
            Err(
                filled(
                    Text::PresetNameTooLong,
                    language,
                    seq![("kind"@, kind), ("index"@, index), ("max"@, decimal_text(24))],
                ),
            )
        } else {
            names_check_from(names, i + 1, kind, language)
        }
    }
}

/// Checks the preset names of one kind of template.
pub fn validate_template_preset_names(names: &[String; 3], kind: &str, language: Language) -> (r: Result<(), ConfigError>)
    ensures
        err_view(r) == names_check(texts_view(names@), kind@, language),
{
    let ghost v = texts_view(names@);
    let mut i: usize = 0;
    while i < 3
        invariant
            i <= 3,
            v == texts_view(names@),
            names_check(v, kind@, language) == names_check_from(v, i as int, kind@, language),
        decreases 3 - i,
    {
        let c = chars_of(names[i].as_str());
        let name = trim(&c);
        assert(c@ == v[i as int]);
        if name.len() == 0 {
            let pairs = vec![pair("kind", to_string(kind)), pair("index", decimal_string((i + 1) as u64))];
            assert(pairs_view(pairs@) =~= seq![("kind"@, kind@), ("index"@, decimal_text((i + 1) as nat))]);
            return Err(fill(Text::PresetNameEmpty, language, pairs));
        }
        if name.len() > TEMPLATE_PRESET_NAME_MAX_CHARS {
            let pairs = vec![
                pair("kind", to_string(kind)),
                pair("index", decimal_string((i + 1) as u64)),
                pair("max", decimal_string(24)),
            ];
            assert(pairs_view(pairs@) =~= seq![
                ("kind"@, kind@),
                ("index"@, decimal_text((i + 1) as nat)),
                ("max"@, decimal_text(24)),
            ]);
            return Err(fill(Text::PresetNameTooLong, language, pairs));
        }
        i = i + 1;
    }
    Ok(())
}

/// Every preset of one kind must be a valid template; the first invalid
/// one is named by its one-based index.
pub open spec fn presets_check(presets: Seq<Seq<char>>, invalid: Text, language: Language) -> Result<(), Seq<char>> {
    presets_check_from(presets, 0, invalid, language)
}

pub open spec fn presets_check_from(presets: Seq<Seq<char>>, i: int, invalid: Text, language: Language) -> Result<(), Seq<char>>
    decreases presets.len() - i,
{
    if i < 0 || i >= presets.len() {
        Ok(())
    } else if template_check(presets[i], language) is Err {
        Err(filled(invalid, language, seq![("index"@, decimal_text((i + 1) as nat))]))
    } else {
        presets_check_from(presets, i + 1, invalid, language)
    }
}

fn validate_presets(presets: &[String; 3], invalid: Text, language: Language) -> (r: Result<(), ConfigError>)
    ensures
        err_view(r) == presets_check(texts_view(presets@), invalid, language),
{
    let ghost v = texts_view(presets@);
    let mut i: usize = 0;
    while i < 3
        invariant
            i <= 3,
            v == texts_view(presets@),
            presets_check(v, invalid, language) == presets_check_from(v, i as int, invalid, language),
        decreases 3 - i,
    {
        assert(presets[i as int]@ == v[i as int]);
        if validate_template(presets[i].as_str(), language).is_err() {
            let pairs = vec![pair("index", decimal_string((i + 1) as u64))];
            assert(pairs_view(pairs@) =~= seq![("index"@, decimal_text((i + 1) as nat))]);
            return Err(fill(invalid, language, pairs));
        }
        i = i + 1;
    }
    Ok(())
}

/// The verdict on a configuration, in the order the checks are made. The
/// alert volume and overlay size checks (decimal numbers) and the parse of
/// the OSC address as a socket address are given as their outcomes.
pub open spec fn config_check(c: ConfigView, volume_ok: bool, scale_ok: bool, address_ok: bool) -> Result<(), Seq<char>> {
    let l = c.language;
    if c.version > CONFIG_VERSION {
        Err(
            filled(
                Text::ConfigVersionUnsupported,
                l,
                seq![("version"@, decimal_text(c.version as nat)), ("supported"@, decimal_text(21))],
            ),
        )
    } else if !volume_ok {
        Err(entry(Text::VolumeInvalid, l))
    } else if !scale_ok {
        Err(entry(Text::OverlayScaleInvalid, l))
    } else if !(2 <= c.stale_after_seconds <= 300) {
        Err(entry(Text::StaleTimeInvalid, l))
    } else if !address_ok {
        Err(entry(Text::OscAddressInvalid, l))
    } else if c.active_message_template_preset >= MESSAGE_TEMPLATE_PRESET_COUNT {
        Err(filled(Text::MessagePresetRangeInvalid, l, seq![("count"@, decimal_text(3))]))
    } else if template_check(c.message_template, l) is Err {
        template_check(c.message_template, l)
    } else if presets_check(c.message_template_presets, Text::MessagePresetInvalid, l) is Err {
        presets_check(c.message_template_presets, Text::MessagePresetInvalid, l)
    } else if names_check(c.message_template_preset_names, entry(Text::MessageTemplateKind, l), l) is Err {
        names_check(c.message_template_preset_names, entry(Text::MessageTemplateKind, l), l)
    } else if c.active_round_report_template_preset >= ROUND_REPORT_TEMPLATE_PRESET_COUNT {
        Err(filled(Text::ReportPresetRangeInvalid, l, seq![("count"@, decimal_text(3))]))
    } else if template_check(c.round_report_template, l) is Err {
        Err(entry(Text::ReportTemplateInvalid, l))
    } else if presets_check(c.round_report_template_presets, Text::ReportPresetInvalid, l) is Err {
        presets_check(c.round_report_template_presets, Text::ReportPresetInvalid, l)
    } else {
        names_check(c.round_report_template_preset_names, entry(Text::ReportTemplateKind, l), l)
    }
}

impl AppConfig {
    /// Checks the configuration; the first failing check gives the error.
    /// `volume_ok` and `scale_ok` are the outcomes of the alert volume
    /// (within 0..=1) and overlay size (finite, within 0.5..=3) checks,
    /// `address_ok` whether the OSC address parses as a socket address.
    pub fn validate(&self, volume_ok: bool, scale_ok: bool, address_ok: bool) -> (r: Result<(), ConfigError>)
        ensures
            err_view(r) == config_check(self@, volume_ok, scale_ok, address_ok),
    {
        let l = self.language;
        if self.version > CONFIG_VERSION {
            let pairs = vec![pair("version", decimal_string(self.version as u64)), pair("supported", decimal_string(21))];
            assert(pairs_view(pairs@) =~= seq![
                ("version"@, decimal_text(self.version as nat)),
                ("supported"@, decimal_text(21)),
            ]);
            return Err(fill(Text::ConfigVersionUnsupported, l, pairs));
        }
        if !volume_ok {
            return Err(error_of(Text::VolumeInvalid, l));
        }
        if !scale_ok {
            return Err(error_of(Text::OverlayScaleInvalid, l));
        }
        if !(2 <= self.stale_after_seconds && self.stale_after_seconds <= 300) {
            return Err(error_of(Text::StaleTimeInvalid, l));
        }
        if !address_ok {
            return Err(error_of(Text::OscAddressInvalid, l));
        }
        if self.active_message_template_preset >= MESSAGE_TEMPLATE_PRESET_COUNT {
            let pairs = vec![pair("count", decimal_string(3))];
            assert(pairs_view(pairs@) =~= seq![("count"@, decimal_text(3))]);
            return Err(fill(Text::MessagePresetRangeInvalid, l, pairs));
        }
        let live = validate_template(self.message_template.as_str(), l);
        if live.is_err() {
            return live;
        }
        let presets = validate_presets(&self.message_template_presets, Text::MessagePresetInvalid, l);
        if presets.is_err() {
            return presets;
        }
        let names = validate_template_preset_names(
            &self.message_template_preset_names,
            text(Text::MessageTemplateKind).get(l),
            l,
        );
        if names.is_err() {
            return names;
        }
        if self.active_round_report_template_preset >= ROUND_REPORT_TEMPLATE_PRESET_COUNT {
            let pairs = vec![pair("count", decimal_string(3))];
            assert(pairs_view(pairs@) =~= seq![("count"@, decimal_text(3))]);
            return Err(fill(Text::ReportPresetRangeInvalid, l, pairs));
        }
        if validate_template(self.round_report_template.as_str(), l).is_err() {
            return Err(error_of(Text::ReportTemplateInvalid, l));
        }
        let reports = validate_presets(&self.round_report_template_presets, Text::ReportPresetInvalid, l);
        if reports.is_err() {
            return reports;
        }
        validate_template_preset_names(
            &self.round_report_template_preset_names,
            text(Text::ReportTemplateKind).get(l),
            l,
        )
    }
}


// ---------------------------------------------------------------------------
// Migrations of older configurations
// ---------------------------------------------------------------------------

/// `text` with each `(old, new)` replacement applied in order, every
/// occurrence of `old` at a time.
pub open spec fn replaced_in_order(text: Seq<char>, pairs: Seq<(Seq<char>, Seq<char>)>) -> Seq<char>
    decreases pairs.len(),
{
    if pairs.len() == 0 {
        text
    } else {
        replaced(replaced_in_order(text, pairs.drop_last()), pairs.last().0, pairs.last().1)
    }
}

fn replace_text(text: &String, old: &str, new: &str) -> (r: String)
    requires
        old@.len() > 0,
    ensures
        r@ == replaced(text@, old@, new@),
{
    let t = chars_of(text.as_str());
    let o = chars_of(old);
    let n = chars_of(new);
    let r = replace_all(&t, &o, &n);
    string_of(&r)
}

pub open spec fn average_renames() -> Seq<(Seq<char>, Seq<char>)> {
    seq![
        ("has_round_report_ave_dps"@, "has_round_report_avg_dps"@),
        ("round_report_ave_dps"@, "round_report_avg_dps"@),
        ("has_round_ave_dps"@, "has_round_avg_dps"@),
        ("round_ave_dps"@, "round_avg_dps"@),
        ("has_ave_dps"@, "has_avg_dps"@),
        ("ave_dps"@, "avg_dps"@),
    ]
}

/// Renames the misspelled average variables.
pub fn migrate_average_variable_names(template: &str) -> (r: String)
    ensures
        r@ == replaced_in_order(template@, average_renames()),
{
    proof {
        reveal_strlit("has_round_report_ave_dps");
        reveal_strlit("round_report_ave_dps");
        reveal_strlit("has_round_ave_dps");
        reveal_strlit("round_ave_dps");
        reveal_strlit("has_ave_dps");
        reveal_strlit("ave_dps");
        reveal_with_fuel(replaced_in_order, 7);
    }
    let t0 = to_string(template);
    let t1 = replace_text(&t0, "has_round_report_ave_dps", "has_round_report_avg_dps");
    let t2 = replace_text(&t1, "round_report_ave_dps", "round_report_avg_dps");
    let t3 = replace_text(&t2, "has_round_ave_dps", "has_round_avg_dps");
    let t4 = replace_text(&t3, "round_ave_dps", "round_avg_dps");
    let t5 = replace_text(&t4, "has_ave_dps", "has_avg_dps");
    replace_text(&t5, "ave_dps", "avg_dps")
}

pub open spec fn presence_renames() -> Seq<(Seq<char>, Seq<char>)> {
    seq![
        ("has_round_report_damage_taken"@, "has_round_report"@),
        ("has_round_total_damage"@, "has_round_report"@),
        ("has_no_wasd_for_10s"@, "true"@),
        ("has_boss_lock"@, "boss_lock"@),
        ("has_boss"@, "boss"@),
    ]
}

/// Replaces presence flags that duplicate another variable.
pub fn migrate_redundant_presence_flags(template: &str) -> (r: String)
    ensures
        r@ == replaced_in_order(template@, presence_renames()),
{
    proof {
        reveal_strlit("has_round_report_damage_taken");
        reveal_strlit("has_round_total_damage");
        reveal_strlit("has_no_wasd_for_10s");
        reveal_strlit("has_boss_lock");
        reveal_strlit("has_boss");
        reveal_with_fuel(replaced_in_order, 6);
    }
    let t0 = to_string(template);
    let t1 = replace_text(&t0, "has_round_report_damage_taken", "has_round_report");
    let t2 = replace_text(&t1, "has_round_total_damage", "has_round_report");
    let t3 = replace_text(&t2, "has_no_wasd_for_10s", "true");
    let t4 = replace_text(&t3, "has_boss_lock", "boss_lock");
    replace_text(&t4, "has_boss", "boss")
}

/// What `regex` makes of replacing every match of `pattern` in `text` by
/// `replacement`; `None` when the pattern does not compile.
pub uninterp spec fn regex_replaced(pattern: Seq<char>, text: Seq<char>, replacement: Seq<char>) -> Option<Seq<char>>;

/// Whether `regex` finds a match of `pattern` in `text`; `None` when the
/// pattern does not compile.
pub uninterp spec fn regex_matched(pattern: Seq<char>, text: Seq<char>) -> Option<bool>;

/// `regex::Regex::new(pattern)` then `replace_all(text, replacement)`: the
/// result is named as a function of the three texts (a pattern that does
/// not compile gives `None`).
#[verifier::external_body]
fn regex_replace_all(pattern: &str, text: &str, replacement: &str) -> (r: Option<String>)
    ensures
        opt_text_view(r) == regex_replaced(pattern@, text@, replacement@),
{
    match regex::Regex::new(pattern) {
        Ok(expression) => Some(expression.replace_all(text, replacement).into_owned()),
        Err(_) => None,
    }
}

/// `regex::Regex::new(pattern)` then `is_match(text)`, named as a function
/// of the two texts (a pattern that does not compile gives `None`).
#[verifier::external_body]
fn regex_is_match(pattern: &str, text: &str) -> (r: Option<bool>)
    ensures
        r == regex_matched(pattern@, text@),
{
    match regex::Regex::new(pattern) {
        Ok(expression) => Some(expression.is_match(text)),
        Err(_) => None,
    }
}

pub open spec fn or_keep(r: Option<Seq<char>>, text: Seq<char>) -> Seq<char> {
    match r {
        Some(t) => t,
        None => text,
    }
}

fn regex_replace_or_keep(pattern: &str, text: String, replacement: &str) -> (r: String)
    ensures
        r@ == or_keep(regex_replaced(pattern@, text@, replacement@), text@),
{
    match regex_replace_all(pattern, text.as_str(), replacement) {
        Some(t) => t,
        None => text,
    }
}

pub open spec fn report_flag_pattern() -> Seq<char> {
    "\\bhas_round_report\\b"@
}

pub open spec fn removed_interpolation_pattern() -> Seq<char> {
    "\\{\\{\\s*(?:has_round_combat_duration|round_combat_duration)\\s*\\}\\}"@
}

pub open spec fn removed_variable_pattern() -> Seq<char> {
    "\\b(?:has_round_combat_duration|round_combat_duration)\\b"@
}

pub open spec fn bool_text(b: bool) -> Seq<char> {
    if b {
        "true"@
    } else {
        "false"@
    }
}

/// The report presence flag becomes the constant the template's kind
/// implies; the removed combat-duration variables disappear from plain
/// interpolations and read as `false` elsewhere.
pub open spec fn report_variables_migrated(template: Seq<char>, report_context: bool) -> Seq<char> {
    let a = or_keep(regex_replaced(report_flag_pattern(), template, bool_text(report_context)), template);
    let b = or_keep(regex_replaced(removed_interpolation_pattern(), a, Seq::empty()), a);
    or_keep(regex_replaced(removed_variable_pattern(), b, "false"@), b)
}

/// Removes the report presence flag and the combat-duration variables.
pub fn migrate_removed_report_variables(template: &str, report_context: bool) -> (r: String)
    ensures
        r@ == report_variables_migrated(template@, report_context),
{
    let flag = if report_context {
        to_string("true")
    } else {
        to_string("false")
    };
    let a = regex_replace_or_keep("\\bhas_round_report\\b", to_string(template), flag.as_str());
    let b = regex_replace_or_keep(
        "\\{\\{\\s*(?:has_round_combat_duration|round_combat_duration)\\s*\\}\\}",
        a,
        "",
    );
    proof {
        reveal_strlit("");
        assert(""@ =~= Seq::<char>::empty());
    }
    regex_replace_or_keep("\\b(?:has_round_combat_duration|round_combat_duration)\\b", b, "false")
}

/// `s` without leading and trailing braces.
pub open spec fn without_braces(s: Seq<char>) -> Seq<char>
    decreases s.len(),
{
    if s.len() > 0 && (s[0] == '{' || s[0] == '}') {
        without_braces(s.skip(1))
    } else if s.len() > 0 && (s.last() == '{' || s.last() == '}') {
        without_braces(s.drop_last())
    } else {
        s
    }
}

pub open spec fn direct_context_pattern() -> Seq<char> {
    "^\\{\\{\\s*(?:phase|status|waiting_for_next_round)\\s*\\}\\}$"@
}

/// One template expression without the removed context variables: a plain
/// interpolation of the phase becomes the phase's text, of the status
/// `LIVE`, of the waiting flag nothing; inside other expressions the phase
/// and status become string literals and the waiting flag `false`.
pub open spec fn expression_migrated(source: Seq<char>, phase: Seq<char>) -> Seq<char> {
    if regex_matched(direct_context_pattern(), source) == Some(true) {
        let name = trimmed(without_braces(source));
        if name == "phase"@ {
            phase
        } else if name == "status"@ {
            "LIVE"@
        } else {
            Seq::empty()
        }
    } else {
        let a = or_keep(regex_replaced("\\bphase\\b"@, source, seq!['"'] + phase + seq!['"']), source);
        let b = or_keep(regex_replaced("\\bstatus\\b"@, a, "\"LIVE\""@), a);
        or_keep(regex_replaced("\\bwaiting_for_next_round\\b"@, b, "false"@), b)
    }
}

/// The pattern of one template expression `{{ ... }}`.
pub open spec fn expression_pattern() -> Seq<char> {
    "\\{\\{[^}]*\\}\\}"@
}

/// What `regex` makes of replacing every template expression that
/// `pattern` finds in `text` by its migration with `phase`; `None` when the
/// pattern does not compile.
pub uninterp spec fn regex_expressions_migrated(pattern: Seq<char>, text: Seq<char>, phase: Seq<char>) -> Option<
    Seq<char>,
>;

/// `regex::Regex::new(pattern)` then `replace_all(text, ..)` with every match
/// handed to `migrate_expression` (with `phase`); the result is named as a
/// function of the three texts (a pattern that does not compile gives
/// `None`).
#[verifier::external_body]
fn regex_replace_expressions(pattern: &str, text: &str, phase: &str) -> (r: Option<String>)
    ensures
        opt_text_view(r) == regex_expressions_migrated(pattern@, text@, phase@),
{
    match regex::Regex::new(pattern) {
        Ok(expression) => Some(
            expression.replace_all(text, |captures: &regex::Captures<'_>| migrate_expression(&captures[0], phase)).into_owned(),
        ),
        Err(_) => None,
    }
}

/// The template with every expression that reads a removed context
/// variable migrated (the template itself when the pattern does not
/// compile).
pub open spec fn context_migrated(template: Seq<char>, phase: Seq<char>) -> Seq<char> {
    or_keep(regex_expressions_migrated(expression_pattern(), template, phase), template)
}

fn strip_braces(s: &[char]) -> (r: Vec<char>)
    ensures
        r@ == without_braces(s@),
{
    let n = s.len();
    let mut a: usize = 0;
    assert(s@.subrange(0, n as int) =~= s@);
    while a < n && (s[a] == '{' || s[a] == '}')
        invariant
            a <= n,
            n == s@.len(),
            without_braces(s@) == without_braces(s@.subrange(a as int, n as int)),
        decreases n - a,
    {
        assert(s@.subrange(a as int, n as int).skip(1) =~= s@.subrange(a + 1, n as int));
        a = a + 1;
    }
    let mut b: usize = n;
    while b > a && (s[b - 1] == '{' || s[b - 1] == '}')
        invariant
            a <= b <= n,
            n == s@.len(),
            without_braces(s@) == without_braces(s@.subrange(a as int, b as int)),
            a < n ==> !(s@[a as int] == '{' || s@[a as int] == '}'),
        decreases b - a,
    {
        assert(s@.subrange(a as int, b as int).drop_last() =~= s@.subrange(a as int, b - 1));
        b = b - 1;
    }
    crate::text::slice_chars(s, a, b)
}

fn migrate_expression(source: &str, phase: &str) -> (r: String)
    ensures
        r@ == expression_migrated(source@, phase@),
{
    let direct = regex_is_match("^\\{\\{\\s*(?:phase|status|waiting_for_next_round)\\s*\\}\\}$", source);
    if direct == Some(true) {
        let chars = chars_of(source);
        let inner = strip_braces(&chars);
        let name = trim(&inner);
        let phase_name = chars_of("phase");
        let status_name = chars_of("status");
        if chars_eq(&name, &phase_name) {
            to_string(phase)
        } else if chars_eq(&name, &status_name) {
            to_string("LIVE")
        } else {
            proof {
                reveal_strlit("");
            }
            to_string("")
        }
    } else {
        let mut quoted: Vec<char> = Vec::new();
        quoted.push('"');
        crate::text::append_str(&mut quoted, phase);
        quoted.push('"');
        assert(quoted@ =~= seq!['"'] + phase@ + seq!['"']);
        let quoted = string_of(&quoted);
        let a = regex_replace_or_keep("\\bphase\\b", to_string(source), quoted.as_str());
        let b = regex_replace_or_keep("\\bstatus\\b", a, "\"LIVE\"");
        regex_replace_or_keep("\\bwaiting_for_next_round\\b", b, "false")
    }
}

/// Rewrites every template expression that reads the phase, the status or
/// the waiting flag, which the selected template's kind now implies.
pub fn migrate_removed_context_variables(template: &str, phase: &str) -> (r: String)
    ensures
        r@ == context_migrated(template@, phase@),
{
    match regex_replace_expressions("\\{\\{[^}]*\\}\\}", template, phase) {
        Some(t) => t,
        None => to_string(template),
    }
}


/// `v`, or `new` when it equals `old` exactly.
pub open spec fn swapped(v: Seq<char>, old: Seq<char>, new: Seq<char>) -> Seq<char> {
    if v == old {
        new
    } else {
        v
    }
}

fn swap_text(v: &String, old: &str, new: &str) -> (r: String)
    ensures
        r@ == swapped(v@, old@, new@),
{
    let x = chars_of(v.as_str());
    let y = chars_of(old);
    if chars_eq(&x, &y) {
        to_string(new)
    } else {
        v.clone()
    }
}

/// The live template reloaded from its active slot (when valid).
pub open spec fn reloaded(live: Seq<char>, presets: Seq<Seq<char>>, active: usize) -> Seq<char> {
    if active < 3 {
        presets[active as int]
    } else {
        live
    }
}

fn reload(live: &String, presets: &[String; 3], active: usize) -> (r: String)
    ensures
        r@ == reloaded(live@, texts_view(presets@), active),
{
    if active < 3 {
        presets[active].clone()
    } else {
        live.clone()
    }
}

/// The three slots through `f`, one by one.
pub open spec fn each3(a: Seq<Seq<char>>, f: spec_fn(int, Seq<char>) -> Seq<char>) -> Seq<Seq<char>> {
    seq![f(0, a[0]), f(1, a[1]), f(2, a[2])]
}

pub open spec fn first_or_second(i: int, first: Seq<char>, second: Seq<char>) -> Seq<char> {
    if i == 1 {
        second
    } else {
        first
    }
}

/// Upgrades through version 8: old built-in defaults, misspelled averages
/// and redundant presence flags of the live templates.
pub open spec fn early_migrated(c: ConfigView) -> ConfigView {
    let v = c.version;
    let mt0 = if v < 6 { swapped(c.message_template, VERSION_5_DEFAULT_TEMPLATE@, DEFAULT_TEMPLATE@) } else { c.message_template };
    let rt0 = if v < 6 { swapped(c.round_report_template, VERSION_5_DEFAULT_ROUND_REPORT_TEMPLATE@, DEFAULT_ROUND_REPORT_TEMPLATE@) } else { c.round_report_template };
    let mt1 = if v < 7 { replaced_in_order(mt0, average_renames()) } else { mt0 };
    let rt1 = if v < 7 { replaced_in_order(rt0, average_renames()) } else { rt0 };
    let mt2 = if v < 8 { replaced_in_order(mt1, presence_renames()) } else { mt1 };
    let rt2 = if v < 8 { replaced_in_order(rt1, presence_renames()) } else { rt1 };
    ConfigView { message_template: mt2, round_report_template: rt2, ..c }
}

/// Versions 9 and 10 introduced the preset slots: an older live template
/// becomes the first slot of the built-in presets; a newer configuration
/// reloads its live templates from the active slots.
pub open spec fn slots_migrated(c: ConfigView) -> ConfigView {
    let v = c.version;
    let c1 = if v < 9 {
        ConfigView {
            message_template_presets: default_messages(c.language).update(0, c.message_template),
            active_message_template_preset: 0,
            ..c
        }
    } else {
        ConfigView {
            message_template: reloaded(c.message_template, c.message_template_presets, c.active_message_template_preset),
            ..c
        }
    };
    if v < 10 {
        ConfigView {
            round_report_template_presets: default_reports(c1.language).update(0, c1.round_report_template),
            active_round_report_template_preset: 0,
            ..c1
        }
    } else {
        ConfigView {
            round_report_template: reloaded(c1.round_report_template, c1.round_report_template_presets, c1.active_round_report_template_preset),
            ..c1
        }
    }
}

/// Versions 11 to 13: the version 10 built-in report is upgraded, preset
/// names appear, and the version 13 built-ins are replaced slot by slot.
pub open spec fn middle_migrated(c: ConfigView) -> ConfigView {
    let v = c.version;
    let c1 = if v < 11 {
        ConfigView {
            round_report_template: swapped(c.round_report_template, VERSION_10_DEFAULT_ROUND_REPORT_TEMPLATE@, DEFAULT_ROUND_REPORT_TEMPLATE@),
            round_report_template_presets: each3(c.round_report_template_presets, |i: int, t: Seq<char>| swapped(t, VERSION_10_DEFAULT_ROUND_REPORT_TEMPLATE@, first_or_second(i, DEFAULT_ROUND_REPORT_TEMPLATE@, DEFAULT_ROUND_REPORT_TEMPLATE_PRESET_2@))),
            ..c
        }
    } else {
        c
    };
    let c2 = if v < 12 {
        ConfigView {
            message_template_preset_names: default_names(c1.language),
            round_report_template_preset_names: default_names(c1.language),
            ..c1
        }
    } else {
        c1
    };
    if v < 14 {
        let messages = each3(c2.message_template_presets, |i: int, t: Seq<char>| swapped(t, VERSION_13_DEFAULT_TEMPLATE@, first_or_second(i, DEFAULT_TEMPLATE@, DEFAULT_TEMPLATE_PRESET_2@)));
        let reports = each3(c2.round_report_template_presets, |i: int, t: Seq<char>| swapped(t, VERSION_13_DEFAULT_ROUND_REPORT_TEMPLATE@, first_or_second(i, DEFAULT_ROUND_REPORT_TEMPLATE@, DEFAULT_ROUND_REPORT_TEMPLATE_PRESET_2@)));
        ConfigView {
            message_template_presets: messages,
            round_report_template_presets: reports,
            message_template: reloaded(c2.message_template, messages, c2.active_message_template_preset),
            round_report_template: reloaded(c2.round_report_template, reports, c2.active_round_report_template_preset),
            ..c2
        }
    } else {
        c2
    }
}

/// Whether a report slot is a version 15 built-in (ignoring trailing white
/// space).
pub open spec fn is_version_15_report(t: Seq<char>) -> bool {
    trimmed_end(t) == VERSION_15_DEFAULT_ROUND_REPORT_TEMPLATE@ || trimmed_end(t)
        == VERSION_15_DEFAULT_ROUND_REPORT_TEMPLATE_PRESET_2@
}

/// A version 16 English built-in combat template replaced by the current one.
pub open spec fn english_upgraded(t: Seq<char>) -> Seq<char> {
    if t == VERSION_16_DEFAULT_TEMPLATE_ENGLISH@ {
        DEFAULT_TEMPLATE_ENGLISH@
    } else if t == VERSION_16_DEFAULT_TEMPLATE_PRESET_2_ENGLISH@ {
        DEFAULT_TEMPLATE_PRESET_2_ENGLISH@
    } else {
        t
    }
}

/// Versions 16 to 18: built-in reports gain the step estimate, the English
/// combat presets are replaced, and the Chinese report unit is localized.
pub open spec fn late_migrated(c: ConfigView) -> ConfigView {
    let v = c.version;
    let c1 = if v < 16 {
        let reports = each3(c.round_report_template_presets, |i: int, t: Seq<char>| if is_version_15_report(t) { first_or_second(i, DEFAULT_ROUND_REPORT_TEMPLATE@, DEFAULT_ROUND_REPORT_TEMPLATE_PRESET_2@) } else { t });
        ConfigView {
            round_report_template_presets: reports,
            round_report_template: reloaded(c.round_report_template, reports, c.active_round_report_template_preset),
            ..c
        }
    } else {
        c
    };
    let c2 = if v < 17 {
        let messages = each3(c1.message_template_presets, |i: int, t: Seq<char>| english_upgraded(t));
        ConfigView {
            message_template_presets: messages,
            message_template: reloaded(english_upgraded(c1.message_template), messages, c1.active_message_template_preset),
            ..c1
        }
    } else {
        c1
    };
    if v < 18 {
        let reports = each3(c2.round_report_template_presets, |i: int, t: Seq<char>| swapped(t, VERSION_17_DEFAULT_ROUND_REPORT_TEMPLATE_PRESET_2@, DEFAULT_ROUND_REPORT_TEMPLATE_PRESET_2@));
        ConfigView {
            round_report_template_presets: reports,
            round_report_template: reloaded(swapped(c2.round_report_template, VERSION_17_DEFAULT_ROUND_REPORT_TEMPLATE_PRESET_2@, DEFAULT_ROUND_REPORT_TEMPLATE_PRESET_2@), reports, c2.active_round_report_template_preset),
            ..c2
        }
    } else {
        c2
    }
}

/// Versions 19 and 20: removed report and context variables are rewritten
/// in every template.
pub open spec fn variables_migrated(c: ConfigView) -> ConfigView {
    let v = c.version;
    let c1 = if v < 19 {
        let messages = each3(c.message_template_presets, |i: int, t: Seq<char>| report_variables_migrated(t, false));
        let reports = each3(c.round_report_template_presets, |i: int, t: Seq<char>| report_variables_migrated(t, true));
        ConfigView {
            message_template_presets: messages,
            round_report_template_presets: reports,
            message_template: reloaded(report_variables_migrated(c.message_template, false), messages, c.active_message_template_preset),
            round_report_template: reloaded(report_variables_migrated(c.round_report_template, true), reports, c.active_round_report_template_preset),
            ..c
        }
    } else {
        c
    };
    if v < 20 {
        let messages = each3(c1.message_template_presets, |i: int, t: Seq<char>| context_migrated(t, "COMBAT"@));
        let reports = each3(c1.round_report_template_presets, |i: int, t: Seq<char>| context_migrated(t, "LOBBY"@));
        ConfigView {
            message_template_presets: messages,
            round_report_template_presets: reports,
            message_template: reloaded(context_migrated(c1.message_template, "COMBAT"@), messages, c1.active_message_template_preset),
            round_report_template: reloaded(context_migrated(c1.round_report_template, "LOBBY"@), reports, c1.active_round_report_template_preset),
            ..c1
        }
    } else {
        c1
    }
}

pub open spec fn clamp_u64(v: u64, lo: u64, hi: u64) -> u64 {
    if v < lo {
        lo
    } else if v > hi {
        hi
    } else {
        v
    }
}

/// A configuration of any older version brought to the current one.
pub open spec fn migrated_config(c: ConfigView) -> ConfigView {
    let m = variables_migrated(late_migrated(middle_migrated(slots_migrated(early_migrated(c)))));
    ConfigView {
        version: CONFIG_VERSION,
        stale_after_seconds: clamp_u64(m.stale_after_seconds, 2, 300),
        ..m
    }
}


fn equal_str(a: &String, b: &str) -> (r: bool)
    ensures
        r == (a@ == b@),
{
    let x = chars_of(a.as_str());
    let y = chars_of(b);
    chars_eq(&x, &y)
}

fn second_or_first(i: usize, first: &str, second: &str) -> (r: String)
    ensures
        r@ == first_or_second(i as int, first@, second@),
{
    if i == 1 {
        to_string(second)
    } else {
        to_string(first)
    }
}

fn upgrade_version_13_slot(t: &String, i: usize, old: &str, first: &str, second: &str) -> (r: String)
    ensures
        r@ == swapped(t@, old@, first_or_second(i as int, first@, second@)),
{
    if equal_str(t, old) {
        second_or_first(i, first, second)
    } else {
        t.clone()
    }
}

/// Built-in slots of an old version replaced by the current built-ins of the
/// same slot.
pub fn upgrade_version_13_builtin_presets(presets: &[String; 3], old_default: &str, first: &str, second: &str) -> (r: [String; 3])
    ensures
        texts_view(r@) == each3(
            texts_view(presets@),
            |i: int, t: Seq<char>| swapped(t, old_default@, first_or_second(i, first@, second@)),
        ),
{
    let r = [
        upgrade_version_13_slot(&presets[0], 0, old_default, first, second),
        upgrade_version_13_slot(&presets[1], 1, old_default, first, second),
        upgrade_version_13_slot(&presets[2], 2, old_default, first, second),
    ];
    assert(texts_view(r@) =~= each3(
        texts_view(presets@),
        |i: int, t: Seq<char>| swapped(t, old_default@, first_or_second(i, first@, second@)),
    ));
    r
}

/// The version 10 built-in report replaced by `new_default`.
pub fn upgrade_builtin_round_report_template(template: &String, new_default: &str) -> (r: String)
    ensures
        r@ == swapped(template@, VERSION_10_DEFAULT_ROUND_REPORT_TEMPLATE@, new_default@),
{
    swap_text(template, VERSION_10_DEFAULT_ROUND_REPORT_TEMPLATE, new_default)
}

fn upgrade_version_15_slot(t: &String, i: usize) -> (r: String)
    ensures
        r@ == (if is_version_15_report(t@) {
            first_or_second(i as int, DEFAULT_ROUND_REPORT_TEMPLATE@, DEFAULT_ROUND_REPORT_TEMPLATE_PRESET_2@)
        } else {
            t@
        }),
{
    let c = chars_of(t.as_str());
    let e = trim_end(&c);
    let a = chars_of(VERSION_15_DEFAULT_ROUND_REPORT_TEMPLATE);
    let b = chars_of(VERSION_15_DEFAULT_ROUND_REPORT_TEMPLATE_PRESET_2);
    if chars_eq(&e, &a) || chars_eq(&e, &b) {
        second_or_first(i, DEFAULT_ROUND_REPORT_TEMPLATE, DEFAULT_ROUND_REPORT_TEMPLATE_PRESET_2)
    } else {
        t.clone()
    }
}

/// Version 15 built-in reports (ignoring trailing white space) replaced by
/// the current built-ins of the same slot.
pub fn upgrade_version_15_round_report_presets(presets: &[String; 3]) -> (r: [String; 3])
    ensures
        texts_view(r@) == each3(
            texts_view(presets@),
            |i: int, t: Seq<char>| if is_version_15_report(t) {
                first_or_second(i, DEFAULT_ROUND_REPORT_TEMPLATE@, DEFAULT_ROUND_REPORT_TEMPLATE_PRESET_2@)
            } else {
                t
            },
        ),
{
    let r = [upgrade_version_15_slot(&presets[0], 0), upgrade_version_15_slot(&presets[1], 1), upgrade_version_15_slot(&presets[2], 2)];
    assert(texts_view(r@) =~= each3(
        texts_view(presets@),
        |i: int, t: Seq<char>| if is_version_15_report(t) {
            first_or_second(i, DEFAULT_ROUND_REPORT_TEMPLATE@, DEFAULT_ROUND_REPORT_TEMPLATE_PRESET_2@)
        } else {
            t
        },
    ));
    r
}

fn english_upgrade(t: &String) -> (r: String)
    ensures
        r@ == english_upgraded(t@),
{
    if equal_str(t, VERSION_16_DEFAULT_TEMPLATE_ENGLISH) {
        to_string(DEFAULT_TEMPLATE_ENGLISH)
    } else if equal_str(t, VERSION_16_DEFAULT_TEMPLATE_PRESET_2_ENGLISH) {
        to_string(DEFAULT_TEMPLATE_PRESET_2_ENGLISH)
    } else {
        t.clone()
    }
}

impl AppConfig {
    fn migrate_early(&mut self)
        ensures
            final(self)@ == early_migrated(old(self)@),
    {
        let v = self.version;
        if v < 6 {
            self.message_template = swap_text(&self.message_template, VERSION_5_DEFAULT_TEMPLATE, DEFAULT_TEMPLATE);
            self.round_report_template = swap_text(&self.round_report_template, VERSION_5_DEFAULT_ROUND_REPORT_TEMPLATE, DEFAULT_ROUND_REPORT_TEMPLATE);
        }
        if v < 7 {
            self.message_template = migrate_average_variable_names(self.message_template.as_str());
            self.round_report_template = migrate_average_variable_names(self.round_report_template.as_str());
        }
        if v < 8 {
            self.message_template = migrate_redundant_presence_flags(self.message_template.as_str());
            self.round_report_template = migrate_redundant_presence_flags(self.round_report_template.as_str());
        }
    }

    fn migrate_slots(&mut self)
        ensures
            final(self)@ == slots_migrated(old(self)@),
    {
        let v = self.version;
        if v < 9 {
            let defaults = default_message_template_presets(self.language);
            self.message_template_presets = replace_slot(&defaults, 0, &self.message_template);
            self.active_message_template_preset = 0;
        } else {
            self.message_template = reload(&self.message_template, &self.message_template_presets, self.active_message_template_preset);
        }
        if v < 10 {
            let defaults = default_round_report_template_presets(self.language);
            self.round_report_template_presets = replace_slot(&defaults, 0, &self.round_report_template);
            self.active_round_report_template_preset = 0;
        } else {
            self.round_report_template = reload(&self.round_report_template, &self.round_report_template_presets, self.active_round_report_template_preset);
        }
    }

    fn migrate_middle(&mut self)
        ensures
            final(self)@ == middle_migrated(old(self)@),
    {
        let v = self.version;
        if v < 11 {
            self.round_report_template = upgrade_builtin_round_report_template(&self.round_report_template, DEFAULT_ROUND_REPORT_TEMPLATE);
            self.round_report_template_presets = upgrade_version_13_builtin_presets(
                &self.round_report_template_presets,
                VERSION_10_DEFAULT_ROUND_REPORT_TEMPLATE,
                DEFAULT_ROUND_REPORT_TEMPLATE,
                DEFAULT_ROUND_REPORT_TEMPLATE_PRESET_2,
            );
        }
        if v < 12 {
            self.message_template_preset_names = default_template_preset_names(self.language);
            self.round_report_template_preset_names = default_template_preset_names(self.language);
        }
        if v < 14 {
            self.message_template_presets = upgrade_version_13_builtin_presets(
                &self.message_template_presets,
                VERSION_13_DEFAULT_TEMPLATE,
                DEFAULT_TEMPLATE,
                DEFAULT_TEMPLATE_PRESET_2,
            );
            self.round_report_template_presets = upgrade_version_13_builtin_presets(
                &self.round_report_template_presets,
                VERSION_13_DEFAULT_ROUND_REPORT_TEMPLATE,
                DEFAULT_ROUND_REPORT_TEMPLATE,
                DEFAULT_ROUND_REPORT_TEMPLATE_PRESET_2,
            );
            self.message_template = reload(&self.message_template, &self.message_template_presets, self.active_message_template_preset);
            self.round_report_template = reload(&self.round_report_template, &self.round_report_template_presets, self.active_round_report_template_preset);
        }
    }

    fn migrate_late(&mut self)
        ensures
            final(self)@ == late_migrated(old(self)@),
    {
        let v = self.version;
        if v < 16 {
            self.round_report_template_presets = upgrade_version_15_round_report_presets(&self.round_report_template_presets);
            self.round_report_template = reload(&self.round_report_template, &self.round_report_template_presets, self.active_round_report_template_preset);
        }
        if v < 17 {
            let live = english_upgrade(&self.message_template);
            let presets = [
                english_upgrade(&self.message_template_presets[0]),
                english_upgrade(&self.message_template_presets[1]),
                english_upgrade(&self.message_template_presets[2]),
            ];
            assert(texts_view(presets@) =~= each3(
                texts_view(self.message_template_presets@),
                |i: int, t: Seq<char>| english_upgraded(t),
            ));
            self.message_template = reload(&live, &presets, self.active_message_template_preset);
            self.message_template_presets = presets;
        }
        if v < 18 {
            let live = swap_text(&self.round_report_template, VERSION_17_DEFAULT_ROUND_REPORT_TEMPLATE_PRESET_2, DEFAULT_ROUND_REPORT_TEMPLATE_PRESET_2);
            let presets = [
                swap_text(&self.round_report_template_presets[0], VERSION_17_DEFAULT_ROUND_REPORT_TEMPLATE_PRESET_2, DEFAULT_ROUND_REPORT_TEMPLATE_PRESET_2),
                swap_text(&self.round_report_template_presets[1], VERSION_17_DEFAULT_ROUND_REPORT_TEMPLATE_PRESET_2, DEFAULT_ROUND_REPORT_TEMPLATE_PRESET_2),
                swap_text(&self.round_report_template_presets[2], VERSION_17_DEFAULT_ROUND_REPORT_TEMPLATE_PRESET_2, DEFAULT_ROUND_REPORT_TEMPLATE_PRESET_2),
            ];
            assert(texts_view(presets@) =~= each3(
                texts_view(self.round_report_template_presets@),
                |i: int, t: Seq<char>| swapped(t, VERSION_17_DEFAULT_ROUND_REPORT_TEMPLATE_PRESET_2@, DEFAULT_ROUND_REPORT_TEMPLATE_PRESET_2@),
            ));
            self.round_report_template = reload(&live, &presets, self.active_round_report_template_preset);
            self.round_report_template_presets = presets;
        }
    }

    fn migrate_variables(&mut self)
        ensures
            final(self)@ == variables_migrated(old(self)@),
    {
        let v = self.version;
        if v < 19 {
            let live = migrate_removed_report_variables(self.message_template.as_str(), false);
            let report = migrate_removed_report_variables(self.round_report_template.as_str(), true);
            let messages = [
                migrate_removed_report_variables(self.message_template_presets[0].as_str(), false),
                migrate_removed_report_variables(self.message_template_presets[1].as_str(), false),
                migrate_removed_report_variables(self.message_template_presets[2].as_str(), false),
            ];
            let reports = [
                migrate_removed_report_variables(self.round_report_template_presets[0].as_str(), true),
                migrate_removed_report_variables(self.round_report_template_presets[1].as_str(), true),
                migrate_removed_report_variables(self.round_report_template_presets[2].as_str(), true),
            ];
            assert(texts_view(messages@) =~= each3(
                texts_view(self.message_template_presets@),
                |i: int, t: Seq<char>| report_variables_migrated(t, false),
            ));
            assert(texts_view(reports@) =~= each3(
                texts_view(self.round_report_template_presets@),
                |i: int, t: Seq<char>| report_variables_migrated(t, true),
            ));
            self.message_template = reload(&live, &messages, self.active_message_template_preset);
            self.round_report_template = reload(&report, &reports, self.active_round_report_template_preset);
            self.message_template_presets = messages;
            self.round_report_template_presets = reports;
        }
        if v < 20 {
            proof {
                reveal_strlit("COMBAT");
                reveal_strlit("LOBBY");
            }
            let live = migrate_removed_context_variables(self.message_template.as_str(), "COMBAT");
            let report = migrate_removed_context_variables(self.round_report_template.as_str(), "LOBBY");
            let messages = [
                migrate_removed_context_variables(self.message_template_presets[0].as_str(), "COMBAT"),
                migrate_removed_context_variables(self.message_template_presets[1].as_str(), "COMBAT"),
                migrate_removed_context_variables(self.message_template_presets[2].as_str(), "COMBAT"),
            ];
            let reports = [
                migrate_removed_context_variables(self.round_report_template_presets[0].as_str(), "LOBBY"),
                migrate_removed_context_variables(self.round_report_template_presets[1].as_str(), "LOBBY"),
                migrate_removed_context_variables(self.round_report_template_presets[2].as_str(), "LOBBY"),
            ];
            assert(texts_view(messages@) =~= each3(
                texts_view(self.message_template_presets@),
                |i: int, t: Seq<char>| context_migrated(t, "COMBAT"@),
            ));
            assert(texts_view(reports@) =~= each3(
                texts_view(self.round_report_template_presets@),
                |i: int, t: Seq<char>| context_migrated(t, "LOBBY"@),
            ));
            self.message_template = reload(&live, &messages, self.active_message_template_preset);
            self.round_report_template = reload(&report, &reports, self.active_round_report_template_preset);
            self.message_template_presets = messages;
            self.round_report_template_presets = reports;
        }
    }

    /// Brings a configuration of any older version to the current one. The
    /// alert volume and overlay size (decimal numbers) are migrated beside
    /// it.
    pub fn migrated(self) -> (r: Self)
        ensures
            r@ == migrated_config(self@),
    {
        let mut c = self;
        c.migrate_early();
        c.migrate_slots();
        c.migrate_middle();
        c.migrate_late();
        c.migrate_variables();
        c.version = CONFIG_VERSION;
        c.stale_after_seconds = if c.stale_after_seconds < 2 {
            2
        } else if c.stale_after_seconds > 300 {
            300
        } else {
            c.stale_after_seconds
        };
        c
    }
}


// ---------------------------------------------------------------------------
// Laws of the configuration
// ---------------------------------------------------------------------------

/// Switching message presets keeps the unsaved edit of the slot being left
/// and loads the chosen slot.
pub proof fn law_switching_presets_keeps_edits(c: ConfigView, preset: usize)
    requires
        c.message_template_presets.len() == 3,
        c.active_message_template_preset < 3,
        preset < 3,
    ensures
        message_selected(c, preset).message_template_presets[c.active_message_template_preset as int]
            == c.message_template,
        message_selected(c, preset).message_template == message_selected(
            c,
            preset,
        ).message_template_presets[preset as int],
        forall|i: int|
            0 <= i < 3 && i != c.active_message_template_preset ==> #[trigger] message_selected(
                c,
                preset,
            ).message_template_presets[i] == c.message_template_presets[i],
{
}

/// Changing the language translates a preset slot exactly when it holds a
/// built-in text of either language; anything edited is kept verbatim.
pub proof fn law_localization_keeps_custom_text(c: ConfigView, language: Language, i: int)
    requires
        0 <= i < 3,
        c.message_template_presets.len() == 3,
        c.message_template_presets[i] != default_messages(Language::Chinese)[i],
        c.message_template_presets[i] != default_messages(Language::English)[i],
    ensures
        localized_config(c, language).message_template_presets[i] == c.message_template_presets[i],
        localized_config(c, language).language == language,
{
}

/// A configuration of the current version is only normalized by migration:
/// the live templates are reloaded from their active slots and the wait
/// time is clamped; nothing else changes.
pub proof fn law_current_version_migration_only_normalizes(c: ConfigView)
    requires
        c.version >= 20,
    ensures
        migrated_config(c) == (ConfigView {
            version: CONFIG_VERSION,
            stale_after_seconds: clamp_u64(c.stale_after_seconds, 2, 300),
            message_template: reloaded(c.message_template, c.message_template_presets, c.active_message_template_preset),
            round_report_template: reloaded(c.round_report_template, c.round_report_template_presets, c.active_round_report_template_preset),
            ..c
        }),
{
}

/// Defaults are valid in the two checks that do not depend on the template
/// engine: the wait time and the active indices are in range.
pub proof fn law_defaults_are_in_range(language: Language)
    ensures
        2 <= default_config(language).stale_after_seconds <= 300,
        default_config(language).active_message_template_preset < MESSAGE_TEMPLATE_PRESET_COUNT,
        default_config(language).active_round_report_template_preset < ROUND_REPORT_TEMPLATE_PRESET_COUNT,
        default_config(language).version == CONFIG_VERSION,
{
}

/// Migrating twice is migrating once: a loaded configuration is stable
/// under the migration it already went through.
pub proof fn law_migration_is_idempotent(c: ConfigView)
    ensures
        migrated_config(migrated_config(c)) == migrated_config(c),
{
    let m = migrated_config(c);
    law_current_version_migration_only_normalizes(m);
    assert(migrated_config(m) =~= m);
}

} // verus!
