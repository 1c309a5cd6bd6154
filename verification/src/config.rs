//! The configuration record read by the adapters and the command layer:
//! per-platform toggles, length thresholds, theme tokens and output
//! settings, with dotted-key access for reading and writing single values.

use vstd::prelude::*;

verus! {

use vstd::string::StringExecFns;
use crate::Error;
use crate::text::chars_to_string;
use crate::text::dec_str;
use crate::text::str_eq;
use crate::text::str_to_chars;
use crate::text::u64_to_dec_chars;

/// Relies on `dirs::home_dir`: the user's home directory, rendered with
/// `Path::to_string_lossy`. The value depends on the environment; nothing is
/// promised of it.
#[verifier::external_body]
fn home_dir_string() -> Option<String> {
    dirs::home_dir().map(|p| p.to_string_lossy().into_owned())
}

/// General application settings.
#[derive(Debug, Clone)]
pub struct GeneralConfig {
    /// Default author name.
    pub author: Option<String>,
    /// The platform used when none is asked for.
    pub default_platform: Option<String>,
    /// Whether outputs are saved automatically.
    pub auto_save: bool,
    /// Whether saved outputs are also backed up.
    pub backup_enabled: bool,
    /// Seconds between watcher polls.
    pub watch_interval: u64,
}

/// WeChat-platform credentials and switches.
#[derive(Debug, Clone)]
pub struct WeChatConfig {
    /// Application identifier.
    pub app_id: Option<String>,
    /// Application secret.
    pub app_secret: Option<String>,
    /// A cached access token.
    pub access_token: Option<String>,
    /// Default thumbnail media identifier.
    pub default_thumb_media_id: Option<String>,
    /// Whether to publish without confirmation.
    pub auto_publish: bool,
    /// Whether to create drafts instead of publishing.
    pub draft_mode: bool,
}

/// Zhihu-platform credentials and switches.
#[derive(Debug, Clone)]
pub struct ZhihuConfig {
    /// Account name.
    pub username: Option<String>,
    /// Where the session cookies live.
    pub cookies_file: Option<String>,
    /// Whether to publish without confirmation.
    pub auto_publish: bool,
    /// The column published into by default.
    pub default_column: Option<String>,
    /// Whether math rendering is on.
    pub enable_math: bool,
    /// The code highlighting theme token.
    pub code_theme: String,
}

/// Template settings.
#[derive(Debug, Clone)]
pub struct TemplateConfig {
    /// Where templates live.
    pub templates_dir: String,
    /// The template used when none is named.
    pub default_template: Option<String>,
    /// Named templates and their locations.
    pub custom_templates: Vec<(String, String)>,
}

/// Output settings.
#[derive(Debug, Clone)]
pub struct OutputConfig {
    /// Where outputs are written.
    pub output_dir: String,
    /// Whether each platform gets its own subdirectory.
    pub create_subdirs: bool,
    /// The output file name pattern.
    pub filename_pattern: String,
    /// Where backups are written, if anywhere.
    pub backup_dir: Option<String>,
}

/// The whole application configuration.
#[derive(Debug, Clone)]
pub struct AppConfig {
    /// General settings.
    pub general: GeneralConfig,
    /// WeChat-platform settings.
    pub wechat: WeChatConfig,
    /// Zhihu-platform settings.
    pub zhihu: ZhihuConfig,
    /// Template settings.
    pub templates: TemplateConfig,
    /// Output settings.
    pub output: OutputConfig,
}

impl Default for GeneralConfig {
    /// Publish to every platform, save and back up automatically, poll every
    /// two seconds.
    fn default() -> (r: Self)
        ensures
            r.author is None,
            r.default_platform matches Some(p) && p@ == "all"@,
            r.auto_save == true,
            r.backup_enabled == true,
            r.watch_interval == 2,
    {
        GeneralConfig {
            author: None,
            default_platform: Some(String::from_str("all")),
            auto_save: true,
            backup_enabled: true,
            watch_interval: 2,
        }
    }
}

impl Default for WeChatConfig {
    /// No credentials, drafts only.
    fn default() -> (r: Self)
        ensures
            r.app_id is None,
            r.app_secret is None,
            r.access_token is None,
            r.default_thumb_media_id is None,
            r.auto_publish == false,
            r.draft_mode == true,
    {
        WeChatConfig {
            app_id: None,
            app_secret: None,
            access_token: None,
            default_thumb_media_id: None,
            auto_publish: false,
            draft_mode: true,
        }
    }
}

impl Default for ZhihuConfig {
    /// No credentials, math on, the `github` code theme.
    fn default() -> (r: Self)
        ensures
            r.username is None,
            r.cookies_file is None,
            r.auto_publish == false,
            r.default_column is None,
            r.enable_math == true,
            r.code_theme@ == "github"@,
    {
        ZhihuConfig {
            username: None,
            cookies_file: None,
            auto_publish: false,
            default_column: None,
            enable_math: true,
            code_theme: String::from_str("github"),
        }
    }
}

impl Default for TemplateConfig {
    /// Templates under `.markflow/templates` in the home directory (or under
    /// the working directory when no home is known), no default template, no
    /// custom templates.
    fn default() -> (r: Self)
        ensures
            r.default_template is None,
            r.custom_templates@.len() == 0,
    {
        let base = match home_dir_string() {
            Some(h) => h,
            None => String::from_str("."),
        };
        let dir = base.concat("/.markflow/templates");
        TemplateConfig { templates_dir: dir, default_template: None, custom_templates: Vec::new() }
    }
}

impl Default for OutputConfig {
    /// Outputs under `./output` in per-platform subdirectories, backups
    /// under `./backup`.
    fn default() -> (r: Self)
        ensures
            r.output_dir@ == "./output"@,
            r.create_subdirs == true,
            r.filename_pattern@ == "{title}_{platform}.html"@,
            r.backup_dir matches Some(b) && b@ == "./backup"@,
    {
        OutputConfig {
            output_dir: String::from_str("./output"),
            create_subdirs: true,
            filename_pattern: String::from_str("{title}_{platform}.html"),
            backup_dir: Some(String::from_str("./backup")),
        }
    }
}

impl Default for AppConfig {
    /// Every section at its default.
    fn default() -> (r: Self)
        ensures
            r.general.watch_interval == 2,
            r.general.auto_save == true,
            r.general.backup_enabled == true,
            r.wechat.auto_publish == false,
            r.wechat.draft_mode == true,
            r.zhihu.enable_math == true,
            r.zhihu.code_theme@ == "github"@,
            r.output.create_subdirs == true,
    {
        AppConfig {
            general: GeneralConfig::default(),
            wechat: WeChatConfig::default(),
            zhihu: ZhihuConfig::default(),
            templates: TemplateConfig::default(),
            output: OutputConfig::default(),
        }
    }
}

/// What parsing a boolean setting yields: `true` and `false` only.
pub open spec fn spec_parse_bool(v: Seq<char>) -> Option<bool> {
    if v == "true"@ {
        Some(true)
    } else if v == "false"@ {
        Some(false)
    } else {
        None
    }
}

/// A parsed boolean, or the given default when the text is neither `true`
/// nor `false`.
pub open spec fn bool_or(v: Seq<char>, d: bool) -> bool {
    match spec_parse_bool(v) {
        Some(b) => b,
        None => d,
    }
}

/// Parses a boolean setting, as `spec_parse_bool` describes.
fn parse_bool(v: &str) -> (r: Option<bool>)
    ensures
        r == spec_parse_bool(v@),
{
    if str_eq(v, "true") {
        Some(true)
    } else if str_eq(v, "false") {
        Some(false)
    } else {
        None
    }
}

/// The numeric value of a digit string: none when empty, when any character
/// is not a decimal digit, or when the value exceeds `u64::MAX`.
pub open spec fn spec_parse_u64(v: Seq<char>) -> Option<u64>
    decreases v.len(),
{
    if v.len() == 0 {
        None
    } else if v.len() == 1 {
        spec_digit(v[0])
    } else {
        match (spec_parse_u64(v.take(v.len() - 1)), spec_digit(v[v.len() - 1])) {
            (Some(hi), Some(d)) => if hi <= (u64::MAX - d) / 10 {
                Some((hi * 10 + d) as u64)
            } else {
                None
            },
            _ => None,
        }
    }
}

/// The value of one decimal digit character.
pub open spec fn spec_digit(c: char) -> Option<u64> {
    if c == '0' {
        Some(0)
    } else if c == '1' {
        Some(1)
    } else if c == '2' {
        Some(2)
    } else if c == '3' {
        Some(3)
    } else if c == '4' {
        Some(4)
    } else if c == '5' {
        Some(5)
    } else if c == '6' {
        Some(6)
    } else if c == '7' {
        Some(7)
    } else if c == '8' {
        Some(8)
    } else if c == '9' {
        Some(9)
    } else {
        None
    }
}

/// A parsed number, or the given default when the text is not a number in
/// range.
pub open spec fn u64_or(v: Seq<char>, d: u64) -> u64 {
    match spec_parse_u64(v) {
        Some(n) => n,
        None => d,
    }
}

/// Parses a decimal setting, as `spec_parse_u64` describes.
fn parse_u64(v: &str) -> (r: Option<u64>)
    ensures
        r == spec_parse_u64(v@),
{
    let chars = str_to_chars(v);
    if chars.len() == 0 {
        return None;
    }
    let mut acc: u64 = 0;
    let mut k: usize = 0;
    let mut ok = true;
    while k < chars.len()
        invariant
            k <= chars@.len(),
            chars@ == v@,
            chars@.len() > 0,
            k > 0 ==> (ok <==> spec_parse_u64(chars@.take(k as int)) is Some),
            k > 0 && ok ==> spec_parse_u64(chars@.take(k as int)) == Some(acc),
            k == 0 ==> ok && acc == 0,
        decreases chars@.len() - k,
    {
        let c = chars[k];
        let d: u64 = if c == '0' {
            0
        } else if c == '1' {
            1
        } else if c == '2' {
            2
        } else if c == '3' {
            3
        } else if c == '4' {
            4
        } else if c == '5' {
            5
        } else if c == '6' {
            6
        } else if c == '7' {
            7
        } else if c == '8' {
            8
        } else if c == '9' {
            9
        } else {
            10
        };
        proof {
            assert(chars@.take(k + 1).take(k as int) =~= chars@.take(k as int));
            assert(chars@.take(k + 1)[k as int] == chars@[k as int]);
        }
        if d == 10 {
            ok = false;
        } else if !ok {
        } else if k == 0 {
            acc = d;
            proof {
                assert(chars@.take(1int).len() == 1);
                assert(chars@.take(1int)[0] == chars@[0]);
            }
        } else {
            if acc <= (u64::MAX - d) / 10 {
                acc = acc * 10 + d;
            } else {
                ok = false;
            }
        }
        k += 1;
    }
    proof {
        assert(chars@.take(chars@.len() as int) =~= chars@);
    }
    if ok {
        Some(acc)
    } else {
        None
    }
}

impl AppConfig {
    /// Writes one setting by its dotted key, parsing booleans and numbers
    /// with the documented defaults; an unknown key is rejected with
    /// `Error::Config` and leaves the configuration untouched.
    #[verifier::rlimit(100)]
    #[verifier::spinoff_prover]
    pub fn set_value(&mut self, key: &str, value: &str) -> (r: Result<(), Error>)
        ensures
            r is Ok <==> is_settable_key(key@),
            !is_settable_key(key@) ==> *final(self) == *old(self),
            key@ == "general.author"@ ==> *final(self) == (AppConfig {
                general: GeneralConfig { author: final(self).general.author, ..old(self).general },
                ..*old(self)
            }) && (final(self).general.author matches Some(v) && v@ == value@),
            key@ == "general.default_platform"@ ==> *final(self) == (AppConfig {
                general: GeneralConfig {
                    default_platform: final(self).general.default_platform,
                    ..old(self).general
                },
                ..*old(self)
            }) && (final(self).general.default_platform matches Some(v) && v@ == value@),
            key@ == "general.auto_save"@ ==> *final(self) == (AppConfig {
                general: GeneralConfig {
                    auto_save: bool_or(value@, true),
                    ..old(self).general
                },
                ..*old(self)
            }),
            key@ == "general.backup_enabled"@ ==> *final(self) == (AppConfig {
                general: GeneralConfig {
                    backup_enabled: bool_or(value@, true),
                    ..old(self).general
                },
                ..*old(self)
            }),
            key@ == "general.watch_interval"@ ==> *final(self) == (AppConfig {
                general: GeneralConfig {
                    watch_interval: u64_or(value@, 2),
                    ..old(self).general
                },
                ..*old(self)
            }),
            key@ == "wechat.app_id"@ ==> *final(self) == (AppConfig {
                wechat: WeChatConfig { app_id: final(self).wechat.app_id, ..old(self).wechat },
                ..*old(self)
            }) && (final(self).wechat.app_id matches Some(v) && v@ == value@),
            key@ == "wechat.app_secret"@ ==> *final(self) == (AppConfig {
                wechat: WeChatConfig {
                    app_secret: final(self).wechat.app_secret,
                    ..old(self).wechat
                },
                ..*old(self)
            }) && (final(self).wechat.app_secret matches Some(v) && v@ == value@),
            key@ == "wechat.auto_publish"@ ==> *final(self) == (AppConfig {
                wechat: WeChatConfig {
                    auto_publish: bool_or(value@, false),
                    ..old(self).wechat
                },
                ..*old(self)
            }),
            key@ == "wechat.draft_mode"@ ==> *final(self) == (AppConfig {
                wechat: WeChatConfig { draft_mode: bool_or(value@, true), ..old(self).wechat },
                ..*old(self)
            }),
            key@ == "zhihu.username"@ ==> *final(self) == (AppConfig {
                zhihu: ZhihuConfig { username: final(self).zhihu.username, ..old(self).zhihu },
                ..*old(self)
            }) && (final(self).zhihu.username matches Some(v) && v@ == value@),
            key@ == "zhihu.auto_publish"@ ==> *final(self) == (AppConfig {
                zhihu: ZhihuConfig { auto_publish: bool_or(value@, false), ..old(self).zhihu },
                ..*old(self)
            }),
            key@ == "zhihu.enable_math"@ ==> *final(self) == (AppConfig {
                zhihu: ZhihuConfig { enable_math: bool_or(value@, true), ..old(self).zhihu },
                ..*old(self)
            }),
            key@ == "zhihu.code_theme"@ ==> *final(self) == (AppConfig {
                zhihu: ZhihuConfig { code_theme: final(self).zhihu.code_theme, ..old(self).zhihu },
                ..*old(self)
            }) && final(self).zhihu.code_theme@ == value@,
            key@ == "output.output_dir"@ ==> *final(self) == (AppConfig {
                output: OutputConfig {
                    output_dir: final(self).output.output_dir,
                    ..old(self).output
                },
                ..*old(self)
            }) && final(self).output.output_dir@ == value@,
            key@ == "output.create_subdirs"@ ==> *final(self) == (AppConfig {
                output: OutputConfig {
                    create_subdirs: bool_or(value@, true),
                    ..old(self).output
                },
                ..*old(self)
            }),
            key@ == "output.filename_pattern"@ ==> *final(self) == (AppConfig {
                output: OutputConfig {
                    filename_pattern: final(self).output.filename_pattern,
                    ..old(self).output
                },
                ..*old(self)
            }) && final(self).output.filename_pattern@ == value@,
    {
        proof {
            lemma_config_keys_distinct();
        }
        if str_eq(key, "general.author") {
            self.general.author = Some(String::from_str(value));
            Ok(())
        } else if str_eq(key, "general.default_platform") {
            self.general.default_platform = Some(String::from_str(value));
            Ok(())
        } else if str_eq(key, "general.auto_save") {
            self.general.auto_save = match parse_bool(value) {
                Some(b) => b,
                None => true,
            };
            Ok(())
        } else if str_eq(key, "general.backup_enabled") {
            self.general.backup_enabled = match parse_bool(value) {
                Some(b) => b,
                None => true,
            };
            Ok(())
        } else if str_eq(key, "general.watch_interval") {
            self.general.watch_interval = match parse_u64(value) {
                Some(n) => n,
                None => 2,
            };
            Ok(())
        } else if str_eq(key, "wechat.app_id") {
            self.wechat.app_id = Some(String::from_str(value));
            Ok(())
        } else if str_eq(key, "wechat.app_secret") {
            self.wechat.app_secret = Some(String::from_str(value));
            Ok(())
        } else if str_eq(key, "wechat.auto_publish") {
            self.wechat.auto_publish = match parse_bool(value) {
                Some(b) => b,
                None => false,
            };
            Ok(())
        } else if str_eq(key, "wechat.draft_mode") {
            self.wechat.draft_mode = match parse_bool(value) {
                Some(b) => b,
                None => true,
            };
            Ok(())
        } else if str_eq(key, "zhihu.username") {
            self.zhihu.username = Some(String::from_str(value));
            Ok(())
        } else if str_eq(key, "zhihu.auto_publish") {
            self.zhihu.auto_publish = match parse_bool(value) {
                Some(b) => b,
                None => false,
            };
            Ok(())
        } else if str_eq(key, "zhihu.enable_math") {
            self.zhihu.enable_math = match parse_bool(value) {
                Some(b) => b,
                None => true,
            };
            Ok(())
        } else if str_eq(key, "zhihu.code_theme") {
            self.zhihu.code_theme = String::from_str(value);
            Ok(())
        } else if str_eq(key, "output.output_dir") {
            self.output.output_dir = String::from_str(value);
            Ok(())
        } else if str_eq(key, "output.create_subdirs") {
            self.output.create_subdirs = match parse_bool(value) {
                Some(b) => b,
                None => true,
            };
            Ok(())
        } else if str_eq(key, "output.filename_pattern") {
            self.output.filename_pattern = String::from_str(value);
            Ok(())
        } else {
            let mut msg = str_to_chars("未知的配置键: ");
            let kv = str_to_chars(key);
            crate::text::push_all(&mut msg, &kv);
            Err(Error::Config(chars_to_string(&msg)))
        }
    }

    /// Reads one setting by its dotted key: strings verbatim, booleans as
    /// `true`/`false`, numbers in decimal; an unknown key, or an unset
    /// optional setting, yields nothing.
    #[verifier::rlimit(100)]
    #[verifier::spinoff_prover]
    pub fn get_value(&self, key: &str) -> (r: Option<String>)
        ensures
            key@ == "general.author"@ ==> opt_matches(r, self.general.author),
            key@ == "general.default_platform"@ ==> opt_matches(r, self.general.default_platform),
            key@ == "general.auto_save"@ ==> is_bool_str(r, self.general.auto_save),
            key@ == "general.backup_enabled"@ ==> is_bool_str(r, self.general.backup_enabled),
            key@ == "general.watch_interval"@ ==> (r matches Some(x) && x@ == dec_str(
                self.general.watch_interval as int,
            )),
            key@ == "wechat.app_id"@ ==> opt_matches(r, self.wechat.app_id),
            key@ == "wechat.app_secret"@ ==> opt_matches(r, self.wechat.app_secret),
            key@ == "wechat.auto_publish"@ ==> is_bool_str(r, self.wechat.auto_publish),
            key@ == "wechat.draft_mode"@ ==> is_bool_str(r, self.wechat.draft_mode),
            key@ == "zhihu.username"@ ==> opt_matches(r, self.zhihu.username),
            key@ == "zhihu.auto_publish"@ ==> is_bool_str(r, self.zhihu.auto_publish),
            key@ == "zhihu.enable_math"@ ==> is_bool_str(r, self.zhihu.enable_math),
            key@ == "zhihu.code_theme"@ ==> (r matches Some(x) && x@ == self.zhihu.code_theme@),
            key@ == "output.output_dir"@ ==> (r matches Some(x) && x@ == self.output.output_dir@),
            key@ == "output.create_subdirs"@ ==> is_bool_str(r, self.output.create_subdirs),
            key@ == "output.filename_pattern"@ ==> (r matches Some(x) && x@
                == self.output.filename_pattern@),
            !is_gettable_key(key@) ==> r is None,
    {
        proof {
            lemma_config_keys_distinct();
        }
        if str_eq(key, "general.author") {
            clone_opt(&self.general.author)
        } else if str_eq(key, "general.default_platform") {
            clone_opt(&self.general.default_platform)
        } else if str_eq(key, "general.auto_save") {
            Some(bool_string(self.general.auto_save))
        } else if str_eq(key, "general.backup_enabled") {
            Some(bool_string(self.general.backup_enabled))
        } else if str_eq(key, "general.watch_interval") {
            let digits = u64_to_dec_chars(self.general.watch_interval);
            Some(chars_to_string(&digits))
        } else if str_eq(key, "wechat.app_id") {
            clone_opt(&self.wechat.app_id)
        } else if str_eq(key, "wechat.app_secret") {
            clone_opt(&self.wechat.app_secret)
        } else if str_eq(key, "wechat.auto_publish") {
            Some(bool_string(self.wechat.auto_publish))
        } else if str_eq(key, "wechat.draft_mode") {
            Some(bool_string(self.wechat.draft_mode))
        } else if str_eq(key, "zhihu.username") {
            clone_opt(&self.zhihu.username)
        } else if str_eq(key, "zhihu.auto_publish") {
            Some(bool_string(self.zhihu.auto_publish))
        } else if str_eq(key, "zhihu.enable_math") {
            Some(bool_string(self.zhihu.enable_math))
        } else if str_eq(key, "zhihu.code_theme") {
            Some(self.zhihu.code_theme.clone())
        } else if str_eq(key, "output.output_dir") {
            Some(self.output.output_dir.clone())
        } else if str_eq(key, "output.create_subdirs") {
            Some(bool_string(self.output.create_subdirs))
        } else if str_eq(key, "output.filename_pattern") {
            Some(self.output.filename_pattern.clone())
        } else {
            None
        }
    }
}

/// The dotted keys `set_value` accepts.
pub open spec fn is_settable_key(k: Seq<char>) -> bool {
    ||| k == "general.author"@
    ||| k == "general.default_platform"@
    ||| k == "general.auto_save"@
    ||| k == "general.backup_enabled"@
    ||| k == "general.watch_interval"@
    ||| k == "wechat.app_id"@
    ||| k == "wechat.app_secret"@
    ||| k == "wechat.auto_publish"@
    ||| k == "wechat.draft_mode"@
    ||| k == "zhihu.username"@
    ||| k == "zhihu.auto_publish"@
    ||| k == "zhihu.enable_math"@
    ||| k == "zhihu.code_theme"@
    ||| k == "output.output_dir"@
    ||| k == "output.create_subdirs"@
    ||| k == "output.filename_pattern"@
}

/// The dotted keys `get_value` answers; the same set as `is_settable_key`.
pub open spec fn is_gettable_key(k: Seq<char>) -> bool {
    is_settable_key(k)
}

/// The result mirrors an optional string setting.
pub open spec fn opt_matches(r: Option<String>, v: Option<String>) -> bool {
    match v {
        Some(s) => r matches Some(x) && x@ == s@,
        None => r is None,
    }
}

/// The result spells a boolean setting as `true` or `false`.
pub open spec fn is_bool_str(r: Option<String>, b: bool) -> bool {
    r matches Some(x) && x@ == (if b {
        "true"@
    } else {
        "false"@
    })
}

/// A copy of an optional string.
fn clone_opt(v: &Option<String>) -> (r: Option<String>)
    ensures
        opt_matches(r, *v),
{
    match v {
        Some(s) => Some(s.clone()),
        None => None,
    }
}

/// The text of a boolean: `true` or `false`.
fn bool_string(b: bool) -> (r: String)
    ensures
        r@ == (if b {
            "true"@
        } else {
            "false"@
        }),
{
    if b {
        String::from_str("true")
    } else {
        String::from_str("false")
    }
}


/// The dotted configuration keys are pairwise distinct: their lengths, and a
/// distinguishing character for the same-length ones.
proof fn lemma_config_keys_distinct()
    ensures
        "general.author"@.len() == 14,
        "general.default_platform"@.len() == 24,
        "general.auto_save"@.len() == 17,
        "general.backup_enabled"@.len() == 22,
        "general.watch_interval"@.len() == 22,
        "wechat.app_id"@.len() == 13,
        "wechat.app_secret"@.len() == 17,
        "wechat.auto_publish"@.len() == 19,
        "wechat.draft_mode"@.len() == 17,
        "zhihu.username"@.len() == 14,
        "zhihu.auto_publish"@.len() == 18,
        "zhihu.enable_math"@.len() == 17,
        "zhihu.code_theme"@.len() == 16,
        "output.output_dir"@.len() == 17,
        "output.create_subdirs"@.len() == 21,
        "output.filename_pattern"@.len() == 23,
        "general.author"@ != "zhihu.username"@,
        "general.backup_enabled"@ != "general.watch_interval"@,
        "general.auto_save"@ != "wechat.app_secret"@,
        "general.auto_save"@ != "wechat.draft_mode"@,
        "general.auto_save"@ != "zhihu.enable_math"@,
        "general.auto_save"@ != "output.output_dir"@,
        "wechat.app_secret"@ != "wechat.draft_mode"@,
        "wechat.app_secret"@ != "zhihu.enable_math"@,
        "wechat.app_secret"@ != "output.output_dir"@,
        "wechat.draft_mode"@ != "zhihu.enable_math"@,
        "wechat.draft_mode"@ != "output.output_dir"@,
        "zhihu.enable_math"@ != "output.output_dir"@,
{
    reveal_strlit("general.author");
    reveal_strlit("general.default_platform");
    reveal_strlit("general.auto_save");
    reveal_strlit("general.backup_enabled");
    reveal_strlit("general.watch_interval");
    reveal_strlit("wechat.app_id");
    reveal_strlit("wechat.app_secret");
    reveal_strlit("wechat.auto_publish");
    reveal_strlit("wechat.draft_mode");
    reveal_strlit("zhihu.username");
    reveal_strlit("zhihu.auto_publish");
    reveal_strlit("zhihu.enable_math");
    reveal_strlit("zhihu.code_theme");
    reveal_strlit("output.output_dir");
    reveal_strlit("output.create_subdirs");
    reveal_strlit("output.filename_pattern");
    assert("general.author"@[0] != "zhihu.username"@[0]);
    assert("general.backup_enabled"@[8] != "general.watch_interval"@[8]);
    assert("general.auto_save"@[0] != "wechat.app_secret"@[0]);
    assert("general.auto_save"@[0] != "wechat.draft_mode"@[0]);
    assert("general.auto_save"@[0] != "zhihu.enable_math"@[0]);
    assert("general.auto_save"@[0] != "output.output_dir"@[0]);
    assert("wechat.app_secret"@[7] != "wechat.draft_mode"@[7]);
    assert("wechat.app_secret"@[0] != "zhihu.enable_math"@[0]);
    assert("wechat.app_secret"@[0] != "output.output_dir"@[0]);
    assert("wechat.draft_mode"@[0] != "zhihu.enable_math"@[0]);
    assert("wechat.draft_mode"@[0] != "output.output_dir"@[0]);
    assert("zhihu.enable_math"@[0] != "output.output_dir"@[0]);
}


/// Types that own a configuration and let a collaborator read and replace
/// it; the publishing collaborators outside this core implement it.
pub trait ConfigProvider {
    /// The configuration record the implementor owns.
    type Config;

    /// The current configuration.
    fn get_config(&self) -> &Self::Config;

    /// Replaces the configuration.
    fn update_config(&mut self, config: Self::Config);
}

} // verus!
