//! The command layer's data model: what a parsed invocation asks for, and
//! which platforms a request resolves to. Argument parsing itself and the
//! commands' file and network work live outside the core.

use vstd::prelude::*;

verus! {

use vstd::string::StringExecFns;
use crate::config::AppConfig;
use crate::text::str_eq;

/// A parsed invocation.
pub struct Cli {
    /// What to do.
    pub command: Commands,
    /// Whether debug logging was asked for.
    pub debug: bool,
    /// An explicit configuration file location, if any.
    pub config: Option<String>,
}

/// The commands the tool offers.
pub enum Commands {
    /// Compile one source file and adapt it for the target platforms.
    Process {
        /// The source file.
        input: String,
        /// Where outputs go, overriding the configuration.
        output: Option<String>,
        /// The target platform; the configured default when absent.
        platform: Option<Platform>,
        /// Print instead of writing files.
        preview: bool,
    },
    /// Watch a directory and process files as they change.
    Watch {
        /// The directory to watch.
        directory: String,
        /// Where outputs go.
        output: Option<String>,
        /// The file pattern to react to.
        pattern: String,
    },
    /// Publish content to a platform.
    Publish {
        /// A content identifier or file location.
        content: String,
        /// The target platform.
        platform: Platform,
        /// Whether to create a draft.
        draft: bool,
    },
    /// Serve a preview over HTTP.
    Serve {
        /// The port to bind.
        port: u16,
        /// The address to bind.
        host: String,
        /// Where static files live.
        static_dir: Option<String>,
    },
    /// Read or write configuration.
    Config {
        /// What to do with the configuration.
        action: ConfigAction,
    },
    /// Manage templates.
    Template {
        /// What to do with the templates.
        action: TemplateAction,
    },
}

/// Configuration subcommands.
pub enum ConfigAction {
    /// Print the whole configuration.
    Show,
    /// Write one setting.
    SetValue {
        /// The dotted key.
        key: String,
        /// The new value.
        value: String,
    },
    /// Read one setting.
    Get {
        /// The dotted key.
        key: String,
    },
    /// Write a fresh default configuration.
    Init,
}

/// Template subcommands.
pub enum TemplateAction {
    /// List the templates.
    List,
    /// Register a template.
    Create {
        /// Its name.
        name: String,
        /// Its file.
        file: String,
    },
    /// Remove a template.
    Delete {
        /// Its name.
        name: String,
    },
    /// Render a file through a template.
    Apply {
        /// The template's name.
        name: String,
        /// The source file.
        input: String,
        /// Where the result goes.
        output: Option<String>,
    },
}

/// A target platform as named on the command line.
#[derive(Debug, Clone)]
pub enum Platform {
    /// The WeChat-style platform.
    WeChat,
    /// The Zhihu-style platform.
    Zhihu,
    /// Every platform.
    All,
}

impl Platform {
    /// The lowercase name of the platform.
    pub fn to_string(&self) -> (r: String)
        ensures
            r@ == match *self {
                Platform::WeChat => "wechat"@,
                Platform::Zhihu => "zhihu"@,
                Platform::All => "all"@,
            },
    {
        match self {
            Platform::WeChat => String::from_str("wechat"),
            Platform::Zhihu => String::from_str("zhihu"),
            Platform::All => String::from_str("all"),
        }
    }
}

/// The concrete platforms a request resolves to: `All` (or an unset
/// configured default, or an unrecognised one) means both, in the fixed
/// order WeChat then Zhihu; a named platform means itself alone.
pub open spec fn spec_target_platforms(req: Option<Platform>, dp: Option<Seq<char>>) -> Seq<
    Platform,
> {
    match req {
        Some(Platform::All) => seq![Platform::WeChat, Platform::Zhihu],
        Some(p) => seq![p],
        None => match dp {
            Some(d) => if d == "wechat"@ {
                seq![Platform::WeChat]
            } else if d == "zhihu"@ {
                seq![Platform::Zhihu]
            } else {
                seq![Platform::WeChat, Platform::Zhihu]
            },
            None => seq![Platform::WeChat, Platform::Zhihu],
        },
    }
}

/// The configured default platform, as a character sequence.
pub open spec fn spec_default_platform(config: AppConfig) -> Option<Seq<char>> {
    match config.general.default_platform {
        Some(d) => Some(d@),
        None => None,
    }
}

/// Resolves a requested platform against the configured default, as
/// `spec_target_platforms` describes.
pub fn determine_target_platforms(platform: Option<Platform>, config: &AppConfig) -> (r: Vec<
    Platform,
>)
    ensures
        r@ == spec_target_platforms(platform, spec_default_platform(*config)),
{
    let mut r: Vec<Platform> = Vec::new();
    match platform {
        Some(Platform::All) => {
            r.push(Platform::WeChat);
            r.push(Platform::Zhihu);
            proof {
                assert(r@ =~= seq![Platform::WeChat, Platform::Zhihu]);
            }
        },
        Some(p) => {
            let ghost gp = p;
            r.push(p);
            proof {
                assert(r@ =~= seq![gp]);
            }
        },
        None => {
            let both = match &config.general.default_platform {
                Some(d) => {
                    if str_eq(d.as_str(), "wechat") {
                        r.push(Platform::WeChat);
                        false
                    } else if str_eq(d.as_str(), "zhihu") {
                        r.push(Platform::Zhihu);
                        false
                    } else {
                        true
                    }
                },
                None => true,
            };
            if both {
                r.push(Platform::WeChat);
                r.push(Platform::Zhihu);
                proof {
                    assert(r@ =~= seq![Platform::WeChat, Platform::Zhihu]);
                }
            } else {
                proof {
                    assert(r@.len() == 1);
                    assert(r@ =~= seq![r@[0]]);
                }
            }
        },
    }
    r
}

} // verus!
