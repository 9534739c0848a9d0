//! Connection configuration, prompt-detection settings and per-command options.

use vstd::prelude::*;
use crate::clock::now_millis;
use crate::ident::fresh_id;

verus! {

/// How the completion of a command is recognised in the shell's output.
#[derive(Debug)]
pub struct PromptConfig {
    /// Literal prompt suffixes, tried in this order.
    pub patterns: Vec<String>,
    /// Match only against the trailing line of fresh output.
    pub smart_detection: bool,
    /// Wall-clock bound on one command, in milliseconds.
    pub max_wait_time: u64,
    /// Number of consecutive empty reads after which the shell counts as quiet.
    pub max_empty_reads: u32,
}

/// Overrides that hold for a single command execution.
#[derive(Debug)]
pub struct CommandOptions {
    /// Replaces the configured prompt patterns for this call.
    pub custom_prompts: Option<Vec<String>>,
    /// Replaces the configured wall-clock bound for this call, in milliseconds.
    pub timeout: Option<u64>,
    /// Keep reading until a prompt shows or the shell goes quiet.
    pub wait_for_prompt: bool,
    /// Ask the caller's I/O layer to trace the exchange.
    pub debug_output: bool,
}

/// Which credentials a connection presents.
#[derive(Debug, Clone, Copy, PartialEq, Eq, Structural)]
pub enum AuthMethod {
    Password,
    PrivateKey,
    Both,
}

/// Where a session stands in its life cycle.
#[derive(Debug)]
pub enum ConnectionStatus {
    Disconnected,
    Connecting,
    Connected,
    Error(String),
}

/// The character sequences of a list of strings.
pub open spec fn texts(list: Seq<String>) -> Seq<Seq<char>> {
    Seq::new(list.len(), |i: int| list[i]@)
}

/// The character sequence of an optional string.
pub open spec fn optional_text(text: Option<String>) -> Option<Seq<char>> {
    match text {
        Some(s) => Some(s@),
        None => None,
    }
}

/// What a `PromptConfig` stands for.
pub struct PromptModel {
    pub patterns: Seq<Seq<char>>,
    pub smart_detection: bool,
    pub max_wait_time: u64,
    pub max_empty_reads: u32,
}

/// What a `CommandOptions` stands for.
pub struct OptionsModel {
    pub custom_prompts: Option<Seq<Seq<char>>>,
    pub timeout: Option<u64>,
    pub wait_for_prompt: bool,
    pub debug_output: bool,
}

/// What a `ConnectionStatus` stands for.
pub enum StatusModel {
    Disconnected,
    Connecting,
    Connected,
    Error(Seq<char>),
}

impl View for PromptConfig {
    type V = PromptModel;

    open spec fn view(&self) -> PromptModel {
        PromptModel {
            patterns: texts(self.patterns@),
            smart_detection: self.smart_detection,
            max_wait_time: self.max_wait_time,
            max_empty_reads: self.max_empty_reads,
        }
    }
}

impl View for CommandOptions {
    type V = OptionsModel;

    open spec fn view(&self) -> OptionsModel {
        OptionsModel {
            custom_prompts: match self.custom_prompts {
                Some(list) => Some(texts(list@)),
                None => None,
            },
            timeout: self.timeout,
            wait_for_prompt: self.wait_for_prompt,
            debug_output: self.debug_output,
        }
    }
}

impl View for ConnectionStatus {
    type V = StatusModel;

    open spec fn view(&self) -> StatusModel {
        match self {
            ConnectionStatus::Disconnected => StatusModel::Disconnected,
            ConnectionStatus::Connecting => StatusModel::Connecting,
            ConnectionStatus::Connected => StatusModel::Connected,
            ConnectionStatus::Error(reason) => StatusModel::Error(reason@),
        }
    }
}

/// A copy of a list of strings.
pub fn clone_strings(list: &Vec<String>) -> (copy: Vec<String>)
    ensures
        texts(copy@) == texts(list@),
{
    let mut copy: Vec<String> = Vec::new();
    let mut i: usize = 0;
    while i < list.len()
        invariant
            i <= list.len(),
            copy.len() == i,
            forall|j: int| 0 <= j < i ==> copy@[j]@ == list@[j]@,
        decreases list.len() - i,
    {
        copy.push(list[i].clone());
        i += 1;
    }
    proof {
        assert(texts(copy@) =~= texts(list@));
    }
    copy
}

/// A copy of an optional string.
pub fn clone_optional(text: &Option<String>) -> (copy: Option<String>)
    ensures
        optional_text(copy) == optional_text(*text),
{
    match text {
        Some(s) => Some(s.clone()),
        None => None,
    }
}

impl Clone for PromptConfig {
    fn clone(&self) -> (copy: Self)
        ensures
            copy@ == self@,
    {
        PromptConfig {
            patterns: clone_strings(&self.patterns),
            smart_detection: self.smart_detection,
            max_wait_time: self.max_wait_time,
            max_empty_reads: self.max_empty_reads,
        }
    }
}

impl Clone for CommandOptions {
    fn clone(&self) -> (copy: Self)
        ensures
            copy@ == self@,
    {
        let custom_prompts: Option<Vec<String>> = match &self.custom_prompts {
            Some(list) => Some(clone_strings(list)),
            None => None,
        };
        CommandOptions {
            custom_prompts,
            timeout: self.timeout,
            wait_for_prompt: self.wait_for_prompt,
            debug_output: self.debug_output,
        }
    }
}

impl Clone for ConnectionStatus {
    fn clone(&self) -> (copy: Self)
        ensures
            copy@ == self@,
    {
        match self {
            ConnectionStatus::Disconnected => ConnectionStatus::Disconnected,
            ConnectionStatus::Connecting => ConnectionStatus::Connecting,
            ConnectionStatus::Connected => ConnectionStatus::Connected,
            ConnectionStatus::Error(reason) => ConnectionStatus::Error(reason.clone()),
        }
    }
}

impl ConnectionStatus {
    /// Whether the session is usable.
    pub fn is_connected(&self) -> (yes: bool)
        ensures
            yes == (self@ is Connected),
    {
        match self {
            ConnectionStatus::Connected => true,
            _ => false,
        }
    }
}

/// Why a configuration cannot be used to connect.
#[derive(Debug, Clone, Copy, PartialEq, Eq, Structural)]
pub enum ConfigError {
    EmptyName,
    EmptyHost,
    EmptyUsername,
    ZeroPort,
    PasswordRequired,
    PrivateKeyRequired,
    CredentialRequired,
}

impl ConfigError {
    /// The text shown to the user for this defect.
    pub open spec fn text(self) -> Seq<char> {
        match self {
            ConfigError::EmptyName => "连接名称不能为空"@,
            ConfigError::EmptyHost => "主机地址不能为空"@,
            ConfigError::EmptyUsername => "用户名不能为空"@,
            ConfigError::ZeroPort => "端口号不能为0"@,
            ConfigError::PasswordRequired => "密码认证需要提供密码"@,
            ConfigError::PrivateKeyRequired => "密钥认证需要提供私钥路径"@,
            ConfigError::CredentialRequired => "混合认证需要提供密码或私钥"@,
        }
    }

    /// The text shown to the user for this defect.
    pub fn message(self) -> (msg: String)
        ensures
            msg@ == self.text(),
    {
        match self {
            ConfigError::EmptyName => "连接名称不能为空".to_owned(),
            ConfigError::EmptyHost => "主机地址不能为空".to_owned(),
            ConfigError::EmptyUsername => "用户名不能为空".to_owned(),
            ConfigError::ZeroPort => "端口号不能为0".to_owned(),
            ConfigError::PasswordRequired => "密码认证需要提供密码".to_owned(),
            ConfigError::PrivateKeyRequired => "密钥认证需要提供私钥路径".to_owned(),
            ConfigError::CredentialRequired => "混合认证需要提供密码或私钥".to_owned(),
        }
    }
}

/// A saved connection: identity, target, credentials and prompt settings.
#[derive(Debug)]
pub struct ConnectionConfig {
    pub id: String,
    pub name: String,
    pub host: String,
    pub port: u16,
    pub username: String,
    pub password: Option<String>,
    pub private_key_path: Option<String>,
    pub auth_method: AuthMethod,
    pub connected: bool,
    pub active: bool,
    pub prompt_config: PromptConfig,
    /// Creation time, in milliseconds since the Unix epoch.
    pub created_at: i64,
    /// Time of the last change, in milliseconds since the Unix epoch.
    pub updated_at: i64,
}

/// What a `ConnectionConfig` stands for.
pub struct ConfigModel {
    pub id: Seq<char>,
    pub name: Seq<char>,
    pub host: Seq<char>,
    pub port: u16,
    pub username: Seq<char>,
    pub password: Option<Seq<char>>,
    pub private_key_path: Option<Seq<char>>,
    pub auth_method: AuthMethod,
    pub connected: bool,
    pub active: bool,
    pub prompt_config: PromptModel,
    pub created_at: i64,
    pub updated_at: i64,
}

impl ConfigModel {
    /// The first defect of the configuration, in the order in which the
    /// fields are checked, or `None` for a usable one.
    pub open spec fn defect(self) -> Option<ConfigError> {
        if self.name.len() == 0 {
            Some(ConfigError::EmptyName)
        } else if self.host.len() == 0 {
            Some(ConfigError::EmptyHost)
        } else if self.username.len() == 0 {
            Some(ConfigError::EmptyUsername)
        } else if self.port == 0 {
            Some(ConfigError::ZeroPort)
        } else {
            match self.auth_method {
                AuthMethod::Password => if self.password is None {
                    Some(ConfigError::PasswordRequired)
                } else {
                    None
                },
                AuthMethod::PrivateKey => if self.private_key_path is None {
                    Some(ConfigError::PrivateKeyRequired)
                } else {
                    None
                },
                AuthMethod::Both => if self.password is None && self.private_key_path is None {
                    Some(ConfigError::CredentialRequired)
                } else {
                    None
                },
            }
        }
    }
}

impl View for ConnectionConfig {
    type V = ConfigModel;

    open spec fn view(&self) -> ConfigModel {
        ConfigModel {
            id: self.id@,
            name: self.name@,
            host: self.host@,
            port: self.port,
            username: self.username@,
            password: optional_text(self.password),
            private_key_path: optional_text(self.private_key_path),
            auth_method: self.auth_method,
            connected: self.connected,
            active: self.active,
            prompt_config: self.prompt_config@,
            created_at: self.created_at,
            updated_at: self.updated_at,
        }
    }
}

impl Clone for ConnectionConfig {
    fn clone(&self) -> (copy: Self)
        ensures
            copy@ == self@,
    {
        ConnectionConfig {
            id: self.id.clone(),
            name: self.name.clone(),
            host: self.host.clone(),
            port: self.port,
            username: self.username.clone(),
            password: clone_optional(&self.password),
            private_key_path: clone_optional(&self.private_key_path),
            auth_method: self.auth_method,
            connected: self.connected,
            active: self.active,
            prompt_config: self.prompt_config.clone(),
            created_at: self.created_at,
            updated_at: self.updated_at,
        }
    }
}

/// The prompt suffixes that are tried when a configuration names none.
pub open spec fn default_patterns() -> Seq<Seq<char>> {
    seq!["]# "@, "$ "@, "> "@, "# "@, "% "@]
}

/// The value of the `connected` and `active` flags of a configuration that
/// does not state them.
pub fn default_false() -> (flag: bool)
    ensures
        !flag,
{
    false
}

/// The prompt settings of a configuration that does not state them.
pub fn default_prompt_config() -> (config: PromptConfig)
    ensures
        config@ == (PromptModel {
            patterns: default_patterns(),
            smart_detection: true,
            max_wait_time: 10_000,
            max_empty_reads: 10,
        }),
{
    let mut patterns: Vec<String> = Vec::new();
    patterns.push("]# ".to_owned());
    patterns.push("$ ".to_owned());
    patterns.push("> ".to_owned());
    patterns.push("# ".to_owned());
    patterns.push("% ".to_owned());
    proof {
        assert(texts(patterns@) =~= default_patterns());
    }
    PromptConfig { patterns, smart_detection: true, max_wait_time: 10_000, max_empty_reads: 10 }
}

impl Default for CommandOptions {
    fn default() -> (options: Self)
        ensures
            options@ == (OptionsModel {
                custom_prompts: None,
                timeout: None,
                wait_for_prompt: true,
                debug_output: false,
            }),
    {
        CommandOptions {
            custom_prompts: None,
            timeout: None,
            wait_for_prompt: true,
            debug_output: false,
        }
    }
}

impl ConnectionConfig {
    /// A configuration for `username@host:22` with the given identity and
    /// time stamp, password authentication and no credential yet.
    pub fn with_identity(id: String, name: String, host: String, username: String, now: i64) -> (config:
        Self)
        ensures
            config@ == (ConfigModel {
                id: id@,
                name: name@,
                host: host@,
                port: 22,
                username: username@,
                password: None,
                private_key_path: None,
                auth_method: AuthMethod::Password,
                connected: false,
                active: false,
                prompt_config: PromptModel {
                    patterns: default_patterns(),
                    smart_detection: true,
                    max_wait_time: 10_000,
                    max_empty_reads: 10,
                },
                created_at: now,
                updated_at: now,
            }),
    {
        ConnectionConfig {
            id,
            name,
            host,
            port: 22,
            username,
            password: None,
            private_key_path: None,
            auth_method: AuthMethod::Password,
            connected: false,
            active: false,
            prompt_config: default_prompt_config(),
            created_at: now,
            updated_at: now,
        }
    }

    /// A configuration for `username@host:22` under a fresh identifier,
    /// stamped with the current time.
    pub fn new(name: String, host: String, username: String) -> (config: Self)
        ensures
            config@.id.len() == 36,
            config@.created_at == config@.updated_at,
            config@ == (ConfigModel {
                id: config@.id,
                name: name@,
                host: host@,
                port: 22,
                username: username@,
                password: None,
                private_key_path: None,
                auth_method: AuthMethod::Password,
                connected: false,
                active: false,
                prompt_config: PromptModel {
                    patterns: default_patterns(),
                    smart_detection: true,
                    max_wait_time: 10_000,
                    max_empty_reads: 10,
                },
                created_at: config@.created_at,
                updated_at: config@.created_at,
            }),
    {
        let id: String = fresh_id();
        let now: i64 = now_millis();
        ConnectionConfig::with_identity(id, name, host, username, now)
    }

    /// Records `now` as the time of the last change.
    pub fn touch(&mut self, now: i64)
        ensures
            final(self)@ == (ConfigModel { updated_at: now, ..old(self)@ }),
    {
        self.updated_at = now;
    }

    /// Records the current time as the time of the last change.
    pub fn update(&mut self)
        ensures
            final(self)@ == (ConfigModel { updated_at: final(self)@.updated_at, ..old(self)@ }),
    {
        let now: i64 = now_millis();
        self.touch(now);
    }

    /// The first defect of the configuration, if it has one.
    pub fn check(&self) -> (result: Result<(), ConfigError>)
        ensures
            match result {
                Ok(_) => self@.defect() is None,
                Err(e) => self@.defect() == Some(e),
            },
    {
        if self.name.as_str().is_empty() {
            return Err(ConfigError::EmptyName);
        }
        if self.host.as_str().is_empty() {
            return Err(ConfigError::EmptyHost);
        }
        if self.username.as_str().is_empty() {
            return Err(ConfigError::EmptyUsername);
        }
        if self.port == 0 {
            return Err(ConfigError::ZeroPort);
        }
        match self.auth_method {
            AuthMethod::Password => {
                if self.password.is_none() {
                    return Err(ConfigError::PasswordRequired);
                }
            },
            AuthMethod::PrivateKey => {
                if self.private_key_path.is_none() {
                    return Err(ConfigError::PrivateKeyRequired);
                }
            },
            AuthMethod::Both => {
                if self.password.is_none() && self.private_key_path.is_none() {
                    return Err(ConfigError::CredentialRequired);
                }
            },
        }
        Ok(())
    }

    /// Accepts a usable configuration and names the first defect of any
    /// other in words.
    pub fn validate(&self) -> (result: Result<(), String>)
        ensures
            match result {
                Ok(_) => self@.defect() is None,
                Err(msg) => self@.defect() is Some && msg@ == self@.defect()->0.text(),
            },
    {
        match self.check() {
            Ok(_) => Ok(()),
            Err(e) => Err(e.message()),
        }
    }
}

impl Default for ConnectionConfig {
    fn default() -> (config: Self)
        ensures
            config@.id.len() == 36,
            config@.name.len() == 0,
            config@.host.len() == 0,
            config@.username.len() == 0,
            config@.port == 22,
            config@.password is None,
            config@.private_key_path is None,
            config@.auth_method == AuthMethod::Password,
            !config@.connected,
            !config@.active,
            config@.prompt_config.patterns == default_patterns(),
            config@.prompt_config.smart_detection,
            config@.prompt_config.max_wait_time == 10_000,
            config@.prompt_config.max_empty_reads == 10,
            config@.created_at == config@.updated_at,
    {
        ConnectionConfig::new(String::new(), String::new(), String::new())
    }
}

/// A tab of the user interface, which refers to a connection.
#[derive(Debug)]
pub struct TabInfo {
    pub id: String,
    pub connection_id: String,
    pub title: String,
    pub active: bool,
    /// Creation time, in milliseconds since the Unix epoch.
    pub created_at: i64,
    /// Time of the last change, in milliseconds since the Unix epoch.
    pub updated_at: i64,
}

/// What a `TabInfo` stands for.
pub struct TabModel {
    pub id: Seq<char>,
    pub connection_id: Seq<char>,
    pub title: Seq<char>,
    pub active: bool,
    pub created_at: i64,
    pub updated_at: i64,
}

impl View for TabInfo {
    type V = TabModel;

    open spec fn view(&self) -> TabModel {
        TabModel {
            id: self.id@,
            connection_id: self.connection_id@,
            title: self.title@,
            active: self.active,
            created_at: self.created_at,
            updated_at: self.updated_at,
        }
    }
}

impl Clone for TabInfo {
    fn clone(&self) -> (copy: Self)
        ensures
            copy@ == self@,
    {
        TabInfo {
            id: self.id.clone(),
            connection_id: self.connection_id.clone(),
            title: self.title.clone(),
            active: self.active,
            created_at: self.created_at,
            updated_at: self.updated_at,
        }
    }
}

impl TabInfo {
    /// An inactive tab with the given identity, created at `now`.
    pub fn with_identity(id: String, connection_id: String, title: String, now: i64) -> (tab: Self)
        ensures
            tab@ == (TabModel {
                id: id@,
                connection_id: connection_id@,
                title: title@,
                active: false,
                created_at: now,
                updated_at: now,
            }),
    {
        TabInfo { id, connection_id, title, active: false, created_at: now, updated_at: now }
    }

    /// An inactive tab under a fresh identifier, created now.
    pub fn new(connection_id: String, title: String) -> (tab: Self)
        ensures
            tab@ == (TabModel {
                id: tab@.id,
                connection_id: connection_id@,
                title: title@,
                active: false,
                created_at: tab@.created_at,
                updated_at: tab@.created_at,
            }),
            tab@.id.len() == 36,
    {
        let id: String = fresh_id();
        let now: i64 = now_millis();
        TabInfo::with_identity(id, connection_id, title, now)
    }

    /// Records `now` as the time of the last change.
    pub fn touch(&mut self, now: i64)
        ensures
            final(self)@ == (TabModel { updated_at: now, ..old(self)@ }),
    {
        self.updated_at = now;
    }

    /// Records the current time as the time of the last change.
    pub fn update(&mut self)
        ensures
            final(self)@ == (TabModel { updated_at: final(self)@.updated_at, ..old(self)@ }),
    {
        let now: i64 = now_millis();
        self.touch(now);
    }
}

impl Default for TabInfo {
    fn default() -> (tab: Self)
        ensures
            tab@ == (TabModel {
                id: tab@.id,
                connection_id: Seq::<char>::empty(),
                title: Seq::<char>::empty(),
                active: false,
                created_at: tab@.created_at,
                updated_at: tab@.created_at,
            }),
            tab@.id.len() == 36,
    {
        TabInfo::new(String::new(), String::new())
    }
}

} // verus!
