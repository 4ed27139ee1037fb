use vstd::prelude::*;

use crate::strutil::{
    bool_str_val, digits_val, int_str_val, is_int_str, is_nat_str, parse_bool, parse_i64,
    parse_u64, str_equals_chars,
};

verus! {

/// A failure while assembling the configuration from the environment.
#[derive(Debug)]
pub enum ConfigError {
    /// The environment file could not be loaded; carries the description of
    /// the underlying I/O failure.
    DotEnvError(String),
    /// A required environment variable is missing; carries its name.
    EnvVarMissing(String),
    /// An environment variable holds an unusable value; carries its name and
    /// a description of the problem.
    EnvVarInvalid(String, String),
}

#[derive(Debug)]
pub struct ServerConfig {
    pub port: u16,
    pub host: String,
}

#[derive(Debug)]
pub struct OpenAIConfig {
    pub api_key: String,
    pub base_url: String,
    pub model: String,
}

#[derive(Debug)]
pub struct JWTConfig {
    pub secret: String,
    /// Token lifetime in seconds. May be configured negative to issue
    /// already-expired tokens for test scenarios.
    pub expiration: i64,
}

#[derive(Debug)]
pub struct CookieConfig {
    pub secure: bool,
    pub domain: Option<String>,
    /// One of "Strict", "Lax" or "None".
    pub same_site: String,
}

#[derive(Debug)]
pub struct Config {
    pub server: ServerConfig,
    pub openai: OpenAIConfig,
    pub jwt: JWTConfig,
    pub cookie: CookieConfig,
}

impl Config {
    /// A fixed configuration for tests.
    pub fn default_test_config() -> (c: Config)
        ensures
            c.server.port == 3001,
            c.server.host@ == "127.0.0.1"@,
            c.openai.api_key@ == "test_api_key"@,
            c.openai.base_url@ == "https://api.openai.com/v1"@,
            c.openai.model@ == "gpt-3.5-turbo"@,
            c.jwt.secret@ == "test_secret_key_for_testing_purposes_only"@,
            c.jwt.expiration == 86400,
            c.cookie.secure == false,
            c.cookie.domain is None,
            c.cookie.same_site@ == "None"@,
    {
        Config {
            server: ServerConfig { port: 3001, host: "127.0.0.1".to_owned() },
            openai: OpenAIConfig {
                api_key: "test_api_key".to_owned(),
                base_url: "https://api.openai.com/v1".to_owned(),
                model: "gpt-3.5-turbo".to_owned(),
            },
            jwt: JWTConfig {
                secret: "test_secret_key_for_testing_purposes_only".to_owned(),
                expiration: 86400,
            },
            cookie: CookieConfig {
                secure: false,
                domain: None,
                same_site: "None".to_owned(),
            },
        }
    }
}

/// Whether a configured SameSite value is one of the accepted forms.
pub open spec fn same_site_ok(s: Seq<char>) -> bool {
    s == "Strict"@ || s == "Lax"@ || s == "None"@
}

/// A configured value, or its default where none is configured.
pub open spec fn opt_or(v: Option<String>, default: Seq<char>) -> Seq<char> {
    match v {
        Some(x) => x@,
        None => default,
    }
}

/// Whether an optional port setting denotes a 16-bit port.
pub open spec fn port_setting_ok(port: Option<String>) -> bool {
    match port {
        Some(p) => is_nat_str(p@) && digits_val(p@) <= u16::MAX,
        None => true,
    }
}

/// The port an optional setting denotes.
pub open spec fn port_setting_value(port: Option<String>) -> int {
    match port {
        Some(p) => digits_val(p@),
        None => 3001,
    }
}

/// Whether an optional lifetime setting denotes a signed 64-bit count of
/// seconds.
pub open spec fn expiration_setting_ok(e: Option<String>) -> bool {
    match e {
        Some(x) => is_int_str(x@) && i64::MIN <= int_str_val(x@) <= i64::MAX,
        None => true,
    }
}

/// The token lifetime an optional setting denotes.
pub open spec fn expiration_setting_value(e: Option<String>) -> int {
    match e {
        Some(x) => int_str_val(x@),
        None => 86400,
    }
}

/// Whether an optional cookie-security setting denotes a boolean.
pub open spec fn secure_setting_ok(s: Option<String>) -> bool {
    match s {
        Some(x) => bool_str_val(x@) is Some,
        None => true,
    }
}

/// The cookie-security flag an optional setting denotes.
pub open spec fn secure_setting_value(s: Option<String>) -> bool {
    match s {
        Some(x) => bool_str_val(x@) == Some(true),
        None => false,
    }
}

/// Whether an optional SameSite setting is acceptable.
pub open spec fn same_site_setting_ok(s: Option<String>) -> bool {
    match s {
        Some(x) => same_site_ok(x@),
        None => true,
    }
}

impl Config {
    /// Assemble the configuration from the raw environment values, with
    /// the documented defaults for what is absent: the port and the token
    /// lifetime are parsed, the provider key and the signing secret are
    /// required, the cookie-security flag is parsed, and the SameSite
    /// value is held to its three accepted forms.
    pub fn from_values(
        port: Option<String>,
        host: Option<String>,
        api_key: Option<String>,
        base_url: Option<String>,
        model: Option<String>,
        secret: Option<String>,
        expiration: Option<String>,
        secure: Option<String>,
        domain: Option<String>,
        same_site: Option<String>,
    ) -> (r: Result<Config, ConfigError>)
        ensures
            !port_setting_ok(port) ==> (r matches Err(e) && e matches ConfigError::EnvVarInvalid(
                name,
                _,
            ) && name@ == "SERVER_PORT"@),
            port_setting_ok(port) && api_key is None ==> (r matches Err(e)
                && e matches ConfigError::EnvVarMissing(name) && name@ == "OPENAI_API_KEY"@),
            port_setting_ok(port) && api_key is Some && secret is None ==> (r matches Err(e)
                && e matches ConfigError::EnvVarMissing(name) && name@ == "JWT_SECRET"@),
            port_setting_ok(port) && api_key is Some && secret is Some && !expiration_setting_ok(
                expiration,
            ) ==> (r matches Err(e) && e matches ConfigError::EnvVarInvalid(name, _) && name@
                == "JWT_EXPIRATION"@),
            port_setting_ok(port) && api_key is Some && secret is Some && expiration_setting_ok(
                expiration,
            ) && !secure_setting_ok(secure) ==> (r matches Err(e)
                && e matches ConfigError::EnvVarInvalid(name, _) && name@ == "COOKIE_SECURE"@),
            port_setting_ok(port) && api_key is Some && secret is Some && expiration_setting_ok(
                expiration,
            ) && secure_setting_ok(secure) && !same_site_setting_ok(same_site) ==> (r matches Err(e)
                && e matches ConfigError::EnvVarInvalid(name, _) && name@ == "COOKIE_SAME_SITE"@),
            (port_setting_ok(port) && api_key is Some && secret is Some && expiration_setting_ok(
                expiration,
            ) && secure_setting_ok(secure) && same_site_setting_ok(same_site)) <==> (r is Ok),
            r matches Ok(c) ==> (c.server.port == port_setting_value(port) && c.server.host@
                == opt_or(host, "127.0.0.1"@) && (api_key matches Some(k) ==> c.openai.api_key@
                == k@) && c.openai.base_url@ == opt_or(base_url, "https://api.openai.com/v1"@)
                && c.openai.model@ == opt_or(model, "gpt-3.5-turbo"@) && (secret matches Some(sec)
                ==> c.jwt.secret@ == sec@) && c.jwt.expiration == expiration_setting_value(
                expiration,
            ) && c.cookie.secure == secure_setting_value(secure) && c.cookie.domain.deep_view()
                == domain.deep_view() && c.cookie.same_site@ == opt_or(same_site, "None"@)),
    {
        let port_num: u16 = match port {
            Some(p) => match parse_u64(p.as_str()) {
                Some(v) => {
                    if v <= 65535 {
                        v as u16
                    } else {
                        return Err(ConfigError::EnvVarInvalid(
                            "SERVER_PORT".to_owned(),
                            "not a 16-bit port number".to_owned(),
                        ));
                    }
                },
                None => {
                    return Err(ConfigError::EnvVarInvalid(
                        "SERVER_PORT".to_owned(),
                        "not a 16-bit port number".to_owned(),
                    ));
                },
            },
            None => 3001,
        };
        let host_value = match host {
            Some(h) => h,
            None => "127.0.0.1".to_owned(),
        };
        let api_key_value = match api_key {
            Some(k) => k,
            None => {
                return Err(ConfigError::EnvVarMissing("OPENAI_API_KEY".to_owned()));
            },
        };
        let base_url_value = match base_url {
            Some(b) => b,
            None => "https://api.openai.com/v1".to_owned(),
        };
        let model_value = match model {
            Some(m) => m,
            None => "gpt-3.5-turbo".to_owned(),
        };
        let secret_value = match secret {
            Some(x) => x,
            None => {
                return Err(ConfigError::EnvVarMissing("JWT_SECRET".to_owned()));
            },
        };
        let expiration_num: i64 = match expiration {
            Some(x) => match parse_i64(x.as_str()) {
                Some(v) => v,
                None => {
                    return Err(ConfigError::EnvVarInvalid(
                        "JWT_EXPIRATION".to_owned(),
                        "not a signed count of seconds".to_owned(),
                    ));
                },
            },
            None => 86400,
        };
        let secure_flag: bool = match secure {
            Some(x) => match parse_bool(x.as_str()) {
                Some(v) => v,
                None => {
                    return Err(ConfigError::EnvVarInvalid(
                        "COOKIE_SECURE".to_owned(),
                        "not a boolean".to_owned(),
                    ));
                },
            },
            None => false,
        };
        let same_site_value: String = match same_site {
            Some(x) => {
                let mut strict: Vec<char> = Vec::new();
                strict.push('S');
                strict.push('t');
                strict.push('r');
                strict.push('i');
                strict.push('c');
                strict.push('t');
                let mut lax: Vec<char> = Vec::new();
                lax.push('L');
                lax.push('a');
                lax.push('x');
                let mut none_form: Vec<char> = Vec::new();
                none_form.push('N');
                none_form.push('o');
                none_form.push('n');
                none_form.push('e');
                proof {
                    reveal_strlit("Strict");
                    reveal_strlit("Lax");
                    reveal_strlit("None");
                    assert(strict@ =~= "Strict"@);
                    assert(lax@ =~= "Lax"@);
                    assert(none_form@ =~= "None"@);
                }
                let ok = str_equals_chars(x.as_str(), &strict) || str_equals_chars(
                    x.as_str(),
                    &lax,
                ) || str_equals_chars(x.as_str(), &none_form);
                if ok {
                    x
                } else {
                    return Err(ConfigError::EnvVarInvalid(
                        "COOKIE_SAME_SITE".to_owned(),
                        "must be one of: Strict, Lax, None".to_owned(),
                    ));
                }
            },
            None => "None".to_owned(),
        };
        Ok(
            Config {
                server: ServerConfig { port: port_num, host: host_value },
                openai: OpenAIConfig {
                    api_key: api_key_value,
                    base_url: base_url_value,
                    model: model_value,
                },
                jwt: JWTConfig { secret: secret_value, expiration: expiration_num },
                cookie: CookieConfig {
                    secure: secure_flag,
                    domain,
                    same_site: same_site_value,
                },
            },
        )
    }
}

} // verus!
