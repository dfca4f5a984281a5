//! The settings of the service, read from environment variables.
use crate::text::{
    decimal, law_decimal_read_back, law_unreadable_numbers, opt_text, parse_unsigned, unsigned,
};
use vstd::prelude::*;

verus! {

/// The values of the environment variables that are set.
#[derive(Debug)]
pub struct EnvValues {
    pub host: Option<String>,
    pub port: Option<String>,
    pub upload_dir: Option<String>,
    pub database_path: Option<String>,
    pub queue_capacity: Option<String>,
    pub worker_count: Option<String>,
    pub task_timeout: Option<String>,
    pub cleanup_interval: Option<String>,
    pub cleanup_retention_secs: Option<String>,
    pub hourly_ip_limit: Option<String>,
    pub max_retries: Option<String>,
}

#[derive(Debug)]
pub struct Config {
    pub host: String,
    pub port: u16,
    pub upload_dir: String,
    pub database_path: String,
    /// How many tasks may wait.
    pub queue_capacity: usize,
    pub worker_count: usize,
    /// In seconds.
    pub task_timeout: u64,
    /// In seconds.
    pub cleanup_interval: u64,
    /// How long the files of finished tasks are kept, in seconds.
    pub cleanup_retention_secs: u64,
    /// How many requests a client may make in an hour.
    pub hourly_ip_limit: u32,
    pub max_retries: u8,
}

/// A text setting: its value where it is set, else the default.
pub open spec fn text_setting(value: Option<String>, default: Seq<char>) -> Seq<char> {
    match opt_text(value) {
        Some(s) => s,
        None => default,
    }
}

/// A number setting: the number up to `max` that its value writes, else the default.
pub open spec fn number_setting(value: Option<String>, max: nat, default: nat) -> nat {
    match opt_text(value) {
        Some(s) => match unsigned(s, max) {
            Some(n) => n,
            None => default,
        },
        None => default,
    }
}

fn text_or(value: &Option<String>, default: &str) -> (r: String)
    ensures
        r@ == text_setting(*value, default@),
{
    match value {
        Some(s) => s.clone(),
        None => default.to_owned(),
    }
}

fn number_or(value: &Option<String>, max: u64, default: u64) -> (r: u64)
    requires
        default <= max,
    ensures
        r == number_setting(*value, max as nat, default as nat),
        r <= max,
{
    match value {
        Some(s) => match parse_unsigned(s.as_str(), max) {
            Some(n) => n,
            None => default,
        },
        None => default,
    }
}

impl Config {
    /// The settings are those that the environment gives.
    pub open spec fn is_from(&self, env: EnvValues) -> bool {
        &&& self.host@ == text_setting(env.host, "0.0.0.0"@)
        &&& self.port == number_setting(env.port, u16::MAX as nat, 8080)
        &&& self.upload_dir@ == text_setting(env.upload_dir, "./.tiec/uploads"@)
        &&& self.database_path@ == text_setting(env.database_path, "./.tiec/tasks.db"@)
        &&& self.queue_capacity == number_setting(env.queue_capacity, usize::MAX as nat, 15)
        &&& self.worker_count == number_setting(env.worker_count, usize::MAX as nat, 1)
        &&& self.task_timeout == number_setting(env.task_timeout, u64::MAX as nat, 900)
        &&& self.cleanup_interval == number_setting(env.cleanup_interval, u64::MAX as nat, 3600)
        &&& self.cleanup_retention_secs == number_setting(
            env.cleanup_retention_secs,
            u64::MAX as nat,
            3600,
        )
        &&& self.hourly_ip_limit == number_setting(env.hourly_ip_limit, u32::MAX as nat, 20)
        &&& self.max_retries == number_setting(env.max_retries, u8::MAX as nat, 3)
    }

    /// The settings that the environment gives.
    pub fn from_env(env: &EnvValues) -> (r: Config)
        ensures
            r.host@ == text_setting(env.host, "0.0.0.0"@),
            r.port == number_setting(env.port, u16::MAX as nat, 8080),
            r.upload_dir@ == text_setting(env.upload_dir, "./.tiec/uploads"@),
            r.database_path@ == text_setting(env.database_path, "./.tiec/tasks.db"@),
            r.queue_capacity == number_setting(env.queue_capacity, usize::MAX as nat, 15),
            r.worker_count == number_setting(env.worker_count, usize::MAX as nat, 1),
            r.task_timeout == number_setting(env.task_timeout, u64::MAX as nat, 900),
            r.cleanup_interval == number_setting(env.cleanup_interval, u64::MAX as nat, 3600),
            r.cleanup_retention_secs == number_setting(
                env.cleanup_retention_secs,
                u64::MAX as nat,
                3600,
            ),
            r.hourly_ip_limit == number_setting(env.hourly_ip_limit, u32::MAX as nat, 20),
            r.max_retries == number_setting(env.max_retries, u8::MAX as nat, 3),
            r.is_from(*env),
    {
        Config {
            host: text_or(&env.host, "0.0.0.0"),
            port: number_or(&env.port, u16::MAX as u64, 8080) as u16,
            upload_dir: text_or(&env.upload_dir, "./.tiec/uploads"),
            database_path: text_or(&env.database_path, "./.tiec/tasks.db"),
            queue_capacity: number_or(&env.queue_capacity, usize::MAX as u64, 15) as usize,
            worker_count: number_or(&env.worker_count, usize::MAX as u64, 1) as usize,
            task_timeout: number_or(&env.task_timeout, u64::MAX, 900),
            cleanup_interval: number_or(&env.cleanup_interval, u64::MAX, 3600),
            cleanup_retention_secs: number_or(&env.cleanup_retention_secs, u64::MAX, 3600),
            hourly_ip_limit: number_or(&env.hourly_ip_limit, u32::MAX as u64, 20) as u32,
            max_retries: number_or(&env.max_retries, u8::MAX as u64, 3) as u8,
        }
    }
}

/// A text setting that is set counts as it stands, whatever it holds.
pub proof fn law_text_setting(value: String, default: Seq<char>)
    ensures
        text_setting(Some(value), default) == value@,
        text_setting(None, default) == default,
{
}

/// A number setting counts as it is written, from nothing up to the greatest number that it can
/// have. A value that writes no number, or one that is too great, counts like none.
pub proof fn law_number_setting(value: String, n: nat, max: nat, default: nat)
    ensures
        value@ == decimal(n) && n <= max ==> number_setting(Some(value), max, default) == n,
        value@ == decimal(n) && n > max ==> number_setting(Some(value), max, default) == default,
        value@.len() == 0 ==> number_setting(Some(value), max, default) == default,
        (exists|i: int|
            1 <= i < value@.len() && !('0' <= (#[trigger] value@[i]) <= '9')) ==> number_setting(
            Some(value),
            max,
            default,
        ) == default,
        number_setting(None, max, default) == default,
{
    if n <= max {
        law_decimal_read_back(n, max);
    } else {
        law_unreadable_numbers(n, max, seq!['-'], 0);
    }
    if exists|i: int| 1 <= i < value@.len() && !('0' <= (#[trigger] value@[i]) <= '9') {
        let i = choose|i: int| 1 <= i < value@.len() && !('0' <= (#[trigger] value@[i]) <= '9');
        law_unreadable_numbers(n, max, value@, i);
    }
}

/// Every variable that writes a number sets the setting of its name to that number, whatever the
/// others hold.
pub proof fn law_each_variable_sets_its_own(c: Config, env: EnvValues, value: String, n: nat)
    requires
        c.is_from(env),
        value@ == decimal(n),
        n <= u8::MAX,
    ensures
        env.port == Some(value) ==> c.port == n,
        env.queue_capacity == Some(value) ==> c.queue_capacity == n,
        env.worker_count == Some(value) ==> c.worker_count == n,
        env.task_timeout == Some(value) ==> c.task_timeout == n,
        env.cleanup_interval == Some(value) ==> c.cleanup_interval == n,
        env.cleanup_retention_secs == Some(value) ==> c.cleanup_retention_secs == n,
        env.hourly_ip_limit == Some(value) ==> c.hourly_ip_limit == n,
        env.max_retries == Some(value) ==> c.max_retries == n,
        env.host == Some(value) ==> c.host@ == value@,
        env.upload_dir == Some(value) ==> c.upload_dir@ == value@,
        env.database_path == Some(value) ==> c.database_path@ == value@,
{
    law_number_setting(value, n, u16::MAX as nat, 8080);
    law_number_setting(value, n, usize::MAX as nat, 15);
    law_number_setting(value, n, usize::MAX as nat, 1);
    law_number_setting(value, n, u64::MAX as nat, 900);
    law_number_setting(value, n, u64::MAX as nat, 3600);
    law_number_setting(value, n, u32::MAX as nat, 20);
    law_number_setting(value, n, u8::MAX as nat, 3);
}

/// Great numbers are set as they are written too, as far as the setting goes.
pub proof fn law_great_settings(c: Config, env: EnvValues, value: String, n: nat)
    requires
        c.is_from(env),
        value@ == decimal(n),
    ensures
        env.port == Some(value) && n <= 65535 ==> c.port == n,
        env.queue_capacity == Some(value) && n <= usize::MAX ==> c.queue_capacity == n,
        env.worker_count == Some(value) && n <= usize::MAX ==> c.worker_count == n,
        env.task_timeout == Some(value) && n <= u64::MAX ==> c.task_timeout == n,
        env.cleanup_interval == Some(value) && n <= u64::MAX ==> c.cleanup_interval == n,
        env.cleanup_retention_secs == Some(value) && n <= u64::MAX ==> c.cleanup_retention_secs
            == n,
        env.hourly_ip_limit == Some(value) && n <= u32::MAX ==> c.hourly_ip_limit == n,
{
    law_number_setting(value, n, u16::MAX as nat, 8080);
    law_number_setting(value, n, usize::MAX as nat, 15);
    law_number_setting(value, n, usize::MAX as nat, 1);
    law_number_setting(value, n, u64::MAX as nat, 900);
    law_number_setting(value, n, u64::MAX as nat, 3600);
    law_number_setting(value, n, u32::MAX as nat, 20);
}

/// Without any variable the service listens on all addresses at port 8080, lets 15 tasks wait and
/// one worker run them for 15 minutes each, keeps files for an hour and cleans up as often, allows
/// a client 20 requests in an hour and retries a task three times.
pub proof fn law_default_settings(c: Config, env: EnvValues)
    requires
        c.is_from(env),
    ensures
        env.host is None ==> c.host@ == "0.0.0.0"@,
        env.port is None ==> c.port == 8080,
        env.queue_capacity is None ==> c.queue_capacity == 15,
        env.worker_count is None ==> c.worker_count == 1,
        env.task_timeout is None ==> c.task_timeout == 15 * 60,
        env.cleanup_interval is None ==> c.cleanup_interval == 60 * 60,
        env.cleanup_retention_secs is None ==> c.cleanup_retention_secs == 60 * 60,
        env.hourly_ip_limit is None ==> c.hourly_ip_limit == 20,
        env.max_retries is None ==> c.max_retries == 3,
{
}

} // verus!
