//! Layered configuration resolution.
//!
//! A configuration document is a flat list of `(key, value)` pairs, the key
//! being a dotted path such as `database.port`. Resolution overlays three
//! layers — a base document, an environment-specific document and
//! process-environment overrides — with later layers winning per key, then
//! type-checks the merged tree into the strongly typed [`Configurations`].
//!
//! Reading the documents from disk and reading the process environment are
//! left to the surrounding binary; this module holds the merge precedence,
//! the environment selection, the override-key scheme and the coercion
//! rules, all of them verified.

use vstd::prelude::*;

use crate::domain::{is_valid_email, SubscriberEmail};
use crate::text::{ascii_eq_ignore_case, ascii_lower_char, eq_ignore_ascii_case, lower_char, push_char};

verus! {

/// A leaf value of a configuration document: numeric fields may arrive
/// either as bare numbers or as strings.
#[derive(Debug)]
pub enum ConfigValue {
    Integer(i64),
    Text(String),
}

/// One binding of a configuration document.
#[derive(Debug)]
pub struct ConfigEntry {
    /// Dotted path of the field, such as `application.port`.
    pub key: String,
    pub value: ConfigValue,
}

/// A configuration document: the bindings of one source, in source order.
/// When a key is bound twice, the later binding wins.
#[derive(Debug)]
pub struct Document {
    pub entries: Vec<ConfigEntry>,
}

impl View for Document {
    type V = Seq<ConfigEntry>;

    open spec fn view(&self) -> Seq<ConfigEntry> {
        self.entries@
    }
}

/// The value bound to `key`: the last binding wins.
pub open spec fn lookup(entries: Seq<ConfigEntry>, key: Seq<char>) -> Option<ConfigValue>
    decreases entries.len(),
{
    if entries.len() == 0 {
        None
    } else if entries.last().key@ == key {
        Some(entries.last().value)
    } else {
        lookup(entries.drop_last(), key)
    }
}

impl Document {
    /// Empty document.
    pub fn new() -> (r: Document)
        ensures
            r@ == Seq::<ConfigEntry>::empty(),
    {
        Document { entries: Vec::new() }
    }

    /// Bind `key` to `value`, overriding any earlier binding.
    pub fn insert(&mut self, key: String, value: ConfigValue)
        ensures
            final(self)@ == old(self)@.push(ConfigEntry { key, value }),
    {
        self.entries.push(ConfigEntry { key, value });
    }

    /// The value bound to `key`, if any.
    pub fn get<'a>(&'a self, key: &String) -> (r: Option<&'a ConfigValue>)
        ensures
            match r {
                Some(v) => lookup(self@, key@) == Some(*v),
                None => lookup(self@, key@) is None,
            },
    {
        lookup_value(&self.entries, key)
    }
}

/// Scan the bindings from the end for `key`.
fn lookup_value<'a>(entries: &'a Vec<ConfigEntry>, key: &String) -> (r: Option<&'a ConfigValue>)
    ensures
        match r {
            Some(v) => lookup(entries@, key@) == Some(*v),
            None => lookup(entries@, key@) is None,
        },
{
    let mut i: usize = entries.len();
    assert(entries@.take(i as int) =~= entries@);
    while i > 0
        invariant
            i <= entries@.len(),
            lookup(entries@, key@) == lookup(entries@.take(i as int), key@),
        decreases i,
    {
        i = i - 1;
        if entries[i].key == *key {
            assert(entries@.take(i + 1 as int).last() == entries@[i as int]);
            return Some(&entries[i].value);
        }
        assert(entries@.take(i + 1 as int).drop_last() =~= entries@.take(i as int));
    }
    assert(entries@.take(0) =~= Seq::<ConfigEntry>::empty());
    None
}

/// The possible runtime environments of the application.
#[derive(Clone, Copy, Debug, PartialEq, Eq, Structural)]
pub enum Environment {
    Local,
    Production,
}

impl Environment {
    /// The literal name of the environment, as its document is named.
    pub fn as_str(&self) -> (r: &'static str)
        ensures
            self is Local ==> r@ == "local"@,
            self is Production ==> r@ == "production"@,
    {
        match self {
            Environment::Local => "local",
            Environment::Production => "production",
        }
    }

    /// Recognize an environment name, ignoring ASCII letter case; any other
    /// value is an error naming it, never a silent fallback.
    pub fn try_from(s: String) -> (r: Result<Environment, String>)
        ensures
            ascii_eq_ignore_case(s@, "local"@) ==> (r matches Ok(e) && e is Local),
            ascii_eq_ignore_case(s@, "production"@) ==> (r matches Ok(e) && e is Production),
            r is Ok ==> ascii_eq_ignore_case(s@, "local"@) || ascii_eq_ignore_case(
                s@,
                "production"@,
            ),
            r matches Err(m) ==> m@ == s@
                + " is not a supported environment. Use either 'local' or 'production'."@,
    {
        proof {
            reveal_strlit("local");
            reveal_strlit("production");
        }
        if eq_ignore_ascii_case(s.as_str(), "local") {
            Ok(Environment::Local)
        } else if eq_ignore_ascii_case(s.as_str(), "production") {
            Ok(Environment::Production)
        } else {
            Err(s.concat(" is not a supported environment. Use either 'local' or 'production'."))
        }
    }
}

/// Decide the running environment from the selector variable's value.
///
/// An unset selector defaults to Local; `local` and `production` are
/// recognized in any ASCII letter case; anything else is an error naming
/// the offending value.
pub fn resolve_environment(selector: Option<String>) -> (r: Result<Environment, ConfigError>)
    ensures
        selector is None ==> (r matches Ok(e) && e is Local),
        selector matches Some(s) ==> {
            &&& ascii_eq_ignore_case(s@, "local"@) ==> (r matches Ok(e) && e is Local)
            &&& ascii_eq_ignore_case(s@, "production"@) ==> (r matches Ok(e) && e is Production)
            &&& r is Ok ==> ascii_eq_ignore_case(s@, "local"@) || ascii_eq_ignore_case(
                s@,
                "production"@,
            )
            &&& r matches Err(e) ==> (e matches ConfigError::UnknownEnvironment(v) && v@ == s@)
        },
{
    proof {
        reveal_strlit("local");
        reveal_strlit("production");
    }
    match selector {
        None => Ok(Environment::Local),
        Some(s) => {
            if eq_ignore_ascii_case(s.as_str(), "local") {
                Ok(Environment::Local)
            } else if eq_ignore_ascii_case(s.as_str(), "production") {
                Ok(Environment::Production)
            } else {
                Err(ConfigError::UnknownEnvironment(s))
            }
        },
    }
}

/// `c` is a decimal digit.
pub open spec fn is_digit(c: char) -> bool {
    48 <= c as u32 <= 57
}

/// Numeric value of a decimal digit.
pub open spec fn digit_val(c: char) -> int {
    c as u32 - 48
}

/// Every character of `s` is a decimal digit.
pub open spec fn all_digits(s: Seq<char>) -> bool {
    forall|i: int| 0 <= i < s.len() ==> #[trigger] is_digit(s[i])
}

/// Value of a sequence of decimal digits, most significant first.
pub open spec fn dec_value(s: Seq<char>) -> int
    decreases s.len(),
{
    if s.len() == 0 {
        0
    } else {
        dec_value(s.drop_last()) * 10 + digit_val(s.last())
    }
}

/// The digit portion of a decimal numeral: an optional leading `'+'` is
/// dropped.
pub open spec fn numeral_digits(s: Seq<char>) -> Seq<char> {
    if s.len() > 0 && s[0] == '+' {
        s.skip(1)
    } else {
        s
    }
}

/// What a 16-bit port accepts when written as a string: an optional `'+'`,
/// then one or more decimal digits, with a value of at most 65535.
pub open spec fn parse_u16(s: Seq<char>) -> Option<u16> {
    let d = numeral_digits(s);
    if d.len() > 0 && all_digits(d) && dec_value(d) <= 65535 {
        Some(dec_value(d) as u16)
    } else {
        None
    }
}

/// A digit string is worth no less than any of its prefixes.
proof fn lemma_dec_value_prefix(s: Seq<char>, i: int)
    requires
        all_digits(s),
        0 <= i <= s.len(),
    ensures
        0 <= dec_value(s.take(i)) <= dec_value(s),
    decreases s.len(),
{
    if s.len() == 0 {
        assert(s.take(i) =~= s);
    } else if i == s.len() {
        assert(s.take(i) =~= s);
        assert(all_digits(s.drop_last()));
        lemma_dec_value_prefix(s.drop_last(), s.len() - 1);
        assert(s.drop_last().take(s.len() - 1) =~= s.drop_last());
        assert(is_digit(s.last()));
    } else {
        assert(all_digits(s.drop_last()));
        assert(s.take(i) =~= s.drop_last().take(i));
        lemma_dec_value_prefix(s.drop_last(), i);
        assert(is_digit(s.last()));
        assert(dec_value(s.drop_last()) * 10 >= dec_value(s.drop_last()));
    }
}

/// Parse a port numeral: an optional `'+'`, then decimal digits, at most
/// 65535.
pub fn parse_port_text(s: &str) -> (r: Option<u16>)
    ensures
        r == parse_u16(s@),
{
    let len = s.unicode_len();
    let ghost d = numeral_digits(s@);
    let start: usize = if len > 0 && s.get_char(0) == '+' {
        1
    } else {
        0
    };
    assert(d =~= s@.skip(start as int));
    if start == len {
        return None;
    }
    let mut acc: u32 = 0;
    let mut i: usize = start;
    assert(d.take(0) =~= Seq::<char>::empty());
    while i < len
        invariant
            start <= i <= len,
            len == s@.len(),
            start == s@.len() - d.len(),
            d == numeral_digits(s@),
            d =~= s@.skip(start as int),
            all_digits(d.take(i - start)),
            acc == dec_value(d.take(i - start)),
            acc <= 65535,
        decreases len - i,
    {
        let c = s.get_char(i);
        let n = c as u32;
        if n < 48 || n > 57 {
            assert(d[i - start] == s@[i as int]);
            assert(!is_digit(d[i - start]));
            return None;
        }
        assert(d.take(i - start + 1).drop_last() =~= d.take(i - start));
        assert(d.take(i - start + 1).last() == s@[i as int]);
        acc = acc * 10 + (n - 48);
        i = i + 1;
        if acc > 65535 {
            proof {
                if all_digits(d) {
                    lemma_dec_value_prefix(d, i - start);
                }
            }
            return None;
        }
    }
    assert(d.take(i - start) =~= d);
    Some(acc as u16)
}

/// What a port field accepts: a 16-bit number, written either as a bare
/// integer or as a numeric string; the two forms coerce to the same value.
pub open spec fn coerced_port(v: ConfigValue) -> Option<u16> {
    match v {
        ConfigValue::Integer(n) => if 0 <= n <= 65535 {
            Some(n as u16)
        } else {
            None
        },
        ConfigValue::Text(s) => parse_u16(s@),
    }
}

/// The port bound to `key` in the merged tree, after coercion.
pub open spec fn port_field(m: Seq<ConfigEntry>, key: Seq<char>) -> Option<u16> {
    match lookup(m, key) {
        Some(v) => coerced_port(v),
        None => None,
    }
}

/// The string bound to `key` in the merged tree.
pub open spec fn text_field(m: Seq<ConfigEntry>, key: Seq<char>) -> Option<Seq<char>> {
    match lookup(m, key) {
        Some(ConfigValue::Text(s)) => Some(s@),
        _ => None,
    }
}

/// Fetch a string-typed field from the merged tree.
fn require_text(entries: &Vec<ConfigEntry>, key: &String) -> (r: Result<String, ConfigError>)
    ensures
        r matches Ok(s) ==> text_field(entries@, key@) == Some(s@),
        r is Err <==> text_field(entries@, key@) is None,
        r matches Err(e) ==> (e matches ConfigError::Field(k) && k@ == key@),
{
    match lookup_value(entries, key) {
        Some(ConfigValue::Text(s)) => Ok(s.clone()),
        _ => Err(ConfigError::Field(key.clone())),
    }
}

/// Fetch a port-typed field from the merged tree, coercing a numeric
/// string to its integer value.
fn require_port(entries: &Vec<ConfigEntry>, key: &String) -> (r: Result<u16, ConfigError>)
    ensures
        r matches Ok(p) ==> port_field(entries@, key@) == Some(p),
        r is Err <==> port_field(entries@, key@) is None,
        r matches Err(e) ==> (e matches ConfigError::Field(k) && k@ == key@),
{
    match lookup_value(entries, key) {
        Some(ConfigValue::Integer(n)) => {
            let n = *n;
            if 0 <= n && n <= 65535 {
                Ok(n as u16)
            } else {
                Err(ConfigError::Field(key.clone()))
            }
        },
        Some(ConfigValue::Text(s)) => {
            match parse_port_text(s.as_str()) {
                Some(p) => Ok(p),
                None => Err(ConfigError::Field(key.clone())),
            }
        },
        None => Err(ConfigError::Field(key.clone())),
    }
}

/// A failure of configuration resolution; always fatal to startup.
#[derive(Debug)]
pub enum ConfigError {
    /// The base configuration document could not be read.
    MissingBaseDocument,
    /// The environment-specific configuration document could not be read.
    MissingEnvironmentDocument,
    /// The environment selector holds the wrapped unrecognized value.
    UnknownEnvironment(String),
    /// The wrapped field is missing from the merged tree, or its value does
    /// not type-check.
    Field(String),
}

impl ConfigError {
    /// Human-readable description of the failure, for the operator.
    pub fn message(&self) -> (r: String)
        ensures
            self is MissingBaseDocument ==> r@ == "the base configuration document is missing"@,
            self is MissingEnvironmentDocument ==> r@
                == "the environment configuration document is missing"@,
            self matches ConfigError::UnknownEnvironment(v) ==> r@ == v@
                + " is not a supported environment. Use either 'local' or 'production'."@,
            self matches ConfigError::Field(k) ==> r@
                == "missing or invalid configuration field: "@ + k@,
    {
        match self {
            ConfigError::MissingBaseDocument => String::from_str(
                "the base configuration document is missing",
            ),
            ConfigError::MissingEnvironmentDocument => String::from_str(
                "the environment configuration document is missing",
            ),
            ConfigError::UnknownEnvironment(v) => v.clone().concat(
                " is not a supported environment. Use either 'local' or 'production'.",
            ),
            ConfigError::Field(k) => String::from_str(
                "missing or invalid configuration field: ",
            ).concat(k.as_str()),
        }
    }
}

/// Database connection parameters.
#[derive(Debug)]
pub struct DatabaseConfigurations {
    pub username: String,
    pub password: String,
    pub port: u16,
    pub host: String,
    pub database_name: String,
}

/// Where the application listens and how it names itself to the outside.
#[derive(Debug)]
pub struct ApplicationConfigurations {
    pub port: u16,
    pub host: String,
    pub base_url: String,
}

/// What the outbound email client needs.
#[derive(Debug)]
pub struct EmailClientConfigurations {
    pub base_url: String,
    pub sender_email: String,
    pub authorization_token: String,
}

impl EmailClientConfigurations {
    /// Validate the configured sender address; resolution does not check it,
    /// so startup must call this and fail fast on an error.
    pub fn sender(&self) -> (r: Result<SubscriberEmail, String>)
        ensures
            r is Ok <==> is_valid_email(self.sender_email@),
            r matches Ok(e) ==> e@ == self.sender_email@,
            r matches Err(m) ==> m@ == self.sender_email@
                + " is not a valid subscriber email."@,
    {
        SubscriberEmail::parse(self.sender_email.clone())
    }
}

/// The fully resolved, type-correct application settings.
#[derive(Debug)]
pub struct Configurations {
    pub database: DatabaseConfigurations,
    pub application: ApplicationConfigurations,
    pub email_client: EmailClientConfigurations,
}

/// Every field the settings shape requires is present and type-correct in
/// the merged tree.
pub open spec fn settings_complete(m: Seq<ConfigEntry>) -> bool {
    &&& text_field(m, "database.username"@) is Some
    &&& text_field(m, "database.password"@) is Some
    &&& port_field(m, "database.port"@) is Some
    &&& text_field(m, "database.host"@) is Some
    &&& text_field(m, "database.database_name"@) is Some
    &&& port_field(m, "application.port"@) is Some
    &&& text_field(m, "application.host"@) is Some
    &&& text_field(m, "application.base_url"@) is Some
    &&& text_field(m, "email_client.base_url"@) is Some
    &&& text_field(m, "email_client.sender_email"@) is Some
    &&& text_field(m, "email_client.authorization_token"@) is Some
}

/// Each settings field equals the value the merged tree binds to its key.
pub open spec fn settings_match(m: Seq<ConfigEntry>, c: Configurations) -> bool {
    &&& text_field(m, "database.username"@) == Some(c.database.username@)
    &&& text_field(m, "database.password"@) == Some(c.database.password@)
    &&& port_field(m, "database.port"@) == Some(c.database.port)
    &&& text_field(m, "database.host"@) == Some(c.database.host@)
    &&& text_field(m, "database.database_name"@) == Some(c.database.database_name@)
    &&& port_field(m, "application.port"@) == Some(c.application.port)
    &&& text_field(m, "application.host"@) == Some(c.application.host@)
    &&& text_field(m, "application.base_url"@) == Some(c.application.base_url@)
    &&& text_field(m, "email_client.base_url"@) == Some(c.email_client.base_url@)
    &&& text_field(m, "email_client.sender_email"@) == Some(c.email_client.sender_email@)
    &&& text_field(m, "email_client.authorization_token"@) == Some(
        c.email_client.authorization_token@,
    )
}

/// The first field, in the settings shape's order, that is missing from the
/// merged tree or fails to type-check.
pub open spec fn first_failing_field(m: Seq<ConfigEntry>) -> Seq<char> {
    if text_field(m, "database.username"@) is None {
        "database.username"@
    } else if text_field(m, "database.password"@) is None {
        "database.password"@
    } else if port_field(m, "database.port"@) is None {
        "database.port"@
    } else if text_field(m, "database.host"@) is None {
        "database.host"@
    } else if text_field(m, "database.database_name"@) is None {
        "database.database_name"@
    } else if port_field(m, "application.port"@) is None {
        "application.port"@
    } else if text_field(m, "application.host"@) is None {
        "application.host"@
    } else if text_field(m, "application.base_url"@) is None {
        "application.base_url"@
    } else if text_field(m, "email_client.base_url"@) is None {
        "email_client.base_url"@
    } else if text_field(m, "email_client.sender_email"@) is None {
        "email_client.sender_email"@
    } else {
        "email_client.authorization_token"@
    }
}

/// Overlay the three configuration layers — later layers win per key — and
/// type-check the merged tree into [`Configurations`].
///
/// The base and environment documents are required: a caller that could not
/// read one passes `None` and resolution fails. The result is either a fully
/// populated settings value or one error naming the first failure; never a
/// partially populated value.
pub fn resolve_configuration(
    base: Option<Document>,
    environment: Option<Document>,
    overrides: Document,
) -> (r: Result<Configurations, ConfigError>)
    ensures
        base is None ==> (r matches Err(e) && e is MissingBaseDocument),
        (base is Some && environment is None) ==> (r matches Err(e)
            && e is MissingEnvironmentDocument),
        base matches Some(b) ==> environment matches Some(d) ==> ({
            let m = b@ + d@ + overrides@;
            &&& (r is Ok <==> settings_complete(m))
            &&& (r matches Ok(c) ==> settings_match(m, c))
            &&& (r matches Err(e) ==> e matches ConfigError::Field(k) && k@
                == first_failing_field(m))
        }),
{
    let base_doc = match base {
        Some(d) => d,
        None => {
            return Err(ConfigError::MissingBaseDocument);
        },
    };
    let env_doc = match environment {
        Some(d) => d,
        None => {
            return Err(ConfigError::MissingEnvironmentDocument);
        },
    };
    let mut merged = base_doc.entries;
    let mut env_entries = env_doc.entries;
    merged.append(&mut env_entries);
    let mut override_entries = overrides.entries;
    merged.append(&mut override_entries);

    let db_username = require_text(&merged, &String::from_str("database.username"))?;
    let db_password = require_text(&merged, &String::from_str("database.password"))?;
    let db_port = require_port(&merged, &String::from_str("database.port"))?;
    let db_host = require_text(&merged, &String::from_str("database.host"))?;
    let db_name = require_text(&merged, &String::from_str("database.database_name"))?;
    let app_port = require_port(&merged, &String::from_str("application.port"))?;
    let app_host = require_text(&merged, &String::from_str("application.host"))?;
    let app_base_url = require_text(&merged, &String::from_str("application.base_url"))?;
    let ec_base_url = require_text(&merged, &String::from_str("email_client.base_url"))?;
    let ec_sender = require_text(&merged, &String::from_str("email_client.sender_email"))?;
    let ec_token = require_text(&merged, &String::from_str("email_client.authorization_token"))?;

    Ok(
        Configurations {
            database: DatabaseConfigurations {
                username: db_username,
                password: db_password,
                port: db_port,
                host: db_host,
                database_name: db_name,
            },
            application: ApplicationConfigurations {
                port: app_port,
                host: app_host,
                base_url: app_base_url,
            },
            email_client: EmailClientConfigurations {
                base_url: ec_base_url,
                sender_email: ec_sender,
                authorization_token: ec_token,
            },
        },
    )
}

/// How an override variable's name maps to a dotted key, once the prefix is
/// gone: letters fold to ASCII lowercase and each `__` becomes a `.`,
/// scanning left to right.
pub open spec fn env_key_chars(s: Seq<char>) -> Seq<char>
    decreases s.len(),
{
    if s.len() == 0 {
        Seq::empty()
    } else if s.len() >= 2 && s[0] == '_' && s[1] == '_' {
        seq!['.'] + env_key_chars(s.skip(2))
    } else {
        seq![ascii_lower_char(s[0])] + env_key_chars(s.skip(1))
    }
}

/// The dotted key an environment variable named `name` overrides: variables
/// whose name starts with the prefix `APP_` (in any ASCII case) target the
/// key their remainder spells; every other variable is ignored, as is a
/// name that is only the prefix.
pub open spec fn override_key_of(name: Seq<char>) -> Option<Seq<char>> {
    if name.len() > 4 && ascii_eq_ignore_case(name.take(4), "app_"@) {
        Some(env_key_chars(name.skip(4)))
    } else {
        None
    }
}

/// Map an environment variable's name to the dotted key it overrides, if it
/// carries the override prefix.
pub fn override_key(name: &str) -> (r: Option<String>)
    ensures
        r matches Some(k) ==> override_key_of(name@) == Some(k@),
        r is None <==> override_key_of(name@) is None,
{
    let len = name.unicode_len();
    if len <= 4 {
        return None;
    }
    let prefix = name.substring_char(0, 4);
    assert(prefix@ =~= name@.take(4));
    if !eq_ignore_ascii_case(prefix, "app_") {
        return None;
    }
    let mut key = String::new();
    let mut i: usize = 4;
    while i < len
        invariant
            4 <= i <= len,
            len == name@.len(),
            env_key_chars(name@.skip(4)) == key@ + env_key_chars(name@.skip(i as int)),
        decreases len - i,
    {
        let c = name.get_char(i);
        if c == '_' && i + 1 < len && name.get_char(i + 1) == '_' {
            assert(name@.skip(i as int).skip(2) =~= name@.skip(i + 2));
            push_char(&mut key, '.');
            assert(key@ + env_key_chars(name@.skip(i + 2)) =~= env_key_chars(name@.skip(4)));
            i = i + 2;
        } else {
            assert(name@.skip(i as int).skip(1) =~= name@.skip(i + 1));
            assert(name@.skip(i as int).len() >= 2 ==> name@.skip(i as int)[1] == name@[i + 1]);
            push_char(&mut key, lower_char(c));
            assert(key@ + env_key_chars(name@.skip(i + 1)) =~= env_key_chars(name@.skip(4)));
            i = i + 1;
        }
    }
    assert(name@.skip(len as int) =~= Seq::<char>::empty());
    assert(key@ =~= env_key_chars(name@.skip(4)));
    Some(key)
}

/// Looking a key up in two overlaid documents: a binding in the later one
/// wins, and the earlier one fills the gaps.
pub proof fn lemma_lookup_overlay(a: Seq<ConfigEntry>, b: Seq<ConfigEntry>, key: Seq<char>)
    ensures
        lookup(a + b, key) == if lookup(b, key) is Some {
            lookup(b, key)
        } else {
            lookup(a, key)
        },
    decreases b.len(),
{
    if b.len() == 0 {
        assert(a + b =~= a);
    } else {
        assert((a + b).last() == b.last());
        if b.last().key@ != key {
            assert((a + b).drop_last() =~= a + b.drop_last());
            lemma_lookup_overlay(a, b.drop_last(), key);
        }
    }
}

/// Precedence of the three configuration layers, per key: an override wins
/// over the environment document, which wins over the base document.
pub proof fn lemma_layer_precedence(
    base: Seq<ConfigEntry>,
    environment: Seq<ConfigEntry>,
    overrides: Seq<ConfigEntry>,
    key: Seq<char>,
)
    ensures
        lookup(base + environment + overrides, key) == if lookup(overrides, key) is Some {
            lookup(overrides, key)
        } else if lookup(environment, key) is Some {
            lookup(environment, key)
        } else {
            lookup(base, key)
        },
{
    lemma_lookup_overlay(base + environment, overrides, key);
    lemma_lookup_overlay(base, environment, key);
}

/// The decimal digit with value `d`.
pub open spec fn digit_char(d: int) -> char {
    ((48 + d) as u32) as char
}

/// The decimal numeral of `n`, most significant digit first.
pub open spec fn decimal_repr(n: nat) -> Seq<char>
    decreases n,
{
    if n < 10 {
        seq![digit_char(n as int)]
    } else {
        decimal_repr(n / 10).push(digit_char((n % 10) as int))
    }
}

proof fn lemma_decimal_repr_digits(n: nat)
    ensures
        decimal_repr(n).len() > 0,
        all_digits(decimal_repr(n)),
        dec_value(decimal_repr(n)) == n,
    decreases n,
{
    if n < 10 {
        let s = decimal_repr(n);
        assert(s =~= seq![digit_char(n as int)]);
        assert(is_digit(digit_char(n as int)));
        assert(s.drop_last() =~= Seq::<char>::empty());
        assert(dec_value(s.drop_last()) == 0);
        assert(s.last() == digit_char(n as int));
        assert(dec_value(s) == digit_val(digit_char(n as int)));
    } else {
        lemma_decimal_repr_digits(n / 10);
        let t = decimal_repr(n / 10);
        let c = digit_char((n % 10) as int);
        let s = decimal_repr(n);
        assert(s == t.push(c));
        assert(s.drop_last() =~= t);
        assert(s.last() == c);
        assert(is_digit(c));
        assert(forall|i: int| 0 <= i < s.len() ==> #[trigger] is_digit(s[i]) == if i < t.len() {
            is_digit(t[i])
        } else {
            is_digit(c)
        });
        assert(digit_val(c) == n % 10);
        assert(dec_value(s) == dec_value(t) * 10 + digit_val(c));
        assert(n / 10 * 10 + n % 10 == n) by {
            vstd::arithmetic::div_mod::lemma_fundamental_div_mod(n as int, 10);
        };
    }
}

/// Numeric coercion: a port given as the decimal numeral of `n` and a port
/// given as the bare integer `n` resolve to the same value.
pub proof fn lemma_numeral_matches_integer(text: ConfigValue, number: ConfigValue, n: u16)
    requires
        text matches ConfigValue::Text(s) && s@ == decimal_repr(n as nat),
        number matches ConfigValue::Integer(i) && i == n,
    ensures
        coerced_port(text) == Some(n),
        coerced_port(number) == Some(n),
{
    lemma_decimal_repr_digits(n as nat);
    let s = decimal_repr(n as nat);
    assert(is_digit(s[0]));
    assert(s[0] != '+') by {
        assert(48 <= s[0] as u32 <= 57);
        assert('+' as u32 == 43);
    };
    assert(numeral_digits(s) == s);
}

} // verus!
