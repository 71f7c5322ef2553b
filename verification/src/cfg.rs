use vstd::prelude::*;

verus! {

/// The operating-system error type, declared so that a failed configuration
/// read can carry it through `ConfigError`.  Relies on `std::io::Error` only
/// as an opaque value: nothing is assumed of it.
#[verifier::external_type_specification]
#[verifier::external_body]
pub struct ExIoError(std::io::Error);

/// A parsed INI document, declared as an opaque value of the `ini` crate;
/// `ini_sections` says what it holds.
#[verifier::external_type_specification]
#[verifier::external_body]
pub struct ExIni(ini::Ini);

/// One section of a parsed INI document, declared as an opaque value of the
/// `ini` crate; `props_of` says what it holds.
#[verifier::external_type_specification]
#[verifier::external_body]
pub struct ExProperties(ini::Properties);

/// What an INI document holds, as far as the lookups below read it: each
/// section name maps to that section's properties, each key to its value.
/// Where the text repeats a section or a key, this is the section or value
/// the lookups return (the first one).
pub uninterp spec fn ini_sections(conf: ini::Ini) -> Map<Seq<char>, Map<Seq<char>, Seq<char>>>;

/// What one section holds, read the same way.
pub uninterp spec fn props_of(props: ini::Properties) -> Map<Seq<char>, Seq<char>>;

/// What parsing some text as INI yields: `None` where the text does not
/// parse, otherwise the document's contents.  Parsing depends on the text
/// alone.
pub uninterp spec fn ini_doc(text: Seq<char>) -> Option<Map<Seq<char>, Map<Seq<char>, Seq<char>>>>;

/// Relies on ini::Ini::load_from_str to parse configuration text; the result
/// is a function of the text alone.
#[verifier::external_body]
fn parse_ini(text: &str) -> (r: Option<ini::Ini>)
    ensures
        r is Some <==> ini_doc(text@) is Some,
        r matches Some(conf) ==> Some(ini_sections(conf)) == ini_doc(text@),
{
    match ini::Ini::load_from_str(text) {
        Ok(conf) => Some(conf),
        Err(_) => None,
    }
}

/// Relies on ini::Ini::section to hand out the (first) section under the
/// given name, or nothing when the document has none.
#[verifier::external_body]
fn ini_section<'a>(conf: &'a ini::Ini, name: &str) -> (r: Option<&'a ini::Properties>)
    ensures
        r is Some <==> ini_sections(*conf).contains_key(name@),
        r matches Some(props) ==> props_of(*props) == ini_sections(*conf)[name@],
{
    conf.section(Some(name))
}

/// Relies on ini::Properties::get to hand out the (first) value under the
/// given key, or nothing when the section has none.
#[verifier::external_body]
fn props_get(props: &ini::Properties, key: &str) -> (r: Option<String>)
    ensures
        r is Some <==> props_of(*props).contains_key(key@),
        r matches Some(value) ==> value@ == props_of(*props)[key@],
{
    props.get(key).map(|value| value.to_string())
}

/// Why no API key could be produced: the configuration file could not be
/// read, or it holds no key (it is absent, malformed, or missing the entry).
pub enum ConfigError {
    FileError(std::io::Error),
    Missing,
}

/// Holds the API key that the weather provider expects.
pub struct AppConfig {
    api_key: String,
}

impl View for AppConfig {
    type V = Seq<char>;

    /// A configuration is, mathematically, the key it stores.
    closed spec fn view(&self) -> Seq<char> {
        self.api_key@
    }
}

impl AppConfig {
    pub fn new(api_key: &str) -> (r: AppConfig)
        ensures
            r@ == api_key@,
    {
        AppConfig { api_key: api_key.to_owned() }
    }

    /// Reads the API key out of configuration text: the `api_key` entry of
    /// the `application` section.  Every way the text falls short of that —
    /// it does not parse as INI, the section is absent, the entry is absent —
    /// is `Missing`; `FileError` is left to the caller that reads the file.
    pub fn load_from_ini(text: &str) -> (r: Result<AppConfig, ConfigError>)
        ensures
            r is Ok <==> (ini_doc(text@) matches Some(doc) && doc.contains_key("application"@)
                && doc["application"@].contains_key("api_key"@)),
            r matches Ok(config) ==> config@ == ini_doc(
                text@,
            )->Some_0["application"@]["api_key"@],
            r matches Err(e) ==> e is Missing,
    {
        let conf = match parse_ini(text) {
            Some(conf) => conf,
            None => return Err(ConfigError::Missing),
        };
        let section = match ini_section(&conf, "application") {
            Some(section) => section,
            None => return Err(ConfigError::Missing),
        };
        let api_key = match props_get(section, "api_key") {
            Some(api_key) => api_key,
            None => return Err(ConfigError::Missing),
        };
        Ok(AppConfig::new(api_key.as_str()))
    }

    pub fn api_key(&self) -> (r: &str)
        ensures
            r@ == self@,
    {
        self.api_key.as_str()
    }
}

} // verus!
