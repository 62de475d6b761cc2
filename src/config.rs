//! The configuration file: a TOML document with the store directory, an
//! optional proxy, and one table per tool.
use std::collections::BTreeMap;

use vstd::prelude::*;
use vstd::string::StringExecFns;

use toml::map::Map as TomlMap;
use toml::Value;

verus! {

#[verifier::external_type_specification]
#[verifier::external_body]
pub struct ExTomlValue(toml::Value);

#[verifier::external_type_specification]
#[verifier::external_body]
pub struct ExTomlParseError(toml::de::Error);

#[verifier::external_type_specification]
#[verifier::external_body]
#[verifier::reject_recursive_types(K)]
#[verifier::reject_recursive_types(V)]
pub struct ExTomlMap<K, V>(toml::map::Map<K, V>);

#[verifier::external_type_specification]
#[verifier::external_body]
pub struct ExProxy(ureq::Proxy);

#[verifier::external_type_specification]
#[verifier::external_body]
pub struct ExUreqError(ureq::Error);

/// Whether a text is a TOML document; this depends on the text alone.
pub uninterp spec fn is_toml_document(s: Seq<char>) -> bool;

/// Whether a text is a proxy address that ureq accepts; this depends on the
/// text alone.
pub uninterp spec fn is_proxy_address(s: Seq<char>) -> bool;

/// The key paths (non-empty sequences of keys, through nested tables) that
/// are present in a table.
pub uninterp spec fn toml_paths(t: TomlMap<String, Value>) -> Set<Seq<Seq<char>>>;

/// The string at each key path of a table that holds a string.
pub uninterp spec fn toml_strings(t: TomlMap<String, Value>) -> Map<Seq<Seq<char>>, Seq<char>>;

/// The key paths of a table that hold a table.
pub uninterp spec fn toml_tables(t: TomlMap<String, Value>) -> Set<Seq<Seq<char>>>;

/// The string at `path` in `t`, if one is there.
pub open spec fn str_at(t: TomlMap<String, Value>, path: Seq<Seq<char>>) -> Option<Seq<char>> {
    if toml_strings(t).contains_key(path) {
        Some(toml_strings(t)[path])
    } else {
        None
    }
}

/// `s` is the table under `key` in `t`: what `s` holds at a path, `t` holds
/// at `key` followed by that path.
pub open spec fn is_subtable(t: TomlMap<String, Value>, key: Seq<char>, s: TomlMap<String, Value>) -> bool {
    &&& forall|p: Seq<Seq<char>>| p.len() > 0 ==> (#[trigger] toml_paths(s).contains(p) == toml_paths(t).contains(seq![key] + p))
    &&& forall|p: Seq<Seq<char>>| p.len() > 0 ==> (#[trigger] str_at(s, p) == str_at(t, seq![key] + p))
    &&& forall|p: Seq<Seq<char>>| p.len() > 0 ==> (#[trigger] toml_tables(s).contains(p) == toml_tables(t).contains(seq![key] + p))
}

/// Relies on toml's `FromStr` for `Table`: parses a TOML document into its
/// top-level table, and fails exactly on text that is not one.
#[verifier::external_body]
fn parse_toml(s: &str) -> (r: Result<TomlMap<String, Value>, toml::de::Error>)
    ensures
        r is Ok == is_toml_document(s@),
{
    s.parse::<toml::Table>()
}

/// Relies on toml's `Map::get`: the value under `key`, if it is present.
#[verifier::external_body]
fn table_get<'a>(t: &'a TomlMap<String, Value>, key: &str) -> (r: Option<&'a Value>)
    ensures
        r is Some == toml_paths(*t).contains(seq![key@]),
{
    t.get(key)
}

/// Relies on toml's `Map::get` and `Value::as_str`: the string under `key`,
/// if the value there is a string.
#[verifier::external_body]
fn table_str(t: &TomlMap<String, Value>, key: &str) -> (r: Option<String>)
    ensures
        r is Some == toml_strings(*t).contains_key(seq![key@]),
        opt_view(r) == str_at(*t, seq![key@]),
{
    match t.get(key) {
        Some(v) => v.as_str().map(String::from),
        None => None,
    }
}

/// Relies on toml's `Map::get` and `Value::as_table`: the table under `key`,
/// if the value there is a table.
#[verifier::external_body]
fn table_sub<'a>(t: &'a TomlMap<String, Value>, key: &str) -> (r: Option<&'a TomlMap<String, Value>>)
    ensures
        r is Some == toml_tables(*t).contains(seq![key@]),
        r matches Some(s) ==> is_subtable(*t, key@, *s),
{
    match t.get(key) {
        Some(v) => v.as_table(),
        None => None,
    }
}

/// Relies on toml's `Map::keys`: the keys of a table, each once.
#[verifier::external_body]
fn table_keys(t: &TomlMap<String, Value>) -> (r: Vec<String>)
    ensures
        r.deep_view().no_duplicates(),
        forall|k: Seq<char>| r.deep_view().contains(k) == toml_paths(*t).contains(seq![k]),
        forall|k: Seq<char>| toml_tables(*t).contains(seq![k]) ==> r.deep_view().contains(k),
{
    t.keys().cloned().collect()
}

/// Tools by name, in the order they were decoded.
pub type ToolList = Vec<(String, ConfigAsset)>;

/// No two pairs of `v` have the same key.
pub open spec fn keys_distinct(v: Seq<(String, ConfigAsset)>) -> bool {
    forall|a: int, b: int| 0 <= a < b < v.len() ==> v[a].0 != v[b].0
}

/// Relies on std's `FromIterator` for `BTreeMap`: a map with one entry per
/// pair; with distinct keys, each key maps to its own value.
#[verifier::external_body]
fn tool_map(v: ToolList) -> (m: BTreeMap<String, ConfigAsset>)
    ensures
        forall|k: String| #[trigger] m@.contains_key(k) == (exists|j: int| 0 <= j < v@.len() && v@[j].0 == k),
        forall|j: int| 0 <= j < v@.len() && keys_distinct(v@) ==> m@[#[trigger] v@[j].0] == v@[j].1,
{
    v.into_iter().collect()
}

/// Relies on toml's `Value::clone`.
#[verifier::external_body]
fn value_clone(v: &Value) -> Value {
    v.clone()
}

/// Relies on toml's `Value::String`: a string value.
#[verifier::external_body]
fn string_value(s: String) -> Value {
    Value::String(s)
}

/// Relies on toml's `Value::type_str`: the name of a value's type.
#[verifier::external_body]
fn value_type_name(v: &Value) -> String {
    String::from(v.type_str())
}

/// Relies on toml's `Display` for `Value`: the value written as TOML.
#[verifier::external_body]
fn value_text(v: &Value) -> String {
    format!("{}", v)
}

/// Relies on toml's `Display` for `de::Error`: the parse error's text.
#[verifier::external_body]
fn parse_error_text(e: &toml::de::Error) -> String {
    format!("{}", e)
}

/// Relies on ureq's `Proxy::new`: parses a proxy address, and fails exactly
/// on text that is not one.
#[verifier::external_body]
fn new_proxy(p: &str) -> (r: Result<ureq::Proxy, ureq::Error>)
    ensures
        r is Ok == is_proxy_address(p@),
{
    ureq::Proxy::new(p)
}

/// The per-platform asset names that override the default one.
#[derive(Debug, PartialEq, Eq)]
pub struct AssetName {
    pub linux: Option<String>,
    pub macos: Option<String>,
    pub windows: Option<String>,
}

/// The configuration of one tool.
#[derive(Debug, PartialEq, Eq)]
pub struct ConfigAsset {
    pub owner: Option<String>,
    pub repo: Option<String>,
    pub exe_name: Option<String>,
    pub asset_name: AssetName,
    pub tag: Option<String>,
    pub proxy: Option<ureq::Proxy>,
}

/// The decoded configuration file.
#[derive(Debug, PartialEq, Eq)]
pub struct Config {
    pub store_directory: String,
    pub tools: BTreeMap<String, ConfigAsset>,
    pub proxy: Option<String>,
}

/// Why a configuration could not be decoded.
#[derive(Debug, PartialEq)]
pub enum DecodeError {
    MissingKey { key: String },
    InvalidType { key: String, expected: Value, found: Value },
    InvalidProxy { proxy: String },
}

/// Why a configuration file could not be read.
#[derive(Debug, PartialEq)]
pub enum TomlError {
    IO(String),
    Parse(toml::de::Error),
    Decode(DecodeError),
}

/// The key that holds the store directory.
pub open spec fn store_directory_key() -> Seq<char> {
    "store_directory"@
}

/// The message of a missing key.
pub open spec fn missing_key_message(key: Seq<char>) -> Seq<char> {
    "The key '"@ + key + "' is missing (a typo or not specified?)"@
}

/// The message of a value of the wrong type under `key`: the value written
/// as TOML, and the names of the expected and the found types.
pub open spec fn invalid_type_message(
    key: Seq<char>,
    found_text: Seq<char>,
    expected_type: Seq<char>,
    found_type: Seq<char>,
) -> Seq<char> {
    "unexpected value type '"@ + key + "="@ + found_text + "': expected `"@ + expected_type
        + "`, found `"@ + found_type + "`"@
}

/// The message of a malformed proxy address.
pub open spec fn invalid_proxy_message(proxy: Seq<char>) -> Seq<char> {
    "Could not parse proxy address, please check the syntax: "@ + proxy
}

/// Writes the message of a value of the wrong type under `key`.
pub fn invalid_type_text(key: &str, found_text: &str, expected_type: &str, found_type: &str) -> (r: String)
    ensures
        r@ == invalid_type_message(key@, found_text@, expected_type@, found_type@),
{
    let mut r = String::from_str("unexpected value type '");
    r.append(key);
    r.append("=");
    r.append(found_text);
    r.append("': expected `");
    r.append(expected_type);
    r.append("`, found `");
    r.append(found_type);
    r.append("`");
    r
}

/// Whether `m` is the message of `e`; for a wrong type, with whatever text
/// toml gives for the value and its types.
pub open spec fn is_decode_message(e: DecodeError, m: Seq<char>) -> bool {
    match e {
        DecodeError::MissingKey { key } => m == missing_key_message(key@),
        DecodeError::InvalidType { key, .. } => exists|t: Seq<char>, x: Seq<char>, f: Seq<char>|
            m == invalid_type_message(key@, t, x, f),
        DecodeError::InvalidProxy { proxy } => m == invalid_proxy_message(proxy@),
    }
}

impl DecodeError {
    /// A message that describes the error.
    pub fn message(&self) -> (r: String)
        ensures
            is_decode_message(*self, r@),
    {
        match self {
            DecodeError::MissingKey { key } => {
                let mut r = String::from_str("The key '");
                r.append(key.as_str());
                r.append("' is missing (a typo or not specified?)");
                r
            },
            DecodeError::InvalidType { key, expected, found } => {
                let t = value_text(found);
                let x = value_type_name(expected);
                let f = value_type_name(found);
                let r = invalid_type_text(key.as_str(), t.as_str(), x.as_str(), f.as_str());
                assert(r@ == invalid_type_message(key@, t@, x@, f@));
                r
            },
            DecodeError::InvalidProxy { proxy } => {
                let mut r = String::from_str("Could not parse proxy address, please check the syntax: ");
                r.append(proxy.as_str());
                r
            },
        }
    }
}

impl TomlError {
    /// A message that describes the error, tagged with its stage.
    pub fn message(&self) -> (r: String)
        ensures
            self matches TomlError::IO(e) ==> r@ == "[IO Error] "@ + e@,
            self matches TomlError::Parse(_) ==> exists|t: Seq<char>| r@ == "[Parsing Error] "@ + t,
            self matches TomlError::Decode(e) ==> exists|m: Seq<char>|
                r@ == "[Decode Error] "@ + m && is_decode_message(*e, m),
    {
        match self {
            TomlError::IO(e) => {
                let mut r = String::from_str("[IO Error] ");
                r.append(e.as_str());
                r
            },
            TomlError::Parse(e) => {
                let t = parse_error_text(e);
                let mut r = String::from_str("[Parsing Error] ");
                r.append(t.as_str());
                assert(r@ == "[Parsing Error] "@ + t@);
                r
            },
            TomlError::Decode(e) => {
                let m = e.message();
                let mut r = String::from_str("[Decode Error] ");
                r.append(m.as_str());
                assert(r@ == "[Decode Error] "@ + m@ && is_decode_message(*e, m@));
                r
            },
        }
    }
}

/// The view of an optional string.
pub open spec fn opt_view(o: Option<String>) -> Option<Seq<char>> {
    match o {
        Some(s) => Some(s@),
        None => None,
    }
}

/// `names` holds the per-platform asset names of the tool table at `base`
/// in `t`: those under its `asset_name` table, if it has one.
pub open spec fn asset_names_decoded(t: TomlMap<String, Value>, base: Seq<Seq<char>>, names: AssetName) -> bool {
    if toml_tables(t).contains(base + seq!["asset_name"@]) {
        &&& opt_view(names.linux) == str_at(t, base + seq!["asset_name"@, "linux"@])
        &&& opt_view(names.macos) == str_at(t, base + seq!["asset_name"@, "macos"@])
        &&& opt_view(names.windows) == str_at(t, base + seq!["asset_name"@, "windows"@])
    } else {
        names.linux is None && names.macos is None && names.windows is None
    }
}

/// `a` holds the fields of the tool table at `base` in `t`: each is the
/// string under its key, or nothing where there is no string.
pub open spec fn asset_decoded(t: TomlMap<String, Value>, base: Seq<Seq<char>>, a: ConfigAsset) -> bool {
    &&& opt_view(a.owner) == str_at(t, base + seq!["owner"@])
    &&& opt_view(a.repo) == str_at(t, base + seq!["repo"@])
    &&& opt_view(a.exe_name) == str_at(t, base + seq!["exe_name"@])
    &&& opt_view(a.tag) == str_at(t, base + seq!["tag"@])
    &&& asset_names_decoded(t, base, a.asset_name)
}

/// The proxy of a configuration: the given one, else the document's `proxy`
/// value, which is the empty text when it is not a string.
pub open spec fn resolved_proxy(t: TomlMap<String, Value>, proxy: Option<String>) -> Option<Seq<char>> {
    match proxy {
        Some(p) => Some(p@),
        None => if toml_paths(t).contains(seq!["proxy"@]) {
            match str_at(t, seq!["proxy"@]) {
                Some(p) => Some(p),
                None => Some(Seq::empty()),
            }
        } else {
            None
        },
    }
}

/// A proxy is given and ureq rejects it.
pub open spec fn proxy_rejected(p: Option<Seq<char>>) -> bool {
    p matches Some(x) && !is_proxy_address(x)
}

/// Some top-level key of `t` holds a table, that is, a tool.
pub open spec fn has_tool(t: TomlMap<String, Value>) -> bool {
    exists|k: Seq<char>| toml_tables(t).contains(seq![k])
}

/// `c` is the configuration that document table `t` decodes to, with
/// `proxy` given.
pub open spec fn config_decoded(t: TomlMap<String, Value>, proxy: Option<String>, c: Config) -> bool {
    &&& str_at(t, seq![store_directory_key()]) == Some(c.store_directory@)
    &&& opt_view(c.proxy) == resolved_proxy(t, proxy)
    &&& forall|k: String| #[trigger] c.tools@.contains_key(k) ==> {
        &&& toml_tables(t).contains(seq![k@])
        &&& asset_decoded(t, seq![k@], c.tools@[k])
        &&& (c.tools@[k].proxy is Some <==> c.proxy is Some)
    }
    &&& forall|key: Seq<char>| #[trigger] toml_tables(t).contains(seq![key]) ==> exists|k: String|
        k@ == key && c.tools@.contains_key(k)
}

/// `r` is the outcome of decoding document table `t` with `proxy` given.
pub open spec fn decode_result(t: TomlMap<String, Value>, proxy: Option<String>, r: Result<Config, DecodeError>) -> bool {
    let sd = seq![store_directory_key()];
    match r {
        Err(DecodeError::MissingKey { key }) => key@ == store_directory_key() && !toml_paths(t).contains(sd),
        Err(DecodeError::InvalidType { key, .. }) => key@ == store_directory_key() && toml_paths(t).contains(sd)
            && str_at(t, sd) is None,
        Err(DecodeError::InvalidProxy { proxy: p }) => str_at(t, sd) is Some && resolved_proxy(t, proxy) == Some(
            p@,
        ) && proxy_rejected(Some(p@)) && has_tool(t),
        Ok(c) => config_decoded(t, proxy, c) && !(proxy_rejected(resolved_proxy(t, proxy)) && has_tool(t)),
    }
}

/// The empty path followed by `p` is `p`.
proof fn lemma_empty_base(p: Seq<Seq<char>>)
    ensures
        Seq::<Seq<char>>::empty() + p == p,
{
    assert(Seq::<Seq<char>>::empty() + p =~= p);
}

/// The per-platform asset names in the `asset_name` table of a tool.
fn decode_asset_name(table: &TomlMap<String, Value>) -> (r: AssetName)
    ensures
        asset_names_decoded(*table, Seq::empty(), r),
{
    proof {
        lemma_empty_base(seq!["asset_name"@]);
        lemma_empty_base(seq!["asset_name"@, "linux"@]);
        lemma_empty_base(seq!["asset_name"@, "macos"@]);
        lemma_empty_base(seq!["asset_name"@, "windows"@]);
    }
    match table_sub(table, "asset_name") {
        None => AssetName { linux: None, macos: None, windows: None },
        Some(names) => {
            let r = AssetName {
                linux: table_str(names, "linux"),
                macos: table_str(names, "macos"),
                windows: table_str(names, "windows"),
            };
            assert(seq!["asset_name"@] + seq!["linux"@] =~= seq!["asset_name"@, "linux"@]);
            assert(seq!["asset_name"@] + seq!["macos"@] =~= seq!["asset_name"@, "macos"@]);
            assert(seq!["asset_name"@] + seq!["windows"@] =~= seq!["asset_name"@, "windows"@]);
            assert(str_at(*names, seq!["linux"@]) == str_at(*table, seq!["asset_name"@] + seq!["linux"@]));
            assert(str_at(*names, seq!["macos"@]) == str_at(*table, seq!["asset_name"@] + seq!["macos"@]));
            assert(str_at(*names, seq!["windows"@]) == str_at(*table, seq!["asset_name"@] + seq!["windows"@]));
            r
        },
    }
}

/// The configuration of one tool from its table, with the proxy that all
/// tools share; a proxy that ureq rejects is an error.
fn decode_config_asset(table: &TomlMap<String, Value>, proxy: &Option<String>) -> (r: Result<
    ConfigAsset,
    DecodeError,
>)
    ensures
        r is Err <==> proxy_rejected(opt_view(*proxy)),
        r matches Err(e) ==> e matches DecodeError::InvalidProxy { proxy: p } && opt_view(*proxy) == Some(p@),
        r matches Ok(a) ==> asset_decoded(*table, Seq::empty(), a) && (a.proxy is Some <==> proxy is Some),
{
    let decoded_proxy = match proxy {
        None => None,
        Some(p) => match new_proxy(p.as_str()) {
            Ok(valid) => Some(valid),
            Err(_) => {
                return Err(DecodeError::InvalidProxy { proxy: p.clone() });
            },
        },
    };
    proof {
        lemma_empty_base(seq!["owner"@]);
        lemma_empty_base(seq!["repo"@]);
        lemma_empty_base(seq!["exe_name"@]);
        lemma_empty_base(seq!["tag"@]);
    }
    Ok(
        ConfigAsset {
            owner: table_str(table, "owner"),
            repo: table_str(table, "repo"),
            exe_name: table_str(table, "exe_name"),
            asset_name: decode_asset_name(table),
            tag: table_str(table, "tag"),
            proxy: decoded_proxy,
        },
    )
}

/// What a tool decodes to under `key` of `t` is what it decodes to in its
/// own table `s`.
proof fn lemma_tool_in_document(t: TomlMap<String, Value>, key: Seq<char>, s: TomlMap<String, Value>, a: ConfigAsset)
    requires
        is_subtable(t, key, s),
        asset_decoded(s, Seq::empty(), a),
    ensures
        asset_decoded(t, seq![key], a),
{
    let e = Seq::<Seq<char>>::empty();
    assert(e + seq!["owner"@] =~= seq!["owner"@]);
    assert(e + seq!["repo"@] =~= seq!["repo"@]);
    assert(e + seq!["exe_name"@] =~= seq!["exe_name"@]);
    assert(e + seq!["tag"@] =~= seq!["tag"@]);
    assert(e + seq!["asset_name"@] =~= seq!["asset_name"@]);
    assert(e + seq!["asset_name"@, "linux"@] =~= seq!["asset_name"@, "linux"@]);
    assert(e + seq!["asset_name"@, "macos"@] =~= seq!["asset_name"@, "macos"@]);
    assert(e + seq!["asset_name"@, "windows"@] =~= seq!["asset_name"@, "windows"@]);
    assert(str_at(s, seq!["owner"@]) == str_at(t, seq![key] + seq!["owner"@]));
    assert(str_at(s, seq!["repo"@]) == str_at(t, seq![key] + seq!["repo"@]));
    assert(str_at(s, seq!["exe_name"@]) == str_at(t, seq![key] + seq!["exe_name"@]));
    assert(str_at(s, seq!["tag"@]) == str_at(t, seq![key] + seq!["tag"@]));
    assert(toml_tables(s).contains(seq!["asset_name"@]) == toml_tables(t).contains(seq![key] + seq!["asset_name"@]));
    assert(str_at(s, seq!["asset_name"@, "linux"@]) == str_at(t, seq![key] + seq!["asset_name"@, "linux"@]));
    assert(str_at(s, seq!["asset_name"@, "macos"@]) == str_at(t, seq![key] + seq!["asset_name"@, "macos"@]));
    assert(str_at(s, seq!["asset_name"@, "windows"@]) == str_at(t, seq![key] + seq!["asset_name"@, "windows"@]));
}

fn missing_store_directory() -> (r: DecodeError)
    ensures
        r matches DecodeError::MissingKey { key } && key@ == store_directory_key(),
{
    DecodeError::MissingKey { key: String::from_str("store_directory") }
}

/// Decodes a document's top-level table: the store directory, which must be
/// a string; the proxy, from `proxy` when given, else from the document; and
/// one tool for each table at the top level.
pub fn decode_config(table: &TomlMap<String, Value>, proxy: Option<String>) -> (r: Result<Config, DecodeError>)
    ensures
        decode_result(*table, proxy, r),
{
    let ghost given = proxy;
    let store_directory = match table_str(table, "store_directory") {
        Some(directory) => directory,
        None => match table_get(table, "store_directory") {
            None => {
                return Err(missing_store_directory());
            },
            Some(v) => {
                return Err(
                    DecodeError::InvalidType {
                        key: String::from_str("store_directory"),
                        expected: string_value(String::from_str("some_value")),
                        found: value_clone(v),
                    },
                );
            },
        },
    };
    let config_proxy = match proxy {
        Some(p) => Some(p),
        None => match table_get(table, "proxy") {
            None => None,
            Some(_) => match table_str(table, "proxy") {
                Some(p) => Some(p),
                None => Some(String::new()),
            },
        },
    };
    assert(opt_view(config_proxy) == resolved_proxy(*table, given));
    let keys = table_keys(table);
    let ghost kv = keys.deep_view();
    assert(kv.len() == keys@.len());
    let mut tools: Vec<(String, ConfigAsset)> = Vec::new();
    let mut i: usize = 0;
    while i < keys.len()
        invariant
            given == proxy,
            kv == keys.deep_view(),
            kv.len() == keys@.len(),
            kv.no_duplicates(),
            str_at(*table, seq![store_directory_key()]) == Some(store_directory@),
            forall|k: Seq<char>| toml_tables(*table).contains(seq![k]) ==> kv.contains(k),
            i <= kv.len(),
            opt_view(config_proxy) == resolved_proxy(*table, given),
            forall|j: int| 0 <= j < tools@.len() ==> {
                &&& toml_tables(*table).contains(seq![#[trigger] tools@[j].0@])
                &&& asset_decoded(*table, seq![tools@[j].0@], tools@[j].1)
                &&& (tools@[j].1.proxy is Some <==> config_proxy is Some)
                &&& exists|m: int| 0 <= m < i && kv[m] == tools@[j].0@
            },
            forall|a: int, b: int| 0 <= a < b < tools@.len() ==> tools@[a].0@ != tools@[b].0@,
            forall|m: int| 0 <= m < i && toml_tables(*table).contains(seq![kv[m]]) ==> exists|j: int|
                0 <= j < tools@.len() && tools@[j].0@ == kv[m],
            proxy_rejected(opt_view(config_proxy)) ==> forall|m: int| 0 <= m < i ==> !toml_tables(*table).contains(seq![kv[m]]),
        decreases kv.len() - i,
    {
        let key = &keys[i];
        assert(key@ == kv[i as int]);
        let ghost untouched = tools@;
        let sub = table_sub(table, key.as_str());
        proof {
            if sub is None {
                assert forall|j: int| #![trigger tools@[j]] 0 <= j < tools@.len() implies exists|m: int| 0 <= m < i + 1 && kv[m] == tools@[j].0@ by {
                    let m = choose|m: int| 0 <= m < i && kv[m] == untouched[j].0@;
                    assert(0 <= m < i + 1 && kv[m] == tools@[j].0@);
                }
            }
        }
        if let Some(tool) = sub {
            match decode_config_asset(tool, &config_proxy) {
                Ok(asset) => {
                    proof {
                        lemma_tool_in_document(*table, key@, *tool, asset);
                    }
                    let ghost before = tools@;
                    tools.push((key.clone(), asset));
                    proof {
                        assert forall|j: int| 0 <= j < before.len() implies tools@[j].0@ != key@ by {
                            let m = choose|m: int| 0 <= m < i && kv[m] == before[j].0@;
                            assert(kv[m] != kv[i as int]);
                        }
                        let last = before.len() as int;
                        assert(tools@[last].0@ == kv[i as int]);
                        assert forall|j: int| 0 <= j < tools@.len() implies {
                            &&& toml_tables(*table).contains(seq![#[trigger] tools@[j].0@])
                            &&& asset_decoded(*table, seq![tools@[j].0@], tools@[j].1)
                            &&& (tools@[j].1.proxy is Some <==> config_proxy is Some)
                            &&& exists|m: int| 0 <= m < i + 1 && kv[m] == tools@[j].0@
                        } by {
                            if j < last {
                                assert(tools@[j] == before[j]);
                                let m = choose|m: int| 0 <= m < i && kv[m] == before[j].0@;
                                assert(0 <= m < i + 1 && kv[m] == tools@[j].0@);
                            } else {
                                assert(kv[i as int] == tools@[j].0@);
                            }
                        }
                        assert forall|m: int| 0 <= m < i + 1 && toml_tables(*table).contains(seq![kv[m]]) implies exists|j: int|
                            0 <= j < tools@.len() && tools@[j].0@ == kv[m] by {
                            if m < i {
                                let j = choose|j: int| 0 <= j < before.len() && before[j].0@ == kv[m];
                                assert(tools@[j] == before[j]);
                            } else {
                                assert(tools@[last].0@ == kv[m]);
                            }
                        }
                    }
                },
                Err(e) => {
                    proof {
                        assert(toml_tables(*table).contains(seq![key@]));
                        assert(has_tool(*table));
                        let p = e->proxy;
                        assert(opt_view(config_proxy) == Some(p@));
                        assert(resolved_proxy(*table, given) == Some(p@));
                        assert(proxy_rejected(Some(p@)));
                        assert(decode_result(*table, given, Err(e)));
                    }
                    return Err(e);
                },
            }
        }
        i = i + 1;
    }
    assert(i == kv.len());
    let ghost list = tools@;
    let tools = tool_map(tools);
    let c = Config { store_directory, tools, proxy: config_proxy };
    proof {
        assert forall|a: int, b: int| 0 <= a < b < list.len() implies list[a].0 != list[b].0 by {
            assert(list[a].0@ != list[b].0@);
        }
        assert(keys_distinct(list));
        assert forall|k: String| #[trigger] c.tools@.contains_key(k) implies {
            &&& toml_tables(*table).contains(seq![k@])
            &&& asset_decoded(*table, seq![k@], c.tools@[k])
            &&& (c.tools@[k].proxy is Some <==> c.proxy is Some)
        } by {
            let j = choose|j: int| 0 <= j < list.len() && list[j].0 == k;
            assert(c.tools@[list[j].0] == list[j].1);
            assert(toml_tables(*table).contains(seq![list[j].0@]));
        }
        assert forall|key: Seq<char>| #[trigger] toml_tables(*table).contains(seq![key]) implies exists|k: String|
            k@ == key && c.tools@.contains_key(k) by {
            assert(kv.contains(key));
            let m = choose|m: int| 0 <= m < kv.len() && kv[m] == key;
            let j = choose|j: int| 0 <= j < list.len() && list[j].0@ == kv[m];
            assert(0 <= j < list.len() && list[j].0 == list[j].0);
            assert(c.tools@.contains_key(list[j].0));
            assert(list[j].0@ == key);
        }
        if proxy_rejected(resolved_proxy(*table, given)) && has_tool(*table) {
            let k = choose|k: Seq<char>| toml_tables(*table).contains(seq![k]);
            assert(kv.contains(k));
            let m = choose|m: int| 0 <= m < kv.len() && kv[m] == k;
            assert(!toml_tables(*table).contains(seq![kv[m]]));
        }
    }
    Ok(c)
}

/// Parses and decodes the text of a configuration file: a parse error
/// exactly when the text is no TOML document, else what its top-level table
/// decodes to.
pub fn parse_string(contents: &str, proxy: Option<String>) -> (r: Result<Config, TomlError>)
    ensures
        r matches Err(TomlError::Parse(_)) <==> !is_toml_document(contents@),
        !(r matches Err(TomlError::IO(_))),
        r matches Ok(c) ==> exists|t: TomlMap<String, Value>| decode_result(t, proxy, Ok(c)),
        r matches Err(TomlError::Decode(e)) ==> exists|t: TomlMap<String, Value>| decode_result(t, proxy, Err(e)),
{
    match parse_toml(contents) {
        Err(e) => Err(TomlError::Parse(e)),
        Ok(table) => {
            let ghost given = proxy;
            let decoded = decode_config(&table, proxy);
            assert(decode_result(table, given, decoded));
            match decoded {
                Ok(config) => Ok(config),
                Err(e) => Err(TomlError::Decode(e)),
            }
        },
    }
}

} // verus!
