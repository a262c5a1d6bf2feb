//! Configuration files: what a new one is called, which files of the
//! configuration directory are on offer, and whether a downloaded file is a
//! configuration at all.

use vstd::prelude::*;
use vstd::string::*;
use vstd::utf8::*;
use crate::text::{
    bytes_contain, bytes_end_with, bytes_eq, bytes_start_with, contains_bytes, ends_with,
    find_byte, find_last_byte, first_index_of, last_index_of, lemma_encode_concat, starts_with,
    str_eq,
};

verus! {

/// The file that the daemon reads. It is a copy of the chosen one, and not
/// itself on offer.
pub open spec fn active_config() -> Seq<char> {
    "config.yaml"@
}

/// Whether a file name ends like a YAML file's.
pub open spec fn has_yaml_suffix(name: Seq<char>) -> bool {
    ends_with(encode_utf8(name), encode_utf8(".yaml"@)) || ends_with(
        encode_utf8(name),
        encode_utf8(".yml"@),
    )
}

/// A name as a YAML file's: as it is where it ends like one, else with
/// `.yaml` behind it.
pub open spec fn yaml_name_of(name: Seq<char>) -> Seq<char> {
    if has_yaml_suffix(name) {
        name
    } else {
        name + ".yaml"@
    }
}

/// The name of a new configuration: the name given, or else the file name
/// that was found in the address it comes from, or else `subscription.yaml`;
/// each as a YAML file's name.
pub open spec fn config_name_of(name: Option<Seq<char>>, found: Option<Seq<char>>) -> Seq<char> {
    match name {
        Some(name) => yaml_name_of(name),
        None => match found {
            Some(found) => yaml_name_of(found),
            None => yaml_name_of("subscription.yaml"@),
        },
    }
}

/// The name of a new configuration ends like a YAML file's, whatever was
/// given and found.
pub proof fn lemma_config_name_is_yaml(name: Option<Seq<char>>, found: Option<Seq<char>>)
    ensures
        has_yaml_suffix(config_name_of(name, found)),
{
    let base = match name {
        Some(name) => name,
        None => match found {
            Some(found) => found,
            None => "subscription.yaml"@,
        },
    };
    assert(config_name_of(name, found) == yaml_name_of(base));
    if !has_yaml_suffix(base) {
        lemma_encode_concat(base, ".yaml"@);
        let bytes = encode_utf8(base + ".yaml"@);
        let suffix = encode_utf8(".yaml"@);
        assert(bytes.skip(bytes.len() - suffix.len()) =~= suffix);
    }
}

/// Whether a file name ends like a YAML file's.
fn ends_like_yaml(name: &str) -> (ends: bool)
    ensures
        ends == has_yaml_suffix(name@),
{
    bytes_end_with(name.as_bytes(), ".yaml".as_bytes()) || bytes_end_with(
        name.as_bytes(),
        ".yml".as_bytes(),
    )
}

/// A name as a YAML file's.
pub fn with_yaml_suffix(name: String) -> (file: String)
    ensures
        file@ == yaml_name_of(name@),
{
    if ends_like_yaml(name.as_str()) {
        name
    } else {
        name.concat(".yaml")
    }
}

/// The address without the query behind its first question mark.
pub fn url_path(url: &str) -> (path: &str)
    ensures
        path.spec_bytes() == url.spec_bytes().take(first_index_of(url.spec_bytes(), 63) as int),
{
    let bytes = url.as_bytes();
    let at = find_byte(bytes, 63);
    proof {
        encode_utf8_valid_utf8(url@);
        if at < bytes.len() {
            is_char_boundary_iff_not_is_continuation_byte(bytes@, at as int);
        } else {
            is_char_boundary_start_end_of_seq(bytes@);
        }
    }
    let (path, _) = url.split_at(at);
    path
}

/// Calls `Path::file_name` of std on `path`, and `OsStr::to_str` on what it
/// finds. What counts as a file name depends on the platform, so the
/// contract says nothing of the result.
#[verifier::external_body]
fn path_file_name(path: &str) -> (name: Option<String>) {
    match std::path::Path::new(path).file_name() {
        Some(name) => match name.to_str() {
            Some(name) => Some(name.to_string()),
            None => None,
        },
        None => None,
    }
}

/// The name of a new configuration, from the name given and the file name
/// found in its address.
pub fn name_or_found(name: Option<String>, found: Option<String>) -> (file: String)
    ensures
        file@ == config_name_of(name.deep_view(), found.deep_view()),
{
    match name {
        Some(name) => with_yaml_suffix(name),
        None => match found {
            Some(found) => with_yaml_suffix(found),
            None => with_yaml_suffix(String::from_str("subscription.yaml")),
        },
    }
}

/// The name of a new configuration that comes from `url`: the name given,
/// or else the file name at the end of the address's path.
pub fn config_file_name(url: &str, name: Option<String>) -> (file: String)
    ensures
        name.is_some() ==> file@ == yaml_name_of(name.unwrap()@),
        name.is_none() ==> exists|found: Option<Seq<char>>| file@ == config_name_of(None, found),
        has_yaml_suffix(file@),
{
    match name {
        Some(name) => {
            proof {
                lemma_config_name_is_yaml(Some(name@), None);
            }
            with_yaml_suffix(name)
        },
        None => {
            let found = path_file_name(url_path(url));
            let file = name_or_found(None, found);
            proof {
                assert(file@ == config_name_of(None, found.deep_view()));
                lemma_config_name_is_yaml(None, found.deep_view());
            }
            file
        },
    }
}

/// Whether a configuration comes from the network, and not from a local
/// file.
pub fn is_remote(url: &str) -> (remote: bool)
    ensures
        remote == starts_with(url.spec_bytes(), encode_utf8("http"@)),
{
    bytes_start_with(url.as_bytes(), "http".as_bytes())
}

/// The extension of a file name: what follows its last dot. A name without
/// a dot has none, nor has one whose only dot is its first byte.
pub open spec fn extension_of(name: Seq<u8>) -> Option<Seq<u8>> {
    if last_index_of(name, 46) <= 0 {
        None
    } else {
        Some(name.skip(last_index_of(name, 46) + 1))
    }
}

/// Whether a file of the configuration directory is on offer: a YAML file
/// by its extension, and not the active configuration.
pub open spec fn is_config_name_of(name: Seq<char>) -> bool {
    &&& extension_of(encode_utf8(name)) == Some(encode_utf8("yaml"@)) || extension_of(
        encode_utf8(name),
    ) == Some(encode_utf8("yml"@))
    &&& name != active_config()
}

/// Whether a file of the configuration directory is on offer.
pub fn is_config_name(name: &str) -> (offered: bool)
    ensures
        offered == is_config_name_of(name@),
{
    let bytes = name.as_bytes();
    let yaml = match find_last_byte(bytes, 46) {
        Some(dot) => {
            if dot == 0 {
                false
            } else {
                let extension = vstd::slice::slice_subrange(bytes, dot + 1, bytes.len());
                bytes_eq(extension, "yaml".as_bytes()) || bytes_eq(extension, "yml".as_bytes())
            }
        },
        None => false,
    };
    yaml && !str_eq(name, "config.yaml")
}

/// Why a file is no configuration.
#[derive(Clone, Copy, Debug, PartialEq, Eq, Structural)]
pub enum ConfigProblem {
    /// One long word: a subscription in its general, encoded form.
    Base64,
    /// A list of node addresses.
    NodeList,
    /// A web page, such as a login form.
    Html,
    /// None of these, and no configuration either.
    NotConfig,
}

impl ConfigProblem {
    /// The problem as a sentence.
    pub open spec fn message_of(self) -> Seq<char> {
        match self {
            ConfigProblem::Base64 => "检测到 Base64 编码的内容。这是通用的订阅格式，不是 Clash 配置文件。"@,
            ConfigProblem::NodeList => "检测到原始节点列表。Clash 需要 YAML 格式的配置文件。"@,
            ConfigProblem::Html => "下载的内容似乎是 HTML 页面。可能是订阅链接失效或需要网页验证。"@,
            ConfigProblem::NotConfig => "文件不是有效的 Clash YAML 配置文件。"@,
        }
    }

    /// The problem as a sentence.
    pub fn message(&self) -> (message: &'static str)
        ensures
            message@ == self.message_of(),
    {
        match self {
            ConfigProblem::Base64 => "检测到 Base64 编码的内容。这是通用的订阅格式，不是 Clash 配置文件。",
            ConfigProblem::NodeList => "检测到原始节点列表。Clash 需要 YAML 格式的配置文件。",
            ConfigProblem::Html => "下载的内容似乎是 HTML 页面。可能是订阅链接失效或需要网页验证。",
            ConfigProblem::NotConfig => "文件不是有效的 Clash YAML 配置文件。",
        }
    }
}

/// Declares `serde_yaml::Value`, a parsed YAML document, so that one can be
/// handed from the call that parses it to the calls that look into it.
/// Nothing is known of what is inside but through [`yaml_keys`].
#[verifier::external_type_specification]
#[verifier::external_body]
pub struct ExYamlValue(serde_yaml::Value);

/// The keys of a YAML document that is a mapping, as far as they are
/// strings; no key for any other document.
pub uninterp spec fn yaml_keys(doc: serde_yaml::Value) -> Set<Seq<char>>;

/// The keys of the YAML document that `text` is; nothing where `text` is no
/// YAML.
pub uninterp spec fn yaml_text_keys(text: Seq<char>) -> Option<Set<Seq<char>>>;

/// What is left of a text without the white space at its two ends.
pub uninterp spec fn trim_of(text: Seq<char>) -> Seq<char>;

/// A text in lower case.
pub uninterp spec fn lowercase_of(text: Seq<char>) -> Seq<char>;

/// Calls `serde_yaml::from_str` for a `serde_yaml::Value`. The contract
/// names the keys of the document that came out, and says that none comes
/// out where the text is no YAML.
#[verifier::external_body]
fn parse_yaml(text: &str) -> (doc: Option<serde_yaml::Value>)
    ensures
        match doc {
            Some(doc) => yaml_text_keys(text@) == Some(yaml_keys(doc)),
            None => yaml_text_keys(text@).is_none(),
        },
{
    match serde_yaml::from_str::<serde_yaml::Value>(text) {
        Ok(doc) => Some(doc),
        Err(_) => None,
    }
}

/// Calls `Value::get` of serde_yaml with a string, which finds a member
/// only in a mapping that has the string as a key.
#[verifier::external_body]
fn yaml_has_key(doc: &serde_yaml::Value, key: &str) -> (has: bool)
    ensures
        has == yaml_keys(*doc).contains(key@),
{
    doc.get(key).is_some()
}

/// Calls `str::trim` of std. The contract only names the result.
#[verifier::external_body]
fn trimmed(text: &str) -> (inner: &str)
    ensures
        inner@ == trim_of(text@),
{
    text.trim()
}

/// Calls `str::to_lowercase` of std. The contract only names the result.
#[verifier::external_body]
fn lowercase(text: &str) -> (lower: String)
    ensures
        lower@ == lowercase_of(text@),
{
    text.to_lowercase()
}

/// Whether a set of keys holds one that only a configuration has.
pub open spec fn has_config_key(keys: Set<Seq<char>>) -> bool {
    keys.contains("proxies"@) || keys.contains("proxy-providers"@) || keys.contains(
        "mixed-port"@,
    ) || keys.contains("port"@)
}

/// Whether a text is a YAML mapping with a key that only a configuration
/// has.
pub open spec fn is_config_text(content: Seq<char>) -> bool {
    match yaml_text_keys(content) {
        Some(keys) => has_config_key(keys),
        None => false,
    }
}

/// Whether a text is one long word: more than 50 bytes without a space or a
/// newline.
pub open spec fn is_long_word(text: Seq<char>) -> bool {
    let bytes = encode_utf8(text);
    bytes.len() > 50 && first_index_of(bytes, 32) == bytes.len() && first_index_of(bytes, 10)
        == bytes.len()
}

/// Whether a text holds the address of a node.
pub open spec fn has_node_address(content: Seq<char>) -> bool {
    let bytes = encode_utf8(content);
    contains_bytes(bytes, encode_utf8("trojan://"@)) || contains_bytes(
        bytes,
        encode_utf8("ss://"@),
    ) || contains_bytes(bytes, encode_utf8("vmess://"@)) || contains_bytes(
        bytes,
        encode_utf8("vless://"@),
    )
}

/// Whether a text in lower case holds the start of a web page.
pub open spec fn has_html_start(lower: Seq<char>) -> bool {
    let bytes = encode_utf8(lower);
    contains_bytes(bytes, encode_utf8("<!doctype html>"@)) || contains_bytes(
        bytes,
        encode_utf8("<html"@),
    )
}

/// What is wrong with a text that is no configuration, given what its
/// trimmed and its lower-case form are. The first that applies: one long
/// word, node addresses, a web page; else that it is no configuration.
pub open spec fn problem_of(content: Seq<char>, inner: Seq<char>, lower: Seq<char>) -> ConfigProblem {
    if is_long_word(inner) {
        ConfigProblem::Base64
    } else if has_node_address(content) {
        ConfigProblem::NodeList
    } else if has_html_start(lower) {
        ConfigProblem::Html
    } else {
        ConfigProblem::NotConfig
    }
}

/// Whether the file's content is a configuration, and what it is instead
/// where it is none.
pub open spec fn verdict_of(content: Seq<char>) -> Result<(), ConfigProblem> {
    if is_config_text(content) {
        Ok(())
    } else {
        Err(problem_of(content, trim_of(content), lowercase_of(content)))
    }
}

/// What is wrong with a text that is no configuration.
pub fn find_problem(content: &str, inner: &str, lower: &str) -> (problem: ConfigProblem)
    ensures
        problem == problem_of(content@, inner@, lower@),
{
    let word = inner.as_bytes();
    if word.len() > 50 && find_byte(word, 32) == word.len() && find_byte(word, 10) == word.len() {
        return ConfigProblem::Base64;
    }
    let bytes = content.as_bytes();
    if bytes_contain(bytes, "trojan://".as_bytes()) || bytes_contain(bytes, "ss://".as_bytes())
        || bytes_contain(bytes, "vmess://".as_bytes()) || bytes_contain(
        bytes,
        "vless://".as_bytes(),
    ) {
        return ConfigProblem::NodeList;
    }
    let page = lower.as_bytes();
    if bytes_contain(page, "<!doctype html>".as_bytes()) || bytes_contain(
        page,
        "<html".as_bytes(),
    ) {
        return ConfigProblem::Html;
    }
    ConfigProblem::NotConfig
}

/// Whether a document has a key that only a configuration has.
fn has_known_key(doc: &serde_yaml::Value) -> (known: bool)
    ensures
        known == has_config_key(yaml_keys(*doc)),
{
    yaml_has_key(doc, "proxies") || yaml_has_key(doc, "proxy-providers") || yaml_has_key(
        doc,
        "mixed-port",
    ) || yaml_has_key(doc, "port")
}

/// Says whether the content of a file is a configuration, and what it is
/// instead where it is none.
pub fn validate_config(content: &str) -> (verdict: Result<(), ConfigProblem>)
    ensures
        verdict == verdict_of(content@),
{
    let known = match parse_yaml(content) {
        Some(doc) => has_known_key(&doc),
        None => false,
    };
    if known {
        Ok(())
    } else {
        let lower = lowercase(content);
        Err(find_problem(content, trimmed(content), lower.as_str()))
    }
}

} // verus!
