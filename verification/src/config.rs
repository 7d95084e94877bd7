//! The service's configuration, read from a YAML document.

use vstd::prelude::*;

use crate::bulk::views;
use crate::models::opt_view;

verus! {

/// A node of a YAML document, as yaml_rust's loader builds it. A mapping
/// keeps its entries in the order in which yaml_rust's map yields them.
#[derive(Debug)]
pub enum YamlValue {
    Real(String),
    Integer(i64),
    String(String),
    Boolean(bool),
    Array(Vec<YamlValue>),
    Hash(Vec<(YamlValue, YamlValue)>),
    Alias(usize),
    Null,
    BadValue,
}

/// The value of the first entry of `entries` whose key is the string
/// `key`.
pub open spec fn entry_value(entries: Seq<(YamlValue, YamlValue)>, key: Seq<char>) -> Option<YamlValue>
    decreases entries.len(),
{
    if entries.len() == 0 {
        None
    } else if entries[0].0 is String && entries[0].0->String_0@ == key {
        Some(entries[0].1)
    } else {
        entry_value(entries.drop_first(), key)
    }
}

/// The entry at `i` has the string key `key`.
pub open spec fn key_at(entries: Seq<(YamlValue, YamlValue)>, i: int, key: Seq<char>) -> bool {
    entries[i].0 is String && entries[i].0->String_0@ == key
}

/// Looking up `key` finds nothing exactly when no entry has that key,
/// and otherwise the value of the first entry that has it.
pub proof fn entry_value_finds_first_key(entries: Seq<(YamlValue, YamlValue)>, key: Seq<char>)
    ensures
        entry_value(entries, key) is None <==> forall|i: int|
            0 <= i < entries.len() ==> !#[trigger] key_at(entries, i, key),
        entry_value(entries, key) is Some ==> exists|i: int|
            0 <= i < entries.len() && #[trigger] key_at(entries, i, key) && entries[i].1
                == entry_value(entries, key)->Some_0 && forall|j: int|
                0 <= j < i ==> !key_at(entries, j, key),
    decreases entries.len(),
{
    if entries.len() > 0 {
        let rest = entries.drop_first();
        entry_value_finds_first_key(rest, key);
        assert forall|i: int| 0 <= i < rest.len() implies #[trigger] key_at(rest, i, key) == key_at(
            entries,
            i + 1,
            key,
        ) by {
            assert(rest[i] == entries[i + 1]);
        }
        if key_at(entries, 0, key) {
            assert(key_at(entries, 0, key));
        } else {
            if entry_value(rest, key) is Some {
                let i = choose|i: int|
                    0 <= i < rest.len() && #[trigger] key_at(rest, i, key) && rest[i].1
                        == entry_value(rest, key)->Some_0 && forall|j: int|
                        0 <= j < i ==> !key_at(rest, j, key);
                assert(key_at(entries, i + 1, key));
                assert forall|j: int| 0 <= j < i + 1 implies !key_at(entries, j, key) by {
                    if j > 0 {
                        assert(key_at(rest, j - 1, key) == key_at(entries, j, key));
                    }
                }
            } else {
                assert forall|i: int| 0 <= i < entries.len() implies !#[trigger] key_at(entries, i, key) by {
                    if i > 0 {
                        assert(key_at(rest, i - 1, key) == key_at(entries, i, key));
                    }
                }
            }
        }
    }
}

/// `doc[key]`: the value of the mapping `doc` under the string `key`, or
/// `BadValue` when `doc` is no mapping or has no such key.
pub open spec fn yaml_index(doc: YamlValue, key: Seq<char>) -> YamlValue {
    match doc {
        YamlValue::Hash(entries) => match entry_value(entries@, key) {
            Some(v) => v,
            None => YamlValue::BadValue,
        },
        _ => YamlValue::BadValue,
    }
}

/// The string that a node holds, if it is a string.
pub open spec fn yaml_str(v: YamlValue) -> Option<Seq<char>> {
    match v {
        YamlValue::String(s) => Some(s@),
        _ => None,
    }
}

/// The string under `key` of the mapping `doc`, if there is one.
pub open spec fn str_at(doc: YamlValue, key: Seq<char>) -> Option<Seq<char>> {
    yaml_str(yaml_index(doc, key))
}

/// The strings of a sequence of nodes, if every one is a string.
pub open spec fn all_strs(items: Seq<YamlValue>) -> Option<Seq<Seq<char>>>
    decreases items.len(),
{
    if items.len() == 0 {
        Some(Seq::empty())
    } else {
        match (all_strs(items.drop_last()), yaml_str(items.last())) {
            (Some(init), Some(s)) => Some(init.push(s)),
            _ => None,
        }
    }
}

/// The value under `key` in `entries`, found by a scan from the start.
fn lookup_entry<'a>(entries: &'a Vec<(YamlValue, YamlValue)>, key: &String) -> (found: Option<&'a YamlValue>)
    ensures
        match found {
            Some(v) => entry_value(entries@, key@) == Some(*v),
            None => entry_value(entries@, key@) is None,
        },
{
    let mut i: usize = 0;
    assert(entries@.skip(0) == entries@);
    while i < entries.len()
        invariant
            i <= entries.len(),
            entry_value(entries@, key@) == entry_value(entries@.skip(i as int), key@),
        decreases entries.len() - i,
    {
        assert(entries@.skip(i as int).drop_first() == entries@.skip(i + 1));
        assert(entries@.skip(i as int)[0] == entries@[i as int]);
        let entry = &entries[i];
        match &entry.0 {
            YamlValue::String(s) => {
                if *s == *key {
                    return Some(&entry.1);
                }
            },
            _ => {},
        }
        i = i + 1;
    }
    assert(entries@.skip(i as int).len() == 0);
    None
}

impl YamlValue {
    /// `self[key]` when it is not `BadValue` for want of a mapping or of
    /// the key.
    pub fn get(&self, key: &str) -> (found: Option<&YamlValue>)
        ensures
            match found {
                Some(v) => yaml_index(*self, key@) == *v,
                None => yaml_index(*self, key@) == YamlValue::BadValue,
            },
    {
        let key = key.to_owned();
        match self {
            YamlValue::Hash(entries) => lookup_entry(entries, &key),
            _ => None,
        }
    }

    /// The string under `key`, if `self[key]` is a string.
    pub fn str_at(&self, key: &str) -> (s: Option<String>)
        ensures
            opt_view(s) == str_at(*self, key@),
    {
        match self.get(key) {
            Some(YamlValue::String(s)) => Some(s.clone()),
            _ => None,
        }
    }

    /// The boolean under `key`, if `self[key]` is one.
    pub fn bool_at(&self, key: &str) -> (b: Option<bool>)
        ensures
            b == match yaml_index(*self, key@) {
                YamlValue::Boolean(v) => Some(v),
                _ => None::<bool>,
            },
    {
        match self.get(key) {
            Some(YamlValue::Boolean(b)) => Some(*b),
            _ => None,
        }
    }

    /// The integer under `key`, if `self[key]` is one.
    pub fn i64_at(&self, key: &str) -> (i: Option<i64>)
        ensures
            i == match yaml_index(*self, key@) {
                YamlValue::Integer(v) => Some(v),
                _ => None::<i64>,
            },
    {
        match self.get(key) {
            Some(YamlValue::Integer(i)) => Some(*i),
            _ => None,
        }
    }
}

/// A sequence of nodes gives strings exactly when every node is a
/// string, and then it gives them element for element, in order.
pub proof fn all_strs_elementwise(items: Seq<YamlValue>)
    ensures
        all_strs(items) is Some <==> forall|i: int|
            0 <= i < items.len() ==> (#[trigger] yaml_str(items[i])) is Some,
        all_strs(items) is Some ==> {
            &&& all_strs(items)->Some_0.len() == items.len()
            &&& forall|i: int|
                0 <= i < items.len() ==> #[trigger] yaml_str(items[i]) == Some(
                    all_strs(items)->Some_0[i],
                )
        },
    decreases items.len(),
{
    if items.len() > 0 {
        let init = items.drop_last();
        all_strs_elementwise(init);
        assert forall|i: int| 0 <= i < init.len() implies #[trigger] init[i] == items[i] by {}
        if all_strs(items) is Some {
            let v = all_strs(items)->Some_0;
            assert forall|i: int| 0 <= i < items.len() implies #[trigger] yaml_str(items[i]) == Some(
                v[i],
            ) by {
                if i < items.len() - 1 {
                    assert(init[i] == items[i]);
                }
            }
        }
        if forall|i: int| 0 <= i < items.len() ==> (#[trigger] yaml_str(items[i])) is Some {
            assert forall|i: int| 0 <= i < init.len() implies (#[trigger] yaml_str(init[i])) is Some by {
                assert(init[i] == items[i]);
            }
            assert(yaml_str(items[items.len() - 1]) is Some);
        }
        if !(all_strs(init) is Some) {
            let j = choose|j: int| 0 <= j < init.len() && !((#[trigger] yaml_str(init[j])) is Some);
            assert(init[j] == items[j]);
        }
    }
}

/// A list with a node that is no string stays so when it grows.
proof fn lemma_all_strs_extend(items: Seq<YamlValue>, k: int, m: int)
    requires
        0 <= k <= m <= items.len(),
        all_strs(items.take(k)) is None,
    ensures
        all_strs(items.take(m)) is None,
    decreases m - k,
{
    if k < m {
        assert(items.take(k + 1).drop_last() == items.take(k));
        lemma_all_strs_extend(items, k + 1, m);
    }
}

/// The strings of a list of nodes, if every one is a string.
fn strings_of(items: &Vec<YamlValue>) -> (strs: Option<Vec<String>>)
    ensures
        match strs {
            Some(v) => all_strs(items@) == Some(views(v@)),
            None => all_strs(items@) is None,
        },
{
    let mut out: Vec<String> = Vec::new();
    let mut i: usize = 0;
    assert(views(out@) =~= Seq::<Seq<char>>::empty());
    while i < items.len()
        invariant
            i <= items.len(),
            all_strs(items@.take(i as int)) == Some(views(out@)),
        decreases items.len() - i,
    {
        assert(items@.take(i + 1).drop_last() == items@.take(i as int));
        assert(items@.take(i + 1).last() == items@[i as int]);
        match &items[i] {
            YamlValue::String(s) => {
                let ghost before = out@;
                out.push(s.clone());
                assert(views(out@) =~= views(before).push(s@));
            },
            _ => {
                proof {
                    lemma_all_strs_extend(items@, i + 1, items@.len() as int);
                    assert(items@.take(items@.len() as int) == items@);
                }
                return None;
            },
        }
        i = i + 1;
    }
    assert(items@.take(items.len() as int) == items@);
    Some(out)
}


/// Where metrics about the processing go.
#[derive(Debug, Clone)]
pub struct StatsdCfg {
    pub address: String,
    pub prefix: String,
}

/// The ZeroMQ queue on which log records arrive.
#[derive(Debug, Clone)]
pub struct ZmqCfg {
    pub address: String,
    pub bind: bool,
}

/// Where log records are indexed, and how.
#[derive(Debug, Clone)]
pub struct ElasticCfg {
    pub address: Vec<String>,
    pub prefix: String,
    pub bulk_size: i64,
    pub ty: String,
}

/// The TCP address on which log records arrive.
#[derive(Debug, Clone)]
pub struct TcpCfg {
    pub address: String,
}

/// The whole configuration.
#[derive(Debug, Clone)]
pub struct Cfg {
    pub statsd: StatsdCfg,
    pub zmq: Option<ZmqCfg>,
    pub tcp: Option<TcpCfg>,
    pub es: ElasticCfg,
}

/// The boolean under `key`, if there is one.
pub open spec fn bool_at(doc: YamlValue, key: Seq<char>) -> Option<bool> {
    match yaml_index(doc, key) {
        YamlValue::Boolean(v) => Some(v),
        _ => None,
    }
}

/// The integer under `key`, if there is one.
pub open spec fn i64_at(doc: YamlValue, key: Seq<char>) -> Option<i64> {
    match yaml_index(doc, key) {
        YamlValue::Integer(v) => Some(v),
        _ => None,
    }
}

/// The strings of the sequence under `key`, if it is a sequence of strings.
pub open spec fn strs_at(doc: YamlValue, key: Seq<char>) -> Option<Seq<Seq<char>>> {
    match yaml_index(doc, key) {
        YamlValue::Array(items) => all_strs(items@),
        _ => None,
    }
}

impl StatsdCfg {
    /// `doc` has what a statsd section needs.
    pub open spec fn loadable(doc: YamlValue) -> bool {
        &&& str_at(doc, "address"@) is Some
        &&& str_at(doc, "prefix"@) is Some
    }

    /// `self` holds what the section `doc` says.
    pub open spec fn loaded_from(self, doc: YamlValue) -> bool {
        &&& str_at(doc, "address"@) == Some(self.address@)
        &&& str_at(doc, "prefix"@) == Some(self.prefix@)
    }

    /// The section read from `doc`, or `None` where a field is missing or
    /// of another kind.
    pub fn try_load(doc: &YamlValue) -> (cfg: Option<StatsdCfg>)
        ensures
            cfg is Some <==> Self::loadable(*doc),
            cfg matches Some(c) ==> c.loaded_from(*doc),
    {
        let address = doc.str_at("address")?;
        let prefix = doc.str_at("prefix")?;
        Some(StatsdCfg { address, prefix })
    }

    /// The section read from `doc`.
    pub fn load(doc: &YamlValue) -> (cfg: StatsdCfg)
        requires
            Self::loadable(*doc),
        ensures
            cfg.loaded_from(*doc),
    {
        match Self::try_load(doc) {
            Some(c) => c,
            None => vstd::pervasive::unreached(),
        }
    }
}

impl ZmqCfg {
    /// `doc` has what a ZeroMQ section needs.
    pub open spec fn loadable(doc: YamlValue) -> bool {
        &&& str_at(doc, "address"@) is Some
        &&& bool_at(doc, "bind"@) is Some
    }

    /// `self` holds what the section `doc` says.
    pub open spec fn loaded_from(self, doc: YamlValue) -> bool {
        &&& str_at(doc, "address"@) == Some(self.address@)
        &&& bool_at(doc, "bind"@) == Some(self.bind)
    }

    /// The section read from `doc`, or `None` where a field is missing or
    /// of another kind.
    pub fn try_load(doc: &YamlValue) -> (cfg: Option<ZmqCfg>)
        ensures
            cfg is Some <==> Self::loadable(*doc),
            cfg matches Some(c) ==> c.loaded_from(*doc),
    {
        let address = doc.str_at("address")?;
        let bind = doc.bool_at("bind")?;
        Some(ZmqCfg { address, bind })
    }

    /// The section read from `doc`.
    pub fn load(doc: &YamlValue) -> (cfg: ZmqCfg)
        requires
            Self::loadable(*doc),
        ensures
            cfg.loaded_from(*doc),
    {
        match Self::try_load(doc) {
            Some(c) => c,
            None => vstd::pervasive::unreached(),
        }
    }
}

impl TcpCfg {
    /// `doc` has what a TCP section needs.
    pub open spec fn loadable(doc: YamlValue) -> bool {
        str_at(doc, "address"@) is Some
    }

    /// `self` holds what the section `doc` says.
    pub open spec fn loaded_from(self, doc: YamlValue) -> bool {
        str_at(doc, "address"@) == Some(self.address@)
    }

    /// The section read from `doc`, or `None` where the address is
    /// missing or no string.
    pub fn try_load(doc: &YamlValue) -> (cfg: Option<TcpCfg>)
        ensures
            cfg is Some <==> Self::loadable(*doc),
            cfg matches Some(c) ==> c.loaded_from(*doc),
    {
        let address = doc.str_at("address")?;
        Some(TcpCfg { address })
    }

    /// The section read from `doc`.
    pub fn load(doc: &YamlValue) -> (cfg: TcpCfg)
        requires
            Self::loadable(*doc),
        ensures
            cfg.loaded_from(*doc),
    {
        match Self::try_load(doc) {
            Some(c) => c,
            None => vstd::pervasive::unreached(),
        }
    }
}

impl ElasticCfg {
    /// `doc` has what a search-cluster section needs.
    pub open spec fn loadable(doc: YamlValue) -> bool {
        &&& strs_at(doc, "address"@) is Some
        &&& str_at(doc, "prefix"@) is Some
        &&& i64_at(doc, "bulk_size"@) is Some
        &&& str_at(doc, "type"@) is Some
    }

    /// `self` holds what the section `doc` says.
    pub open spec fn loaded_from(self, doc: YamlValue) -> bool {
        &&& strs_at(doc, "address"@) == Some(views(self.address@))
        &&& str_at(doc, "prefix"@) == Some(self.prefix@)
        &&& i64_at(doc, "bulk_size"@) == Some(self.bulk_size)
        &&& str_at(doc, "type"@) == Some(self.ty@)
    }

    /// The section read from `doc`, or `None` where a field is missing or
    /// of another kind.
    pub fn try_load(doc: &YamlValue) -> (cfg: Option<ElasticCfg>)
        ensures
            cfg is Some <==> Self::loadable(*doc),
            cfg matches Some(c) ==> c.loaded_from(*doc),
    {
        let address = match doc.get("address") {
            Some(YamlValue::Array(items)) => strings_of(items)?,
            _ => return None,
        };
        let prefix = doc.str_at("prefix")?;
        let bulk_size = doc.i64_at("bulk_size")?;
        let ty = doc.str_at("type")?;
        Some(ElasticCfg { address, prefix, bulk_size, ty })
    }

    /// The section read from `doc`.
    pub fn load(doc: &YamlValue) -> (cfg: ElasticCfg)
        requires
            Self::loadable(*doc),
        ensures
            cfg.loaded_from(*doc),
    {
        match Self::try_load(doc) {
            Some(c) => c,
            None => vstd::pervasive::unreached(),
        }
    }
}

/// An optional section is either absent (`BadValue`) or complete.
pub open spec fn optional_section_loadable(section: YamlValue, loadable: bool) -> bool {
    section is BadValue || loadable
}

impl Cfg {
    /// `doc` has what the whole configuration needs: statsd and search
    /// cluster sections, and ZeroMQ and TCP sections that are either
    /// absent or complete.
    pub open spec fn loadable(doc: YamlValue) -> bool {
        &&& StatsdCfg::loadable(yaml_index(doc, "statsd"@))
        &&& optional_section_loadable(
            yaml_index(doc, "zeromq"@),
            ZmqCfg::loadable(yaml_index(doc, "zeromq"@)),
        )
        &&& optional_section_loadable(
            yaml_index(doc, "tcp"@),
            TcpCfg::loadable(yaml_index(doc, "tcp"@)),
        )
        &&& ElasticCfg::loadable(yaml_index(doc, "elastic_search"@))
    }

    /// `self` holds what `doc` says; an absent ZeroMQ or TCP section is
    /// `None`.
    pub open spec fn loaded_from(self, doc: YamlValue) -> bool {
        &&& self.statsd.loaded_from(yaml_index(doc, "statsd"@))
        &&& if yaml_index(doc, "zeromq"@) is BadValue {
            self.zmq is None
        } else {
            self.zmq matches Some(z) && z.loaded_from(yaml_index(doc, "zeromq"@))
        }
        &&& if yaml_index(doc, "tcp"@) is BadValue {
            self.tcp is None
        } else {
            self.tcp matches Some(t) && t.loaded_from(yaml_index(doc, "tcp"@))
        }
        &&& self.es.loaded_from(yaml_index(doc, "elastic_search"@))
    }

    /// The configuration read from `doc`, or `None` where a section or a
    /// field is missing or of another kind.
    pub fn try_load(doc: &YamlValue) -> (cfg: Option<Cfg>)
        ensures
            cfg is Some <==> Self::loadable(*doc),
            cfg matches Some(c) ==> c.loaded_from(*doc),
    {
        let statsd = match doc.get("statsd") {
            Some(section) => StatsdCfg::try_load(section)?,
            None => return None,
        };
        let zmq = match doc.get("zeromq") {
            Some(YamlValue::BadValue) => None,
            Some(section) => Some(ZmqCfg::try_load(section)?),
            None => None,
        };
        let tcp = match doc.get("tcp") {
            Some(YamlValue::BadValue) => None,
            Some(section) => Some(TcpCfg::try_load(section)?),
            None => None,
        };
        let es = match doc.get("elastic_search") {
            Some(section) => ElasticCfg::try_load(section)?,
            None => return None,
        };
        Some(Cfg { statsd, zmq, es, tcp })
    }

    /// The configuration read from `doc`.
    pub fn load(doc: &YamlValue) -> (cfg: Cfg)
        requires
            Self::loadable(*doc),
        ensures
            cfg.loaded_from(*doc),
    {
        match Self::try_load(doc) {
            Some(c) => c,
            None => vstd::pervasive::unreached(),
        }
    }
}

/// A loaded configuration holds, field for field, what its own section
/// of the document says: the statsd fields come from the "statsd"
/// section, the search-cluster fields from "elastic_search" (its
/// addresses element for element, in order), and the ZeroMQ and TCP
/// sections are present exactly when the document has them.
pub proof fn loaded_config_reads_its_sections(c: Cfg, doc: YamlValue)
    requires
        c.loaded_from(doc),
    ensures
        str_at(yaml_index(doc, "statsd"@), "address"@) == Some(c.statsd.address@),
        str_at(yaml_index(doc, "statsd"@), "prefix"@) == Some(c.statsd.prefix@),
        yaml_index(yaml_index(doc, "elastic_search"@), "address"@) is Array,
        yaml_index(yaml_index(doc, "elastic_search"@), "address"@)->Array_0@.len()
            == c.es.address@.len(),
        forall|i: int|
            0 <= i < c.es.address@.len() ==> yaml_str(
                #[trigger] yaml_index(yaml_index(doc, "elastic_search"@), "address"@)->Array_0@[i],
            ) == Some(c.es.address@[i]@),
        str_at(yaml_index(doc, "elastic_search"@), "prefix"@) == Some(c.es.prefix@),
        i64_at(yaml_index(doc, "elastic_search"@), "bulk_size"@) == Some(c.es.bulk_size),
        str_at(yaml_index(doc, "elastic_search"@), "type"@) == Some(c.es.ty@),
        c.zmq is None <==> yaml_index(doc, "zeromq"@) is BadValue,
        c.zmq is Some ==> str_at(yaml_index(doc, "zeromq"@), "address"@) == Some(
            c.zmq->Some_0.address@,
        ) && bool_at(yaml_index(doc, "zeromq"@), "bind"@) == Some(c.zmq->Some_0.bind),
        c.tcp is None <==> yaml_index(doc, "tcp"@) is BadValue,
        c.tcp is Some ==> str_at(yaml_index(doc, "tcp"@), "address"@) == Some(
            c.tcp->Some_0.address@,
        ),
{
    let es = yaml_index(doc, "elastic_search"@);
    let items = yaml_index(es, "address"@)->Array_0@;
    all_strs_elementwise(items);
    assert forall|i: int| 0 <= i < c.es.address@.len() implies yaml_str(#[trigger] items[i]) == Some(
        c.es.address@[i]@,
    ) by {
        assert(yaml_str(items[i]) == Some(all_strs(items)->Some_0[i]));
        assert(views(c.es.address@)[i] == c.es.address@[i]@);
    }
}

/// A node of a document as yaml_rust builds it.
#[verifier::external_type_specification]
#[verifier::external_body]
pub struct ExYaml(yaml_rust::Yaml);

/// The documents that yaml_rust's loader reads from a text, or `None`
/// when the text is no valid YAML.
pub uninterp spec fn yaml_documents(text: Seq<char>) -> Option<Seq<YamlValue>>;

/// Turns a node that yaml_rust built into the same node of this crate,
/// variant for variant and entry for entry, in the same order. Nothing
/// about it is stated: only `load_yaml` calls it.
#[verifier::external_body]
fn yaml_tree(y: &yaml_rust::Yaml) -> YamlValue {
    match y {
        yaml_rust::Yaml::Real(s) => YamlValue::Real(s.clone()),
        yaml_rust::Yaml::Integer(i) => YamlValue::Integer(*i),
        yaml_rust::Yaml::String(s) => YamlValue::String(s.clone()),
        yaml_rust::Yaml::Boolean(b) => YamlValue::Boolean(*b),
        yaml_rust::Yaml::Array(a) => YamlValue::Array(a.iter().map(yaml_tree).collect()),
        yaml_rust::Yaml::Hash(h) => YamlValue::Hash(h.iter().map(|(k, v)| (yaml_tree(k), yaml_tree(v))).collect()),
        yaml_rust::Yaml::Alias(n) => YamlValue::Alias(*n),
        yaml_rust::Yaml::Null => YamlValue::Null,
        yaml_rust::Yaml::BadValue => YamlValue::BadValue,
    }
}

/// Calls `yaml_rust::YamlLoader::load_from_str` on `text`. The documents
/// it gives are named, not described: they depend on the text alone. A
/// scan error becomes `None`.
#[verifier::external_body]
fn load_yaml(text: &str) -> (docs: Option<Vec<YamlValue>>)
    ensures
        match docs {
            Some(d) => yaml_documents(text@) == Some(d@),
            None => yaml_documents(text@) is None,
        },
{
    match yaml_rust::YamlLoader::load_from_str(text) {
        Ok(docs) => Some(docs.iter().map(yaml_tree).collect()),
        Err(_) => None,
    }
}

/// The configuration that the first document of the YAML text `text`
/// describes. `None` when the text is no valid YAML, holds no document,
/// or its first document lacks a section or a field that `Cfg::load`
/// needs.
pub fn parse_config(text: &str) -> (cfg: Option<Cfg>)
    ensures
        match yaml_documents(text@) {
            Some(docs) => if docs.len() > 0 && Cfg::loadable(docs[0]) {
                cfg matches Some(c) && c.loaded_from(docs[0])
            } else {
                cfg is None
            },
            None => cfg is None,
        },
{
    let docs = load_yaml(text)?;
    if docs.len() == 0 {
        return None;
    }
    Cfg::try_load(&docs[0])
}

} // verus!
