//! The client configuration: the properties of the site files as one map
//! from key to value, with the namenode's host and port derived from them.

use crate::hdfs::err::Error;
use crate::text;
use crate::text::{chars_of, find_char, read_u16, starts_with};
use crate::hdfs::xml;
use crate::hdfs::xml::read_properties;
use vstd::prelude::*;

verus! {

/// The key that the derived host is stored under.
pub open spec fn host_key() -> Seq<char> {
    "host"@
}

/// The key that the derived port is stored under.
pub open spec fn port_key() -> Seq<char> {
    "port"@
}

/// The key of the default filesystem's address.
pub open spec fn default_fs_key() -> Seq<char> {
    "fs.defaultFS"@
}

/// The key of the namenode's RPC address.
pub open spec fn rpc_address_key() -> Seq<char> {
    "dfs.namenode.rpc-address"@
}

/// The key of the list of nameservices.
pub open spec fn nameservices_key() -> Seq<char> {
    "dfs.nameservices"@
}

/// What an HDFS address starts with.
pub open spec fn hdfs_scheme() -> Seq<char> {
    "hdfs://"@
}

/// The five keys above are five different texts, and the scheme is seven
/// characters long.
pub proof fn lemma_keys_differ()
    ensures
        host_key() != port_key(),
        host_key() != default_fs_key(),
        host_key() != rpc_address_key(),
        host_key() != nameservices_key(),
        port_key() != default_fs_key(),
        port_key() != rpc_address_key(),
        port_key() != nameservices_key(),
        default_fs_key() != rpc_address_key(),
        default_fs_key() != nameservices_key(),
        rpc_address_key() != nameservices_key(),
        hdfs_scheme().len() == 7,
{
    reveal_strlit("host");
    reveal_strlit("port");
    reveal_strlit("fs.defaultFS");
    reveal_strlit("dfs.namenode.rpc-address");
    reveal_strlit("dfs.nameservices");
    reveal_strlit("hdfs://");
    assert(host_key()[0] == 'h');
    assert(port_key()[0] == 'p');
    assert(default_fs_key().len() == 12);
    assert(rpc_address_key().len() == 24);
    assert(nameservices_key().len() == 16);
}

/// The host and the port in the address `s` from `start` on: what stands
/// before the first `:` and what stands after it. Without a `:` all of it
/// is the host, and there is no port.
pub open spec fn address_parts(s: Seq<char>, start: int) -> (Option<Seq<char>>, Option<Seq<char>>) {
    (Some(text::head_from(s, ':', start)), text::tail_from(s, ':', start))
}

/// The namenode's host and port as the properties `m` give them. The first
/// of these that applies decides: the default filesystem's address, if it
/// starts with `hdfs://`; the namenode's RPC address; the first of the
/// nameservices, which gives a host and no port.
pub open spec fn host_port(m: Map<Seq<char>, Seq<char>>) -> (Option<Seq<char>>, Option<Seq<char>>) {
    if m.contains_key(default_fs_key()) && hdfs_scheme().is_prefix_of(m[default_fs_key()]) {
        address_parts(m[default_fs_key()], hdfs_scheme().len() as int)
    } else if m.contains_key(rpc_address_key()) {
        address_parts(m[rpc_address_key()], 0)
    } else if m.contains_key(nameservices_key()) {
        (Some(text::head_from(m[nameservices_key()], ',', 0)), None)
    } else {
        (None, None)
    }
}

/// `m` with `value` stored under `key`, if there is a value.
pub open spec fn with_entry(
    m: Map<Seq<char>, Seq<char>>,
    key: Seq<char>,
    value: Option<Seq<char>>,
) -> Map<Seq<char>, Seq<char>> {
    match value {
        Some(v) => m.insert(key, v),
        None => m,
    }
}

/// The properties `m` with the derived host and port stored among them.
pub open spec fn with_host_port(m: Map<Seq<char>, Seq<char>>) -> Map<Seq<char>, Seq<char>> {
    with_entry(with_entry(m, host_key(), host_port(m).0), port_key(), host_port(m).1)
}

/// Deriving host and port a second time changes nothing: they are derived
/// from keys that the derivation itself does not touch.
pub proof fn lemma_with_host_port_idempotent(m: Map<Seq<char>, Seq<char>>)
    ensures
        with_host_port(with_host_port(m)) == with_host_port(m),
{
    lemma_keys_differ();
    let m2 = with_host_port(m);
    assert(m2.contains_key(default_fs_key()) == m.contains_key(default_fs_key()));
    assert(m2.contains_key(rpc_address_key()) == m.contains_key(rpc_address_key()));
    assert(m2.contains_key(nameservices_key()) == m.contains_key(nameservices_key()));
    assert(host_port(m2) == host_port(m));
    assert(with_host_port(m2) =~= m2);
}

/// The map that a list of pairs stands for: a later pair replaces an
/// earlier one with the same key.
pub open spec fn pairs_map(pairs: Seq<(String, String)>) -> Map<Seq<char>, Seq<char>>
    decreases pairs.len(),
{
    if pairs.len() == 0 {
        Map::empty()
    } else {
        pairs_map(pairs.drop_last()).insert(pairs.last().0@, pairs.last().1@)
    }
}

/// Whether no key occurs twice among `pairs`.
pub open spec fn distinct_keys(pairs: Seq<(String, String)>) -> bool {
    forall|i: int, j: int|
        0 <= i < j < pairs.len() ==> (#[trigger] pairs[i]).0@ != (#[trigger] pairs[j]).0@
}

/// The keys of the map are the keys of the pairs.
pub proof fn lemma_pairs_map_keys(pairs: Seq<(String, String)>, key: Seq<char>)
    ensures
        pairs_map(pairs).contains_key(key) <==> exists|i: int|
            0 <= i < pairs.len() && (#[trigger] pairs[i]).0@ == key,
    decreases pairs.len(),
{
    if pairs.len() > 0 {
        let rest = pairs.drop_last();
        lemma_pairs_map_keys(rest, key);
        if pairs_map(pairs).contains_key(key) {
            if pairs.last().0@ == key {
                assert(pairs[pairs.len() - 1].0@ == key);
            } else {
                let i = choose|i: int| 0 <= i < rest.len() && (#[trigger] rest[i]).0@ == key;
                assert(pairs[i].0@ == key);
            }
        }
        if exists|i: int| 0 <= i < pairs.len() && (#[trigger] pairs[i]).0@ == key {
            let i = choose|i: int| 0 <= i < pairs.len() && (#[trigger] pairs[i]).0@ == key;
            if i < rest.len() {
                assert(rest[i].0@ == key);
            }
        }
    }
}

/// Where no key occurs twice, each pair is found in the map as it stands in
/// the list.
pub proof fn lemma_pairs_map_value(pairs: Seq<(String, String)>, i: int)
    requires
        distinct_keys(pairs),
        0 <= i < pairs.len(),
    ensures
        pairs_map(pairs).contains_key(pairs[i].0@),
        pairs_map(pairs)[pairs[i].0@] == pairs[i].1@,
    decreases pairs.len(),
{
    let rest = pairs.drop_last();
    if i < pairs.len() - 1 {
        assert(distinct_keys(rest)) by {
            assert forall|a: int, b: int| 0 <= a < b < rest.len() implies (#[trigger] rest[a]).0@ != (
            #[trigger] rest[b]).0@ by {
                assert(pairs[a].0@ != pairs[b].0@);
            }
        }
        lemma_pairs_map_value(rest, i);
        assert(rest[i] == pairs[i]);
        assert(pairs[i].0@ != pairs[pairs.len() - 1].0@);
    }
}

/// Where no key occurs twice, putting a pair in the place of one with the
/// same key stores its value under that key.
pub proof fn lemma_pairs_map_update(pairs: Seq<(String, String)>, i: int, pair: (String, String))
    requires
        distinct_keys(pairs),
        0 <= i < pairs.len(),
        pairs[i].0@ == pair.0@,
    ensures
        distinct_keys(pairs.update(i, pair)),
        pairs_map(pairs.update(i, pair)) == pairs_map(pairs).insert(pair.0@, pair.1@),
    decreases pairs.len(),
{
    let updated = pairs.update(i, pair);
    assert(distinct_keys(updated)) by {
        assert forall|a: int, b: int| 0 <= a < b < updated.len() implies (
        #[trigger] updated[a]).0@ != (#[trigger] updated[b]).0@ by {
            assert(pairs[a].0@ != pairs[b].0@);
        }
    }
    let rest = pairs.drop_last();
    if i == pairs.len() - 1 {
        assert(updated.drop_last() =~= rest);
        assert(pairs_map(updated) =~= pairs_map(pairs).insert(pair.0@, pair.1@));
    } else {
        assert(distinct_keys(rest)) by {
            assert forall|a: int, b: int| 0 <= a < b < rest.len() implies (#[trigger] rest[a]).0@ != (
            #[trigger] rest[b]).0@ by {
                assert(pairs[a].0@ != pairs[b].0@);
            }
        }
        assert(rest[i] == pairs[i]);
        lemma_pairs_map_update(rest, i, pair);
        assert(updated.drop_last() =~= rest.update(i, pair));
        assert(updated.last() == pairs.last());
        assert(pairs[i].0@ != pairs[pairs.len() - 1].0@);
        assert(pairs_map(updated) =~= pairs_map(pairs).insert(pair.0@, pair.1@));
    }
}

/// The contents of the given files.
pub open spec fn contents(files: Seq<Vec<u8>>) -> Seq<Seq<u8>> {
    files.map_values(|f: Vec<u8>| f@)
}

/// The properties of the site files `docs` from number `i` on, added to
/// `map` in the order of the files, so that a later file overrides an
/// earlier one. `None` where one of the files cannot be read.
pub open spec fn read_files(docs: Seq<Seq<u8>>, i: int, map: Map<Seq<char>, Seq<char>>) -> Option<
    Map<Seq<char>, Seq<char>>,
>
    decreases docs.len() - i,
{
    if i < 0 || i >= docs.len() {
        Some(map)
    } else {
        match xml::properties_of(docs[i], map) {
            Some(more) => read_files(docs, i + 1, more),
            None => None,
        }
    }
}

/// The configuration that the site files `docs` give: their properties,
/// and the host and port derived from them.
pub open spec fn config_of(docs: Seq<Seq<u8>>) -> Option<Map<Seq<char>, Seq<char>>> {
    match read_files(docs, 0, Map::empty()) {
        Some(m) => Some(with_host_port(m)),
        None => None,
    }
}

/// Reading a configuration again changes nothing: a file that holds
/// exactly the properties of a configuration, the derived host and port
/// among them, gives that same configuration when it is read on its own.
pub proof fn lemma_reading_again_changes_nothing(docs: Seq<Seq<u8>>, written: Seq<u8>)
    requires
        config_of(docs) is Some,
        xml::properties_of(written, Map::empty()) == config_of(docs),
    ensures
        config_of(seq![written]) == config_of(docs),
{
    let first = read_files(docs, 0, Map::empty())->Some_0;
    lemma_with_host_port_idempotent(first);
    let again = seq![written];
    assert(read_files(again, 1, with_host_port(first)) == Some(with_host_port(first)));
    assert(read_files(again, 0, Map::empty()) == Some(with_host_port(first)));
}

/// The properties of a client configuration. They are kept as a list of
/// pairs in which no key occurs twice: a hash map keyed by text could not be
/// reasoned about, as `String` has no model as a key.
#[derive(Debug)]
pub struct Config {
    entries: Vec<(String, String)>,
}

impl Config {
    /// The properties as a map from key to value.
    pub closed spec fn config_map(&self) -> Map<Seq<char>, Seq<char>> {
        pairs_map(self.entries@)
    }

    /// No key is stored twice.
    pub closed spec fn wf(&self) -> bool {
        distinct_keys(self.entries@)
    }

    /// A configuration without properties.
    pub fn empty() -> (c: Config)
        ensures
            c.wf(),
            c.config_map() == Map::<Seq<char>, Seq<char>>::empty(),
    {
        Config { entries: Vec::new() }
    }

    /// The configuration that the contents of the given site files give, a
    /// later file overriding an earlier one. Fails with
    /// `Error::InvalidXmlFile` exactly when one of them cannot be read.
    pub fn read_config_files(config_files: &Vec<Vec<u8>>) -> (r: Result<Config, Error>)
        ensures
            config_of(contents(config_files@)) matches Some(m) ==> (r matches Ok(c) && c.wf()
                && c.config_map() == m),
            config_of(contents(config_files@)) is None ==> (r matches Err(e)
                && e is InvalidXmlFile),
    {
        let mut config = Config::empty();
        let ghost docs = contents(config_files@);
        let mut i: usize = 0;
        while i < config_files.len()
            invariant
                i <= config_files.len(),
                docs == contents(config_files@),
                config.wf(),
                read_files(docs, 0, Map::empty()) == read_files(
                    docs,
                    i as int,
                    config.config_map(),
                ),
            decreases config_files.len() - i,
        {
            assert(docs[i as int] == config_files@[i as int]@);
            match read_properties(config_files[i].as_slice(), &mut config) {
                Err(e) => {
                    return Err(e);
                },
                Ok(()) => {},
            }
            i += 1;
        }
        config.derive_host_port();
        Ok(config)
    }

    /// The configuration that the contents of `core-site.xml` and of
    /// `hdfs-site.xml` give, the second overriding the first.
    pub fn new(core_site: &[u8], hdfs_site: &[u8]) -> (r: Result<Config, Error>)
        ensures
            config_of(seq![core_site@, hdfs_site@]) matches Some(m) ==> (r matches Ok(c) && c.wf()
                && c.config_map() == m),
            config_of(seq![core_site@, hdfs_site@]) is None ==> (r matches Err(e)
                && e is InvalidXmlFile),
    {
        let ghost docs = seq![core_site@, hdfs_site@];
        let mut config = Config::empty();
        assert(docs[0] == core_site@ && docs[1] == hdfs_site@);
        match read_properties(core_site, &mut config) {
            Err(e) => {
                return Err(e);
            },
            Ok(()) => {},
        }
        assert(read_files(docs, 0, Map::empty()) == read_files(docs, 1, config.config_map()));
        match read_properties(hdfs_site, &mut config) {
            Err(e) => {
                assert(read_files(docs, 1, xml::properties_of(docs[0], Map::empty())->Some_0) is None);
                return Err(e);
            },
            Ok(()) => {},
        }
        assert(read_files(docs, 1, xml::properties_of(docs[0], Map::empty())->Some_0)
            == read_files(docs, 2, config.config_map()));
        config.derive_host_port();
        Ok(config)
    }

    /// Where `key` is stored, if it is.
    fn position(&self, key: &String) -> (r: Option<usize>)
        ensures
            r matches Some(i) ==> i < self.entries@.len() && self.entries@[i as int].0@ == key@,
            r is None ==> forall|i: int|
                0 <= i < self.entries@.len() ==> (#[trigger] self.entries@[i]).0@ != key@,
    {
        let mut i: usize = 0;
        while i < self.entries.len()
            invariant
                i <= self.entries.len(),
                forall|j: int| 0 <= j < i ==> (#[trigger] self.entries@[j]).0@ != key@,
            decreases self.entries.len() - i,
        {
            if self.entries[i].0 == *key {
                return Some(i);
            }
            i += 1;
        }
        None
    }

    /// Stores `value` under `key`, in place of what was stored there.
    pub fn insert(&mut self, key: String, value: String)
        requires
            old(self).wf(),
        ensures
            final(self).wf(),
            final(self).config_map() == old(self).config_map().insert(key@, value@),
    {
        let ghost before = self.entries@;
        match self.position(&key) {
            Some(i) => {
                proof {
                    lemma_pairs_map_update(before, i as int, (key, value));
                }
                self.entries.set(i, (key, value));
            },
            None => {
                self.entries.push((key, value));
                proof {
                    assert(self.entries@.drop_last() =~= before);
                    assert forall|a: int, b: int|
                        0 <= a < b < self.entries@.len() implies (#[trigger] self.entries@[a]).0@ != (
                    #[trigger] self.entries@[b]).0@ by {
                        if b < before.len() {
                            assert(before[a].0@ != before[b].0@);
                        } else {
                            assert(before[a].0@ != key@);
                        }
                    }
                }
            },
        }
    }

    /// The value stored under `key`.
    pub fn get_string(&self, key: &str) -> (r: Option<&str>)
        requires
            self.wf(),
        ensures
            self.config_map().contains_key(key@) ==> (r matches Some(v) && v@
                == self.config_map()[key@]),
            !self.config_map().contains_key(key@) ==> r is None,
    {
        let owned = key.to_owned();
        proof {
            lemma_pairs_map_keys(self.entries@, key@);
        }
        match self.position(&owned) {
            Some(i) => {
                proof {
                    lemma_pairs_map_value(self.entries@, i as int);
                }
                Some(self.entries[i].1.as_str())
            },
            None => None,
        }
    }

    /// All properties, each key once, in no particular order.
    pub fn get_all_key_values(&self) -> (r: Vec<(String, String)>)
        requires
            self.wf(),
        ensures
            distinct_keys(r@),
            pairs_map(r@) == self.config_map(),
            r@.len() == self.config_map().dom().len(),
    {
        let mut out: Vec<(String, String)> = Vec::new();
        let mut i: usize = 0;
        while i < self.entries.len()
            invariant
                i <= self.entries.len(),
                out@.len() == i,
                forall|j: int|
                    0 <= j < i ==> (#[trigger] out@[j]).0@ == self.entries@[j].0@ && out@[j].1@
                        == self.entries@[j].1@,
            decreases self.entries.len() - i,
        {
            out.push((self.entries[i].0.clone(), self.entries[i].1.clone()));
            i += 1;
        }
        proof {
            assert forall|a: int, b: int| 0 <= a < b < out@.len() implies (#[trigger] out@[a]).0@ != (
            #[trigger] out@[b]).0@ by {
                assert(self.entries@[a].0@ != self.entries@[b].0@);
            }
            lemma_pairs_map_same(out@, self.entries@);
            lemma_pairs_map_len(self.entries@);
        }
        out
    }

    /// The value stored under `key`, read as a 16-bit number in decimal.
    /// `None` where nothing is stored under `key` or where the value is no
    /// such number.
    pub fn get(&self, key: &str) -> (r: Option<u16>)
        requires
            self.wf(),
        ensures
            self.config_map().contains_key(key@) ==> r == text::parse_u16(self.config_map()[key@]),
            !self.config_map().contains_key(key@) ==> r is None,
    {
        match self.get_string(key) {
            Some(v) => read_u16(v),
            None => None,
        }
    }

    /// The namenode's host and port as the properties give them.
    pub fn get_host_port(&self) -> (r: (Option<String>, Option<String>))
        requires
            self.wf(),
        ensures
            texts_of(r) == host_port(self.config_map()),
    {
        let scheme = chars_of("hdfs://");
        if let Some(value) = self.get_string("fs.defaultFS") {
            let chars = chars_of(value);
            if starts_with(&chars, &scheme) {
                return address(value, &chars, scheme.len());
            }
        }
        if let Some(value) = self.get_string("dfs.namenode.rpc-address") {
            let chars = chars_of(value);
            return address(value, &chars, 0);
        }
        if let Some(value) = self.get_string("dfs.nameservices") {
            let chars = chars_of(value);
            let k = find_char(&chars, ',', 0);
            return (Some(value.substring_char(0, k).to_owned()), None);
        }
        (None, None)
    }

    /// Stores the derived host and port among the properties.
    pub fn derive_host_port(&mut self)
        requires
            old(self).wf(),
        ensures
            final(self).wf(),
            final(self).config_map() == with_host_port(old(self).config_map()),
    {
        let (host, port) = self.get_host_port();
        if let Some(host) = host {
            self.insert("host".to_owned(), host);
        }
        if let Some(port) = port {
            self.insert("port".to_owned(), port);
        }
    }
}

/// The texts of a pair of optional strings.
pub open spec fn texts_of(r: (Option<String>, Option<String>)) -> (
    Option<Seq<char>>,
    Option<Seq<char>>,
) {
    (
        match r.0 {
            Some(s) => Some(s@),
            None => None,
        },
        match r.1 {
            Some(s) => Some(s@),
            None => None,
        },
    )
}

/// The host and the port in the address `value` from `start` on.
fn address(value: &str, chars: &Vec<char>, start: usize) -> (r: (Option<String>, Option<String>))
    requires
        chars@ == value@,
        start <= chars.len(),
    ensures
        texts_of(r) == address_parts(value@, start as int),
{
    let k = find_char(chars, ':', start);
    let host = value.substring_char(start, k).to_owned();
    if k < chars.len() {
        (Some(host), Some(value.substring_char(k + 1, chars.len()).to_owned()))
    } else {
        (Some(host), None)
    }
}

/// Two lists of pairs with the same texts stand for the same map.
pub proof fn lemma_pairs_map_same(a: Seq<(String, String)>, b: Seq<(String, String)>)
    requires
        a.len() == b.len(),
        forall|j: int| 0 <= j < a.len() ==> (#[trigger] a[j]).0@ == b[j].0@ && a[j].1@ == b[j].1@,
    ensures
        pairs_map(a) == pairs_map(b),
    decreases a.len(),
{
    if a.len() > 0 {
        assert(a.last().0@ == b.last().0@ && a.last().1@ == b.last().1@) by {
            assert(a[a.len() - 1].0@ == b[a.len() - 1].0@);
        }
        assert forall|j: int| 0 <= j < a.drop_last().len() implies (#[trigger] a.drop_last()[j]).0@
            == b.drop_last()[j].0@ && a.drop_last()[j].1@ == b.drop_last()[j].1@ by {
            assert(a[j].0@ == b[j].0@);
        }
        lemma_pairs_map_same(a.drop_last(), b.drop_last());
    }
}

/// A list of pairs with distinct keys stands for a map of as many keys.
pub proof fn lemma_pairs_map_len(pairs: Seq<(String, String)>)
    requires
        distinct_keys(pairs),
    ensures
        pairs_map(pairs).dom().finite(),
        pairs_map(pairs).dom().len() == pairs.len(),
    decreases pairs.len(),
{
    if pairs.len() > 0 {
        let rest = pairs.drop_last();
        assert(distinct_keys(rest)) by {
            assert forall|a: int, b: int| 0 <= a < b < rest.len() implies (#[trigger] rest[a]).0@ != (
            #[trigger] rest[b]).0@ by {
                assert(pairs[a].0@ != pairs[b].0@);
            }
        }
        lemma_pairs_map_len(rest);
        lemma_pairs_map_keys(rest, pairs.last().0@);
        assert(!pairs_map(rest).contains_key(pairs.last().0@)) by {
            if pairs_map(rest).contains_key(pairs.last().0@) {
                let i = choose|i: int|
                    0 <= i < rest.len() && (#[trigger] rest[i]).0@ == pairs.last().0@;
                assert(pairs[i].0@ != pairs[pairs.len() - 1].0@);
            }
        }
        assert(pairs_map(pairs).dom() =~= pairs_map(rest).dom().insert(pairs.last().0@));
    } else {
        assert(pairs_map(pairs).dom() =~= Set::<Seq<char>>::empty());
    }
}

} // verus!
