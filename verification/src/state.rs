//! What the application is configured with: the chains, their exchanges,
//! and the parameters of their scans.

use vstd::prelude::*;
use crate::scanner::Params;
use crate::text::{spec_to_lowercase, to_lowercase};

verus! {

/// An exchange, by the form of the swap events it emits.
#[derive(Clone, Debug)]
pub enum Exchange {
    V2 { name: String },
    V3 { name: String },
}

/// The token in which a chain's gas is paid.
#[derive(Debug)]
pub struct NativeToken {
    pub name: String,
    pub symbol: String,
    pub decimals: u8,
}

/// Values under text keys, each key once.
#[derive(Debug)]
pub struct Table<V> {
    pub entries: Vec<(String, V)>,
}

/// A chain, its provider, and the exchanges that are known on it, each
/// under the address of its factory in lower case.
#[derive(Debug)]
pub struct Blockchain {
    pub name: String,
    pub provider_url: String,
    pub data_aggregator_address: String,
    pub exchanges: Table<Exchange>,
    pub scanner_params: Params,
    pub native_token: NativeToken,
}

/// The place of the first entry under `key`, and the count of entries where
/// there is none.
pub open spec fn position_of<V>(entries: Seq<(String, V)>, key: Seq<char>) -> int
    decreases entries.len(),
{
    if entries.len() == 0 {
        0
    } else if entries[0].0@ == key {
        0
    } else {
        1 + position_of(entries.drop_first(), key)
    }
}

/// The place found is the first whose entry has the key.
pub proof fn lemma_position_of<V>(entries: Seq<(String, V)>, key: Seq<char>)
    ensures
        0 <= position_of(entries, key) <= entries.len(),
        position_of(entries, key) < entries.len() ==> entries[position_of(entries, key)].0@ == key,
        forall|i: int| 0 <= i < position_of(entries, key) ==> (#[trigger] entries[i]).0@ != key,
    decreases entries.len(),
{
    if entries.len() > 0 && entries[0].0@ != key {
        let rest = entries.drop_first();
        lemma_position_of(rest, key);
        assert forall|i: int| 0 <= i < position_of(entries, key) implies (#[trigger] entries[i]).0@
            != key by {
            if i > 0 {
                assert(entries[i] == rest[i - 1]);
            }
        }
    }
}

/// A place whose entry has the key, with no such entry before it, is the
/// place found.
pub proof fn lemma_position_is<V>(entries: Seq<(String, V)>, key: Seq<char>, place: int)
    requires
        0 <= place <= entries.len(),
        place < entries.len() ==> entries[place].0@ == key,
        forall|i: int| 0 <= i < place ==> (#[trigger] entries[i]).0@ != key,
    ensures
        position_of(entries, key) == place,
    decreases entries.len(),
{
    if entries.len() > 0 && place > 0 {
        let rest = entries.drop_first();
        assert(entries[0].0@ != key);
        assert forall|i: int| 0 <= i < place - 1 implies (#[trigger] rest[i]).0@ != key by {
            assert(rest[i] == entries[i + 1]);
        }
        if place < entries.len() {
            assert(rest[place - 1] == entries[place]);
        }
        lemma_position_is(rest, key, place - 1);
    }
}

impl Exchange {
    /// The name under which the exchange is known.
    pub open spec fn spec_name(&self) -> Seq<char> {
        match self {
            Exchange::V2 { name } => name@,
            Exchange::V3 { name } => name@,
        }
    }

    /// The name under which the exchange is known.
    pub fn name(&self) -> (r: &str)
        ensures
            r@ == self.spec_name(),
    {
        match self {
            Exchange::V2 { name } => name.as_str(),
            Exchange::V3 { name } => name.as_str(),
        }
    }
}

impl<V> Table<V> {
    /// Whether no key occurs twice.
    pub open spec fn wf(&self) -> bool {
        forall|i: int, j: int|
            0 <= i < j < self.entries@.len() ==> (#[trigger] self.entries@[i]).0@ != (
            #[trigger] self.entries@[j]).0@
    }

    /// Whether the table has an entry under `key`.
    pub open spec fn has(&self, key: Seq<char>) -> bool {
        position_of(self.entries@, key) < self.entries@.len()
    }

    /// The value under `key`.
    pub open spec fn value(&self, key: Seq<char>) -> V
        recommends
            self.has(key),
    {
        self.entries@[position_of(self.entries@, key)].1
    }

    /// A table without entries.
    pub fn new() -> (r: Table<V>)
        ensures
            r.wf(),
            r.entries@.len() == 0,
            forall|key: Seq<char>| !r.has(key),
    {
        Table { entries: Vec::new() }
    }

    /// The place of the entry under `key`, and the count of entries where
    /// there is none.
    fn find(&self, key: &String) -> (r: usize)
        ensures
            r == position_of(self.entries@, key@),
            r <= self.entries@.len(),
    {
        let mut k: usize = 0;
        while k < self.entries.len() && !(self.entries[k].0 == *key)
            invariant
                k <= self.entries.len(),
                forall|i: int| 0 <= i < k ==> (#[trigger] self.entries@[i]).0@ != key@,
            decreases self.entries.len() - k,
        {
            k += 1;
        }
        proof {
            lemma_position_is(self.entries@, key@, k as int);
        }
        k
    }

    /// The value under `key`, if there is one.
    pub fn get(&self, key: &String) -> (r: Option<&V>)
        ensures
            (r is Some) <==> self.has(key@),
            r matches Some(value) ==> *value == self.value(key@),
    {
        let place = self.find(key);
        if place < self.entries.len() {
            Some(&self.entries[place].1)
        } else {
            None
        }
    }

    /// Puts `value` under `key`, in place of what was there. Every other
    /// key keeps its value.
    pub fn insert(&mut self, key: String, value: V)
        requires
            old(self).wf(),
        ensures
            final(self).wf(),
            final(self).has(key@),
            final(self).value(key@) == value,
            forall|other: Seq<char>|
                other != key@ ==> final(self).has(other) == old(self).has(other) && (old(self).has(
                    other,
                ) ==> final(self).value(other) == old(self).value(other)),
    {
        let place = self.find(&key);
        let ghost key_text = key@;
        proof {
            lemma_position_of(self.entries@, key_text);
        }
        if place < self.entries.len() {
            self.entries.set(place, (key, value));
        } else {
            self.entries.push((key, value));
        }
        proof {
            let before = old(self).entries@;
            let after = self.entries@;
            assert(after[place as int].0@ == key_text);
            assert forall|i: int| 0 <= i < after.len() && i != place implies after[i]
                == before[i] by {}
            assert forall|i: int| 0 <= i < place implies (#[trigger] after[i]).0@ != key_text by {
                assert(after[i] == before[i]);
            }
            lemma_position_is(after, key_text, place as int);
            assert forall|i: int, j: int| 0 <= i < j < after.len() implies (#[trigger] after[i]).0@
                != (#[trigger] after[j]).0@ by {
                if i == place {
                    if place < before.len() {
                        assert(before[i].0@ == key_text);
                        assert(after[j] == before[j]);
                    }
                } else if j == place {
                    assert(after[i] == before[i]);
                    if place < before.len() {
                        assert(before[j].0@ == key_text);
                    }
                } else {
                    assert(after[i] == before[i] && after[j] == before[j]);
                }
            }
            assert forall|other: Seq<char>| other != key_text implies self.has(other) == old(self).has(other) && (old(self).has(other) ==> self.value(other) == old(self).value(
                other,
            )) by {
                lemma_position_of(before, other);
                let at = position_of(before, other);
                if at < before.len() {
                    assert(at != place);
                    assert(after[at] == before[at]);
                    assert forall|i: int| 0 <= i < at implies (#[trigger] after[i]).0@ != other by {
                        if i != place {
                            assert(after[i] == before[i]);
                        }
                    }
                    lemma_position_is(after, other, at);
                } else {
                    assert forall|i: int| 0 <= i < after.len() implies (#[trigger] after[i]).0@
                        != other by {
                        if i != place {
                            assert(after[i] == before[i]);
                        }
                    }
                    lemma_position_is(after, other, after.len() as int);
                }
            }
        }
    }
}

impl Blockchain {
    /// A chain without exchanges.
    pub fn new(
        name: String,
        provider_url: String,
        data_aggregator_address: String,
        scanner_params: Params,
        native_token: NativeToken,
    ) -> (r: Blockchain)
        ensures
            r.name == name,
            r.provider_url == provider_url,
            r.data_aggregator_address == data_aggregator_address,
            r.scanner_params == scanner_params,
            r.native_token == native_token,
            r.exchanges.wf(),
            r.exchanges.entries@.len() == 0,
    {
        Blockchain {
            name,
            provider_url,
            data_aggregator_address,
            exchanges: Table::new(),
            scanner_params,
            native_token,
        }
    }

    /// Makes an exchange known under the address of its factory, which is
    /// put in lower case.
    pub fn add_exchange(&mut self, factory_address: &str, exchange: Exchange)
        requires
            old(self).exchanges.wf(),
        ensures
            final(self).exchanges.wf(),
            final(self).exchanges.has(spec_to_lowercase(factory_address@)),
            final(self).exchanges.value(spec_to_lowercase(factory_address@)) == exchange,
            forall|other: Seq<char>|
                other != spec_to_lowercase(factory_address@) ==> final(self).exchanges.has(other)
                    == old(self).exchanges.has(other) && (old(self).exchanges.has(other) ==> final(self).exchanges.value(other) == old(self).exchanges.value(other)),
            final(self).name == old(self).name,
            final(self).provider_url == old(self).provider_url,
            final(self).data_aggregator_address == old(self).data_aggregator_address,
            final(self).scanner_params == old(self).scanner_params,
            final(self).native_token == old(self).native_token,
    {
        let key = to_lowercase(factory_address);
        self.exchanges.insert(key, exchange);
    }

    /// The exchange whose factory has the address, which is given in lower
    /// case.
    pub fn exchange(&self, factory_address: &String) -> (r: Option<&Exchange>)
        ensures
            (r is Some) <==> self.exchanges.has(factory_address@),
            r matches Some(exchange) ==> *exchange == self.exchanges.value(factory_address@),
    {
        self.exchanges.get(factory_address)
    }
}

} // verus!
