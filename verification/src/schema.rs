use crate::json::{lemma_view_items, parsed, view_items, Json, JsonView};
use crate::text::{joined, contains, is_infix, lowercased, to_lowercase, trim, trimmed};
use vstd::prelude::*;

verus! {

/// What the catalogue knows of one method.
#[derive(Debug)]
pub struct MethodMeta {
    pub name: String,
    pub category: String,
    pub summary: Option<String>,
}

/// The catalogue of the node's methods.
#[derive(Debug)]
pub struct SchemaIndex {
    methods: Vec<MethodMeta>,
}

/// The category of a method entry: the name of its first tag, or the tag
/// itself where it is a string; `uncategorized` where it has neither.
pub open spec fn category_of(method: JsonView) -> Seq<char> {
    match method.at("tags"@).as_array() {
        Some(tags) => if tags.len() == 0 {
            "uncategorized"@
        } else {
            match tags[0].at("name"@).as_str() {
                Some(name) => name,
                None => match tags[0].as_str() {
                    Some(tag) => tag,
                    None => "uncategorized"@,
                },
            }
        },
        None => "uncategorized"@,
    }
}

/// The entries of a list that name a method, in order.
pub open spec fn named_methods(entries: Seq<JsonView>) -> Seq<JsonView>
    decreases entries.len(),
{
    if entries.len() == 0 {
        Seq::empty()
    } else if entries.last().at("name"@).as_str() is Some {
        named_methods(entries.drop_last()).push(entries.last())
    } else {
        named_methods(entries.drop_last())
    }
}

impl MethodMeta {
    /// The entry holds what the schema's method `v` says.
    pub open spec fn describes(&self, v: JsonView) -> bool {
        &&& v.at("name"@).as_str() == Some(self.name@)
        &&& self.category@ == category_of(v)
        &&& match self.summary {
            Some(text) => v.at("summary"@).as_str() == Some(text@),
            None => v.at("summary"@).as_str() is None,
        }
    }

    /// Whether the method's name, category or summary, in small letters,
    /// contains the query.
    pub open spec fn matches(&self, query: Seq<char>) -> bool {
        ||| is_infix(query, lowercased(self.name@))
        ||| is_infix(query, lowercased(self.category@))
        ||| (self.summary matches Some(text) && is_infix(query, lowercased(text@)))
    }
}

/// The methods that match a query, in order.
pub open spec fn matching(methods: Seq<MethodMeta>, query: Seq<char>) -> Seq<MethodMeta>
    decreases methods.len(),
{
    if methods.len() == 0 {
        Seq::empty()
    } else if methods.last().matches(query) {
        matching(methods.drop_last(), query).push(methods.last())
    } else {
        matching(methods.drop_last(), query)
    }
}

/// The methods that a search for `query` finds: all of them for a query
/// that is empty once trimmed, else those that match it in small letters.
pub open spec fn search_result(methods: Seq<MethodMeta>, query: Seq<char>) -> Seq<MethodMeta> {
    let q = lowercased(trimmed(query));
    if q.len() == 0 {
        methods
    } else {
        matching(methods, q)
    }
}

/// The methods array of a schema, if the text is a JSON document that has
/// one.
pub open spec fn schema_methods(text: Seq<char>) -> Option<Seq<JsonView>> {
    match parsed(text) {
        Some(root) => root.at("methods"@).as_array(),
        None => None,
    }
}

fn member<'a>(obj: &'a Json, key: &str) -> (r: Option<&'a Json>)
    ensures
        match r {
            Some(v) => obj@.at(key@) == v@,
            None => obj@.at(key@) is Null,
        },
{
    obj.get(key)
}

fn text_member<'a>(obj: &'a Json, key: &str) -> (r: Option<&'a str>)
    ensures
        match r {
            Some(s) => obj@.at(key@).as_str() == Some(s@),
            None => obj@.at(key@).as_str() is None,
        },
{
    match member(obj, key) {
        Some(v) => v.as_str(),
        None => None,
    }
}

fn category(method: &Json) -> (r: String)
    ensures
        r@ == category_of(method@),
{
    let tags = match member(method, "tags") {
        Some(v) => v.as_array(),
        None => None,
    };
    match tags {
        Some(tags) => {
            proof {
                lemma_view_items(tags@);
            }
            if tags.len() == 0 {
                return "uncategorized".to_owned();
            }
            match text_member(&tags[0], "name") {
                Some(name) => name.to_owned(),
                None => match tags[0].as_str() {
                    Some(tag) => tag.to_owned(),
                    None => "uncategorized".to_owned(),
                },
            }
        },
        None => "uncategorized".to_owned(),
    }
}

/// Reads one method entry of a schema; nothing for an entry without a name.
pub fn method_meta(method: &Json) -> (r: Option<MethodMeta>)
    ensures
        match r {
            Some(meta) => meta.describes(method@),
            None => method@.at("name"@).as_str() is None,
        },
{
    let name = match text_member(method, "name") {
        Some(name) => name.to_owned(),
        None => {
            return None;
        },
    };
    let summary = match text_member(method, "summary") {
        Some(text) => Some(text.to_owned()),
        None => None,
    };
    Some(MethodMeta { name, category: category(method), summary })
}

/// The catalogue that ships with the library, as an OpenRPC document.
pub const DEFAULT_SCHEMA: &'static str =
    "{\"openrpc\":\"1.2.6\",\"info\":{\"title\":\"Bitcoin Core RPC\"},\"methods\":[\
{\"name\":\"getbestblockhash\",\"summary\":\"Returns the hash of the best block\",\"tags\":[{\"name\":\"blockchain\"}]},\
{\"name\":\"getblock\",\"summary\":\"Returns a block by its hash\",\"tags\":[{\"name\":\"blockchain\"}]},\
{\"name\":\"getblockchaininfo\",\"summary\":\"Returns the state of the chain\",\"tags\":[{\"name\":\"blockchain\"}]},\
{\"name\":\"getblockcount\",\"summary\":\"Returns the height of the chain\",\"tags\":[{\"name\":\"blockchain\"}]},\
{\"name\":\"getblockhash\",\"summary\":\"Returns the hash of the block at a height\",\"tags\":[{\"name\":\"blockchain\"}]},\
{\"name\":\"getblockheader\",\"summary\":\"Returns a block header\",\"tags\":[{\"name\":\"blockchain\"}]},\
{\"name\":\"getmempoolinfo\",\"summary\":\"Returns the state of the mempool\",\"tags\":[{\"name\":\"blockchain\"}]},\
{\"name\":\"getrawmempool\",\"summary\":\"Returns the transactions in the mempool\",\"tags\":[{\"name\":\"blockchain\"}]},\
{\"name\":\"gettxout\",\"summary\":\"Returns an unspent output\",\"tags\":[{\"name\":\"blockchain\"}]},\
{\"name\":\"getrpcinfo\",\"summary\":\"Returns details of the RPC server\",\"tags\":[{\"name\":\"control\"}]},\
{\"name\":\"help\",\"summary\":\"Lists the commands\",\"tags\":[{\"name\":\"control\"}]},\
{\"name\":\"stop\",\"summary\":\"Stops the node\",\"tags\":[{\"name\":\"control\"}]},\
{\"name\":\"uptime\",\"summary\":\"Returns the time the node has run\",\"tags\":[{\"name\":\"control\"}]},\
{\"name\":\"getmininginfo\",\"summary\":\"Returns the state of mining\",\"tags\":[{\"name\":\"mining\"}]},\
{\"name\":\"getconnectioncount\",\"summary\":\"Returns the number of connections\",\"tags\":[{\"name\":\"network\"}]},\
{\"name\":\"getnettotals\",\"summary\":\"Returns the traffic totals\",\"tags\":[{\"name\":\"network\"}]},\
{\"name\":\"getnetworkinfo\",\"summary\":\"Returns the state of the network\",\"tags\":[{\"name\":\"network\"}]},\
{\"name\":\"getpeerinfo\",\"summary\":\"Returns the connected peers\",\"tags\":[{\"name\":\"network\"}]},\
{\"name\":\"ping\",\"summary\":\"Pings every peer\",\"tags\":[{\"name\":\"network\"}]},\
{\"name\":\"decoderawtransaction\",\"summary\":\"Decodes a raw transaction\",\"tags\":[{\"name\":\"rawtransactions\"}]},\
{\"name\":\"getrawtransaction\",\"summary\":\"Returns a raw transaction\",\"tags\":[{\"name\":\"rawtransactions\"}]},\
{\"name\":\"sendrawtransaction\",\"summary\":\"Submits a raw transaction\",\"tags\":[{\"name\":\"rawtransactions\"}]},\
{\"name\":\"estimatesmartfee\",\"summary\":\"Estimates the fee for a confirmation target\",\"tags\":[{\"name\":\"util\"}]},\
{\"name\":\"validateaddress\",\"summary\":\"Checks an address\",\"tags\":[{\"name\":\"util\"}]},\
{\"name\":\"getbalance\",\"summary\":\"Returns the balance\",\"tags\":[{\"name\":\"wallet\"}]},\
{\"name\":\"getnewaddress\",\"summary\":\"Returns a new address\",\"tags\":[{\"name\":\"wallet\"}]},\
{\"name\":\"getwalletinfo\",\"summary\":\"Returns the state of the wallet\",\"tags\":[{\"name\":\"wallet\"}]},\
{\"name\":\"listtransactions\",\"summary\":\"Lists the latest transactions\",\"tags\":[{\"name\":\"wallet\"}]},\
{\"name\":\"listunspent\",\"summary\":\"Lists the unspent outputs\",\"tags\":[{\"name\":\"wallet\"}]},\
{\"name\":\"listwallets\",\"summary\":\"Lists the loaded wallets\",\"tags\":[{\"name\":\"wallet\"}]},\
{\"name\":\"loadwallet\",\"summary\":\"Loads a wallet\",\"tags\":[{\"name\":\"wallet\"}]},\
{\"name\":\"sendtoaddress\",\"summary\":\"Sends an amount to an address\",\"tags\":[{\"name\":\"wallet\"}]},\
{\"name\":\"getzmqnotifications\",\"summary\":\"Returns the active notification publishers\",\"tags\":[{\"name\":\"zmq\"}]}\
]}";

impl SchemaIndex {
    /// The methods of the catalogue, in order.
    pub closed spec fn spec_methods(&self) -> Seq<MethodMeta> {
        self.methods@
    }

    /// The catalogue holds what the method entries say: one entry for each
    /// that names a method, in order.
    pub open spec fn describes(&self, entries: Seq<JsonView>) -> bool {
        &&& self.spec_methods().len() == named_methods(entries).len()
        &&& forall|k: int|
            0 <= k < self.spec_methods().len() ==> (#[trigger] self.spec_methods()[k]).describes(
                named_methods(entries)[k],
            )
    }

    /// Loads the catalogue that ships with the library.
    pub fn load_default() -> (r: Result<SchemaIndex, String>)
        ensures
            match r {
                Ok(index) => schema_methods(DEFAULT_SCHEMA@) matches Some(entries)
                    && index.describes(entries),
                Err(_) => schema_methods(DEFAULT_SCHEMA@) is None,
            },
    {
        SchemaIndex::from_str(DEFAULT_SCHEMA)
    }

    /// Reads a catalogue from the text of an OpenRPC document. The text
    /// must be JSON with an array `methods`; an entry without a name is
    /// passed over.
    pub fn from_str(input: &str) -> (r: Result<SchemaIndex, String>)
        ensures
            match r {
                Ok(index) => schema_methods(input@) matches Some(entries) && index.describes(
                    entries,
                ),
                Err(_) => schema_methods(input@) is None,
            },
    {
        let root = match Json::parse(input) {
            Ok(root) => root,
            Err(reason) => {
                return Err(joined("invalid schema: ", reason.as_str()));
            },
        };
        let found = match member(&root, "methods") {
            Some(v) => v.as_array(),
            None => None,
        };
        let entries = match found {
            Some(entries) => entries,
            None => {
                return Err("schema is missing methods array".to_owned());
            },
        };
        let ghost all = view_items(entries@);
        proof {
            lemma_view_items(entries@);
            assert(all.take(0) =~= Seq::<JsonView>::empty());
        }
        let mut methods: Vec<MethodMeta> = Vec::new();
        let mut i: usize = 0;
        while i < entries.len()
            invariant
                i <= entries.len(),
                all == view_items(entries@),
                all.len() == entries.len(),
                forall|j: int| 0 <= j < entries.len() ==> #[trigger] all[j] == entries[j]@,
                methods@.len() == named_methods(all.take(i as int)).len(),
                forall|k: int|
                    0 <= k < methods@.len() ==> (#[trigger] methods@[k]).describes(
                        named_methods(all.take(i as int))[k],
                    ),
            decreases entries.len() - i,
        {
            proof {
                let next = all.take(i + 1);
                assert(next.drop_last() =~= all.take(i as int));
                assert(next.last() == entries[i as int]@);
            }
            match method_meta(&entries[i]) {
                Some(meta) => {
                    methods.push(meta);
                },
                None => {},
            }
            i += 1;
        }
        proof {
            assert(all.take(entries.len() as int) =~= all);
        }
        Ok(SchemaIndex { methods })
    }

    /// The methods of the catalogue, in order.
    pub fn methods(&self) -> (r: &Vec<MethodMeta>)
        ensures
            r@ == self.spec_methods(),
    {
        &self.methods
    }

    /// The methods whose name, category or summary contains the query,
    /// letters compared in small; all methods for an empty query.
    pub fn search(&self, query: &str) -> (r: Vec<&MethodMeta>)
        ensures
            r@.len() == search_result(self.spec_methods(), query@).len(),
            forall|k: int|
                0 <= k < r@.len() ==> *(#[trigger] r@[k]) == search_result(
                    self.spec_methods(),
                    query@,
                )[k],
    {
        let q = to_lowercase(trim(query));
        let all = q.as_str().is_empty();
        let mut out: Vec<&MethodMeta> = Vec::new();
        let mut i: usize = 0;
        assert(self.methods@.take(0) =~= Seq::<MethodMeta>::empty());
        while i < self.methods.len()
            invariant
                i <= self.methods@.len(),
                all == (q@.len() == 0),
                all ==> out@.len() == i && forall|k: int|
                    0 <= k < i ==> *(#[trigger] out@[k]) == self.methods@[k],
                !all ==> out@.len() == matching(self.methods@.take(i as int), q@).len()
                    && forall|k: int|
                    0 <= k < out@.len() ==> *(#[trigger] out@[k]) == matching(
                        self.methods@.take(i as int),
                        q@,
                    )[k],
            decreases self.methods@.len() - i,
        {
            proof {
                let next = self.methods@.take(i + 1);
                assert(next.drop_last() =~= self.methods@.take(i as int));
                assert(next.last() == self.methods@[i as int]);
            }
            let method = &self.methods[i];
            if all || method_matches(method, q.as_str()) {
                out.push(method);
            }
            i += 1;
        }
        proof {
            assert(self.methods@.take(self.methods@.len() as int) =~= self.methods@);
        }
        out
    }
}

/// Whether a method's name, category or summary, in small letters,
/// contains the query.
pub fn method_matches(method: &MethodMeta, query: &str) -> (r: bool)
    ensures
        r == method.matches(query@),
{
    if contains(to_lowercase(method.name.as_str()).as_str(), query) {
        return true;
    }
    if contains(to_lowercase(method.category.as_str()).as_str(), query) {
        return true;
    }
    match &method.summary {
        Some(text) => contains(to_lowercase(text.as_str()).as_str(), query),
        None => false,
    }
}

} // verus!
